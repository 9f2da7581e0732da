//! Vendor sessions: harvested cookies, the cookie request header, the
//! session record, and the codec for the persisted session-cache file.
//!
//! The cache file holds one JSON object `{"token":"..."}` in the compact
//! form this library itself writes; the token's payload carries the
//! cookie jar, five escaped `;`-closed fields per cookie. Reading is
//! total: content in any other shape yields `None` (an absent session),
//! never a failure — and both layers round-trip, so the record a login
//! persists is the record the next cache read sees.

use vstd::prelude::*;
use crate::strings::{chars_vec, string_from_chars};

verus! {

/// A single browser cookie as harvested from a vendor login session.
#[derive(Debug, Clone)]
pub struct Cookie {
    pub name: String,
    pub value: String,
    pub domain: String,
    pub path: String,
    pub expires: Option<String>,
}

/// The `name=value; ` rendering of one cookie.
pub open spec fn cookie_pair(c: Cookie) -> Seq<char> {
    c.name@ + seq!['='] + c.value@ + seq![';', ' ']
}

/// The cookie header for a jar: each cookie's `name=value; ` pair,
/// in jar order.
pub open spec fn header_of(jar: Seq<Cookie>) -> Seq<char>
    decreases jar.len(),
{
    if jar.len() == 0 {
        Seq::empty()
    } else {
        cookie_pair(jar[0]) + header_of(jar.drop_first())
    }
}

/// Assemble the `Cookie` request-header value for a jar: the cookies'
/// `name=value; ` pairs concatenated in jar order, none lost, none
/// duplicated.
pub fn cookie_header(jar: &Vec<Cookie>) -> (r: String)
    ensures
        r@ == header_of(jar@),
{
    let mut r = String::new();
    let mut i: usize = 0;
    proof {
        assert(jar@.skip(0) =~= jar@);
        assert(r@ + header_of(jar@) =~= header_of(jar@));
    }
    while i < jar.len()
        invariant
            i <= jar.len(),
            r@ + header_of(jar@.skip(i as int)) == header_of(jar@),
        decreases jar.len() - i,
    {
        let ghost r0 = r@;
        proof {
            assert(jar@.skip(i as int)[0] == jar@[i as int]);
            assert(jar@.skip(i as int).drop_first() =~= jar@.skip(i + 1));
        }
        r.append(jar[i].name.as_str());
        r.append("=");
        r.append(jar[i].value.as_str());
        r.append("; ");
        proof {
            reveal_strlit("=");
            reveal_strlit("; ");
            assert(r@ =~= r0 + cookie_pair(jar@[i as int]));
            assert(r@ + header_of(jar@.skip(i + 1)) =~= r0 + header_of(jar@.skip(i as int)));
        }
        i = i + 1;
    }
    proof {
        assert(jar@.skip(jar@.len() as int) =~= Seq::<Cookie>::empty());
        assert(r@ + header_of(jar@.skip(jar@.len() as int)) =~= r@);
    }
    r
}

/// An authenticated vendor session: the cookie jar a login harvested.
/// Well-formed only when at least one cookie was produced.
#[derive(Debug, Clone)]
pub struct SessionRecord {
    pub cookies: Vec<Cookie>,
}

impl SessionRecord {
    /// A session record is well formed when its jar is not empty.
    pub open spec fn wf(self) -> bool {
        self.cookies@.len() > 0
    }

    /// Build a session record from harvested cookies; a login that
    /// produced no cookies yields no record.
    pub fn from_cookies(cookies: Vec<Cookie>) -> (r: Option<SessionRecord>)
        ensures
            cookies@.len() > 0 ==> (r matches Some(s) && s.cookies == cookies && s.wf()),
            cookies@.len() == 0 ==> r is None,
    {
        if cookies.len() > 0 {
            Some(SessionRecord { cookies })
        } else {
            None
        }
    }

    /// The header value this session sends with each vendor request.
    pub fn header(&self) -> (r: String)
        ensures
            r@ == header_of(self.cookies@),
    {
        cookie_header(&self.cookies)
    }
}

/// One token character as it is written inside the cache file's quotes:
/// quote and backslash are escaped, everything else stands as itself.
pub open spec fn esc_char(c: char) -> Seq<char> {
    if c == '"' || c == '\\' {
        seq!['\\', c]
    } else {
        seq![c]
    }
}

/// A token's escaped form.
pub open spec fn escape_of(s: Seq<char>) -> Seq<char>
    decreases s.len(),
{
    if s.len() == 0 {
        Seq::empty()
    } else {
        esc_char(s[0]) + escape_of(s.drop_first())
    }
}

/// What stands between the quotes of a cache file, read back: `None`
/// when a bare quote, a lone trailing backslash, or an unknown escape
/// appears.
pub open spec fn unescape_of(s: Seq<char>) -> Option<Seq<char>>
    decreases s.len(),
{
    if s.len() == 0 {
        Some(Seq::empty())
    } else if s[0] == '\\' {
        if s.len() >= 2 && (s[1] == '"' || s[1] == '\\') {
            match unescape_of(s.skip(2)) {
                Some(rest) => Some(seq![s[1]] + rest),
                None => None,
            }
        } else {
            None
        }
    } else if s[0] == '"' {
        None
    } else {
        match unescape_of(s.drop_first()) {
            Some(rest) => Some(seq![s[0]] + rest),
            None => None,
        }
    }
}

/// The fixed opening of a cache file, before the escaped token.
pub open spec fn file_prefix() -> Seq<char> {
    seq!['{', '"', 't', 'o', 'k', 'e', 'n', '"', ':', '"']
}

/// The fixed closing of a cache file, after the escaped token.
pub open spec fn file_suffix() -> Seq<char> {
    seq!['"', '}']
}

/// The whole cache file written for a token.
pub open spec fn token_file_of(token: Seq<char>) -> Seq<char> {
    file_prefix() + escape_of(token) + file_suffix()
}

/// The token a cache file's content carries: `None` unless the content
/// is exactly an object `{"token":"..."}` in the compact form this
/// library writes.
pub open spec fn token_of_file(content: Seq<char>) -> Option<Seq<char>> {
    if content.len() >= 12 && content.take(10) == file_prefix() && content.skip(
        content.len() - 2,
    ) == file_suffix() {
        unescape_of(content.subrange(10, content.len() - 2))
    } else {
        None
    }
}

/// Escape a text for standing between JSON quotes: quote and backslash
/// get a leading backslash, the rest stands as itself.
pub fn json_escape(s: &str) -> (r: String)
    ensures
        r@ == escape_of(s@),
{
    let chars = chars_vec(s);
    let mut out: Vec<char> = Vec::new();
    proof {
        assert(chars@.skip(0) =~= chars@);
        assert(out@ + escape_of(chars@) =~= escape_of(s@));
    }
    let mut i: usize = 0;
    while i < chars.len()
        invariant
            i <= chars.len(),
            chars@ == s@,
            out@ + escape_of(chars@.skip(i as int)) == escape_of(s@),
        decreases chars.len() - i,
    {
        let ghost out0 = out@;
        proof {
            assert(chars@.skip(i as int)[0] == chars@[i as int]);
            assert(chars@.skip(i as int).drop_first() =~= chars@.skip(i + 1));
        }
        let c = chars[i];
        if c == '"' || c == '\\' {
            out.push('\\');
            out.push(c);
        } else {
            out.push(c);
        }
        proof {
            assert(out@ =~= out0 + esc_char(chars@[i as int]));
            assert(out@ + escape_of(chars@.skip(i + 1)) =~= out0 + escape_of(
                chars@.skip(i as int),
            ));
        }
        i = i + 1;
    }
    proof {
        assert(chars@.skip(chars@.len() as int) =~= Seq::<char>::empty());
        assert(escape_of(Seq::<char>::empty()) =~= Seq::<char>::empty());
        assert(out@ + escape_of(chars@.skip(chars@.len() as int)) =~= out@);
    }
    string_from_chars(&out)
}

/// Render the cache file for a token: `{"token":"..."}` with quote and
/// backslash escaped.
pub fn render_token_file(token: &str) -> (r: String)
    ensures
        r@ == token_file_of(token@),
{
    let chars = chars_vec(token);
    let mut out: Vec<char> = Vec::new();
    out.push('{');
    out.push('"');
    out.push('t');
    out.push('o');
    out.push('k');
    out.push('e');
    out.push('n');
    out.push('"');
    out.push(':');
    out.push('"');
    proof {
        assert(out@ =~= file_prefix());
        assert(chars@.skip(0) =~= chars@);
        assert(out@ + escape_of(chars@) =~= file_prefix() + escape_of(token@));
    }
    let mut i: usize = 0;
    while i < chars.len()
        invariant
            i <= chars.len(),
            out@ + escape_of(chars@.skip(i as int)) == file_prefix() + escape_of(token@),
        decreases chars.len() - i,
    {
        let ghost out0 = out@;
        proof {
            assert(chars@.skip(i as int)[0] == chars@[i as int]);
            assert(chars@.skip(i as int).drop_first() =~= chars@.skip(i + 1));
        }
        let c = chars[i];
        if c == '"' || c == '\\' {
            out.push('\\');
            out.push(c);
        } else {
            out.push(c);
        }
        proof {
            assert(out@ =~= out0 + esc_char(chars@[i as int]));
            assert(out@ + escape_of(chars@.skip(i + 1)) =~= out0 + escape_of(
                chars@.skip(i as int),
            ));
        }
        i = i + 1;
    }
    proof {
        assert(chars@.skip(chars@.len() as int) =~= Seq::<char>::empty());
        assert(escape_of(Seq::<char>::empty()) =~= Seq::<char>::empty());
        assert(out@ + escape_of(chars@.skip(chars@.len() as int)) =~= out@);
    }
    out.push('"');
    out.push('}');
    proof {
        assert(out@ =~= token_file_of(token@));
    }
    string_from_chars(&out)
}

/// Read the token out of cache-file content. Total: content of any
/// other shape — truncated, reordered, or with a malformed escape —
/// yields `None` rather than a failure.
pub fn parse_token_file(content: &str) -> (r: Option<String>)
    ensures
        match r {
            Some(t) => token_of_file(content@) == Some(t@),
            None => token_of_file(content@) is None,
        },
{
    let chars = chars_vec(content);
    if chars.len() < 12 {
        return None;
    }
    let prefix = ['{', '"', 't', 'o', 'k', 'e', 'n', '"', ':', '"'];
    let mut k: usize = 0;
    while k < 10
        invariant
            k <= 10,
            chars@ == content@,
            chars@.len() >= 12,
            prefix@ =~= file_prefix(),
            forall|j: int| 0 <= j < k ==> chars@[j] == file_prefix()[j],
        decreases 10 - k,
    {
        if chars[k] != prefix[k] {
            proof {
                assert(chars@.take(10)[k as int] != file_prefix()[k as int]);
            }
            return None;
        }
        k = k + 1;
    }
    proof {
        assert(chars@.take(10) =~= file_prefix());
    }
    if !(chars[chars.len() - 2] == '"' && chars[chars.len() - 1] == '}') {
        proof {
            let tail = chars@.skip(chars@.len() - 2);
            assert(tail.len() == 2);
            assert(tail[0] == chars@[chars@.len() - 2]);
            assert(tail[1] == chars@[chars@.len() - 1]);
            assert(tail != file_suffix());
        }
        return None;
    }
    proof {
        let tail = chars@.skip(chars@.len() - 2);
        assert(tail =~= seq![chars@[chars@.len() - 2], chars@[chars@.len() - 1]]);
        assert(tail =~= file_suffix());
    }
    let ghost body = chars@.subrange(10, chars@.len() - 2);
    let mut out: Vec<char> = Vec::new();
    let mut i: usize = 10;
    let stop = chars.len() - 2;
    while i < stop
        invariant
            10 <= i <= stop,
            stop == chars@.len() - 2,
            chars@ == content@,
            chars@.len() >= 12,
            chars@.take(10) == file_prefix(),
            chars@.skip(chars@.len() - 2) == file_suffix(),
            body == chars@.subrange(10, chars@.len() - 2),
            unescape_of(body) == match unescape_of(chars@.subrange(i as int, stop as int)) {
                Some(rest) => Some(out@ + rest),
                None => None::<Seq<char>>,
            },
        decreases stop - i,
    {
        let ghost seg = chars@.subrange(i as int, stop as int);
        let c = chars[i];
        proof {
            assert(seg[0] == chars@[i as int]);
        }
        if c == '\\' {
            if i + 1 < stop {
                let d = chars[i + 1];
                proof {
                    assert(seg[1] == chars@[i + 1]);
                }
                if d == '"' || d == '\\' {
                    out.push(d);
                    proof {
                        assert(seg.skip(2) =~= chars@.subrange(i + 2, stop as int));
                    }
                    i = i + 2;
                } else {
                    return None;
                }
            } else {
                proof {
                    assert(seg.len() == 1);
                }
                return None;
            }
        } else if c == '"' {
            return None;
        } else {
            out.push(c);
            proof {
                assert(seg.drop_first() =~= chars@.subrange(i + 1, stop as int));
            }
            i = i + 1;
        }
    }
    proof {
        assert(chars@.subrange(stop as int, stop as int) =~= Seq::<char>::empty());
        assert(out@ + Seq::<char>::empty() =~= out@);
    }
    Some(string_from_chars(&out))
}

/// One payload character as it is written: backslash and the field
/// terminator `;` get a leading backslash, the rest stands as itself.
pub open spec fn esc_field_char(c: char) -> Seq<char> {
    if c == ';' || c == '\\' {
        seq!['\\', c]
    } else {
        seq![c]
    }
}

/// A field's escaped form.
pub open spec fn field_escape_of(s: Seq<char>) -> Seq<char>
    decreases s.len(),
{
    if s.len() == 0 {
        Seq::empty()
    } else {
        esc_field_char(s[0]) + field_escape_of(s.drop_first())
    }
}

/// The fields a payload carries: each field's characters up to its
/// unescaped `;` terminator, unescaped; `None` when an escape is
/// malformed or the payload ends inside a field.
pub open spec fn fields_of_payload(s: Seq<char>) -> Option<Seq<Seq<char>>>
    decreases s.len(),
{
    if s.len() == 0 {
        Some(Seq::empty())
    } else if s[0] == ';' {
        match fields_of_payload(s.drop_first()) {
            Some(fs) => Some(seq![Seq::<char>::empty()] + fs),
            None => None,
        }
    } else if s[0] == '\\' {
        if s.len() >= 2 && (s[1] == ';' || s[1] == '\\') {
            match fields_of_payload(s.skip(2)) {
                Some(fs) => if fs.len() > 0 {
                    Some(fs.update(0, seq![s[1]] + fs[0]))
                } else {
                    None
                },
                None => None,
            }
        } else {
            None
        }
    } else {
        match fields_of_payload(s.drop_first()) {
            Some(fs) => if fs.len() > 0 {
                Some(fs.update(0, seq![s[0]] + fs[0]))
            } else {
                None
            },
            None => None,
        }
    }
}

/// A cookie's character-level view: name, value, domain, path, and the
/// optional expiry.
pub open spec fn cookie_view(c: Cookie) -> (Seq<char>, Seq<char>, Seq<char>, Seq<char>, Option<
    Seq<char>,
>) {
    (c.name@, c.value@, c.domain@, c.path@, opt_text(c.expires))
}

/// The character view of an optional text.
pub open spec fn opt_text(o: Option<String>) -> Option<Seq<char>> {
    match o {
        Some(s) => Some(s@),
        None => None,
    }
}

/// The expiry as its own field: present marked `1`, absent a bare `0`.
pub open spec fn expires_field(e: Option<Seq<char>>) -> Seq<char> {
    match e {
        Some(x) => seq!['1'] + x,
        None => seq!['0'],
    }
}

/// The five fields a cookie is written as, in order.
pub open spec fn fields_of_jar(jar: Seq<Cookie>) -> Seq<Seq<char>>
    decreases jar.len(),
{
    if jar.len() == 0 {
        Seq::empty()
    } else {
        let c = jar[0];
        seq![c.name@, c.value@, c.domain@, c.path@, expires_field(opt_text(c.expires))]
            + fields_of_jar(jar.drop_first())
    }
}

/// The payload written for a sequence of fields: each field escaped and
/// closed with `;`.
pub open spec fn payload_of_fields(fields: Seq<Seq<char>>) -> Seq<char>
    decreases fields.len(),
{
    if fields.len() == 0 {
        Seq::empty()
    } else {
        field_escape_of(fields[0]) + seq![';'] + payload_of_fields(fields.drop_first())
    }
}

/// The whole payload written for a cookie jar.
pub open spec fn payload_of_jar(jar: Seq<Cookie>) -> Seq<char> {
    payload_of_fields(fields_of_jar(jar))
}

/// The cookie views a sequence of fields carries: groups of five, the
/// fifth field naming the expiry; `None` when the count is off or an
/// expiry field is marked with neither `0` nor `1`.
pub open spec fn cookies_of_fields(fields: Seq<Seq<char>>) -> Option<
    Seq<(Seq<char>, Seq<char>, Seq<char>, Seq<char>, Option<Seq<char>>)>,
>
    decreases fields.len(),
{
    if fields.len() == 0 {
        Some(Seq::empty())
    } else if fields.len() < 5 {
        None
    } else {
        let e = fields[4];
        let expires: Option<Option<Seq<char>>> = if e.len() >= 1 && e[0] == '1' {
            Some(Some(e.drop_first()))
        } else if e == seq!['0'] {
            Some(None)
        } else {
            None
        };
        match expires {
            None => None,
            Some(exp) => match cookies_of_fields(fields.skip(5)) {
                Some(rest) => Some(seq![(fields[0], fields[1], fields[2], fields[3], exp)] + rest),
                None => None,
            },
        }
    }
}

/// The cookie views a payload carries, end to end.
pub open spec fn jar_of_payload(s: Seq<char>) -> Option<
    Seq<(Seq<char>, Seq<char>, Seq<char>, Seq<char>, Option<Seq<char>>)>,
> {
    match fields_of_payload(s) {
        Some(fields) => cookies_of_fields(fields),
        None => None,
    }
}

/// The views of a jar's cookies, in order.
pub open spec fn views_of_jar(jar: Seq<Cookie>) -> Seq<
    (Seq<char>, Seq<char>, Seq<char>, Seq<char>, Option<Seq<char>>),
> {
    Seq::new(jar.len(), |i: int| cookie_view(jar[i]))
}

/// Append one field to a payload under construction: its characters
/// escaped, then the `;` terminator.
fn push_field(out: &mut Vec<char>, field: &str)
    ensures
        final(out)@ == old(out)@ + field_escape_of(field@) + seq![';'],
{
    let chars = chars_vec(field);
    let ghost out0 = out@;
    let mut i: usize = 0;
    proof {
        assert(chars@.skip(0) =~= chars@);
        assert(out@ + field_escape_of(chars@) =~= out0 + field_escape_of(field@));
    }
    while i < chars.len()
        invariant
            i <= chars.len(),
            chars@ == field@,
            out@ + field_escape_of(chars@.skip(i as int)) == out0 + field_escape_of(field@),
        decreases chars.len() - i,
    {
        let ghost o = out@;
        proof {
            assert(chars@.skip(i as int)[0] == chars@[i as int]);
            assert(chars@.skip(i as int).drop_first() =~= chars@.skip(i + 1));
        }
        let c = chars[i];
        if c == ';' || c == '\\' {
            out.push('\\');
            out.push(c);
        } else {
            out.push(c);
        }
        proof {
            assert(out@ =~= o + esc_field_char(chars@[i as int]));
            assert(out@ + field_escape_of(chars@.skip(i + 1)) =~= o + field_escape_of(
                chars@.skip(i as int),
            ));
        }
        i = i + 1;
    }
    proof {
        assert(chars@.skip(chars@.len() as int) =~= Seq::<char>::empty());
        assert(field_escape_of(Seq::<char>::empty()) =~= Seq::<char>::empty());
        assert(out@ + field_escape_of(chars@.skip(chars@.len() as int)) =~= out@);
    }
    out.push(';');
}

/// Writing fields one after another writes their payloads one after
/// another.
proof fn lemma_payload_of_fields_concat(a: Seq<Seq<char>>, b: Seq<Seq<char>>)
    ensures
        payload_of_fields(a + b) == payload_of_fields(a) + payload_of_fields(b),
    decreases a.len(),
{
    if a.len() == 0 {
        assert(a + b =~= b);
        assert(payload_of_fields(a) =~= Seq::<char>::empty());
        assert(payload_of_fields(a) + payload_of_fields(b) =~= payload_of_fields(b));
    } else {
        assert((a + b).drop_first() =~= a.drop_first() + b);
        lemma_payload_of_fields_concat(a.drop_first(), b);
        assert((a + b)[0] == a[0]);
        assert(payload_of_fields(a + b) =~= payload_of_fields(a) + payload_of_fields(b));
    }
}

/// How one cookie's five fields render, written out field by field.
proof fn lemma_cookie_payload(c: Cookie)
    ensures
        payload_of_fields(
            seq![c.name@, c.value@, c.domain@, c.path@, expires_field(opt_text(c.expires))],
        ) == field_escape_of(c.name@) + seq![';'] + field_escape_of(c.value@) + seq![';']
            + field_escape_of(c.domain@) + seq![';'] + field_escape_of(c.path@) + seq![';']
            + field_escape_of(expires_field(opt_text(c.expires))) + seq![';'],
{
    let exp = expires_field(opt_text(c.expires));
    let own = seq![c.name@, c.value@, c.domain@, c.path@, exp];
    let own1 = seq![c.value@, c.domain@, c.path@, exp];
    let own2 = seq![c.domain@, c.path@, exp];
    let own3 = seq![c.path@, exp];
    let own4 = seq![exp];
    assert(own.drop_first() =~= own1);
    assert(own1.drop_first() =~= own2);
    assert(own2.drop_first() =~= own3);
    assert(own3.drop_first() =~= own4);
    assert(own4.drop_first() =~= Seq::<Seq<char>>::empty());
    assert(payload_of_fields(Seq::<Seq<char>>::empty()) =~= Seq::<char>::empty());
    assert(payload_of_fields(own4) =~= field_escape_of(exp) + seq![';']);
    assert(payload_of_fields(own3) =~= field_escape_of(c.path@) + seq![';'] + field_escape_of(exp)
        + seq![';']);
    assert(payload_of_fields(own2) =~= field_escape_of(c.domain@) + seq![';'] + field_escape_of(
        c.path@,
    ) + seq![';'] + field_escape_of(exp) + seq![';']);
    assert(payload_of_fields(own1) =~= field_escape_of(c.value@) + seq![';'] + field_escape_of(
        c.domain@,
    ) + seq![';'] + field_escape_of(c.path@) + seq![';'] + field_escape_of(exp) + seq![';']);
    assert(payload_of_fields(own) =~= field_escape_of(c.name@) + seq![';'] + field_escape_of(
        c.value@,
    ) + seq![';'] + field_escape_of(c.domain@) + seq![';'] + field_escape_of(c.path@) + seq![';']
        + field_escape_of(exp) + seq![';']);
}

/// Render a cookie jar as the cache token's payload: five fields per
/// cookie — name, value, domain, path, and the marked expiry — each
/// escaped and closed with `;`.
#[verifier::rlimit(100)]
pub fn render_jar_payload(jar: &Vec<Cookie>) -> (r: String)
    ensures
        r@ == payload_of_jar(jar@),
{
    let mut out: Vec<char> = Vec::new();
    let mut i: usize = 0;
    proof {
        assert(jar@.skip(0) =~= jar@);
        assert(out@ + payload_of_fields(fields_of_jar(jar@)) =~= payload_of_jar(jar@));
    }
    while i < jar.len()
        invariant
            i <= jar.len(),
            out@ + payload_of_fields(fields_of_jar(jar@.skip(i as int))) == payload_of_jar(jar@),
        decreases jar.len() - i,
    {
        let ghost o = out@;
        let ghost c = jar@[i as int];
        let ghost own = seq![c.name@, c.value@, c.domain@, c.path@, expires_field(
            opt_text(c.expires),
        )];
        proof {
            assert(jar@.skip(i as int)[0] == c);
            assert(jar@.skip(i as int).drop_first() =~= jar@.skip(i + 1));
            assert(fields_of_jar(jar@.skip(i as int)) == own + fields_of_jar(jar@.skip(i + 1)));
            lemma_payload_of_fields_concat(own, fields_of_jar(jar@.skip(i + 1)));
        }
        let cookie = &jar[i];
        push_field(&mut out, cookie.name.as_str());
        push_field(&mut out, cookie.value.as_str());
        push_field(&mut out, cookie.domain.as_str());
        push_field(&mut out, cookie.path.as_str());
        let marked = match &cookie.expires {
            Some(e) => {
                let mut m = String::from_str("1");
                m.append(e.as_str());
                proof {
                    reveal_strlit("1");
                    assert(m@ =~= expires_field(opt_text(c.expires)));
                }
                m
            },
            None => {
                let m = String::from_str("0");
                proof {
                    reveal_strlit("0");
                    assert(m@ =~= expires_field(opt_text(c.expires)));
                }
                m
            },
        };
        push_field(&mut out, marked.as_str());
        proof {
            lemma_cookie_payload(c);
            assert(out@ =~= o + payload_of_fields(own));
            assert(out@ + payload_of_fields(fields_of_jar(jar@.skip(i + 1))) =~= o
                + payload_of_fields(fields_of_jar(jar@.skip(i as int))));
        }
        i = i + 1;
    }
    proof {
        assert(jar@.skip(jar@.len() as int) =~= Seq::<Cookie>::empty());
        assert(fields_of_jar(Seq::<Cookie>::empty()) =~= Seq::<Seq<char>>::empty());
        assert(payload_of_fields(Seq::<Seq<char>>::empty()) =~= Seq::<char>::empty());
        assert(out@ + Seq::<char>::empty() =~= out@);
    }
    string_from_chars(&out)
}

/// Split a payload into its fields, undoing the escapes: `None` on a
/// malformed escape or a payload that ends inside a field.
#[verifier::rlimit(50)]
fn split_fields(s: &str) -> (r: Option<Vec<String>>)
    ensures
        match r {
            Some(fields) => fields_of_payload(s@) == Some(fields.deep_view()),
            None => fields_of_payload(s@) is None,
        },
{
    let chars = chars_vec(s);
    let mut done: Vec<String> = Vec::new();
    let mut cur: Vec<char> = Vec::new();
    let mut i: usize = 0;
    proof {
        assert(chars@.skip(0) =~= chars@);
        if fields_of_payload(chars@) is Some {
            let fs = fields_of_payload(chars@)->0;
            if fs.len() > 0 {
                assert(fs.update(0, cur@ + fs[0]) =~= fs);
                assert(done.deep_view() + fs =~= fs);
            } else {
                assert(done.deep_view() =~= fs);
            }
        }
    }
    while i < chars.len()
        invariant
            i <= chars.len(),
            chars@ == s@,
            match fields_of_payload(chars@.skip(i as int)) {
                Some(fs) => fields_of_payload(chars@) == (if fs.len() > 0 {
                    Some(done.deep_view() + fs.update(0, cur@ + fs[0]))
                } else if cur@.len() == 0 {
                    Some(done.deep_view())
                } else {
                    None::<Seq<Seq<char>>>
                }),
                None => fields_of_payload(chars@) is None,
            },
        decreases chars.len() - i,
    {
        let ghost seg = chars@.skip(i as int);
        let ghost done0 = done.deep_view();
        let ghost cur0 = cur@;
        proof {
            assert(seg[0] == chars@[i as int]);
        }
        let c = chars[i];
        if c == ';' {
            let field = string_from_chars(&cur);
            done.push(field);
            cur = Vec::new();
            proof {
                assert(seg.drop_first() =~= chars@.skip(i + 1));
                assert(done.deep_view() =~= done0.push(cur0));
                if fields_of_payload(chars@.skip(i + 1)) is Some {
                    let fs = fields_of_payload(chars@.skip(i + 1))->0;
                    assert(fields_of_payload(seg) == Some(seq![Seq::<char>::empty()] + fs));
                    let whole = seq![Seq::<char>::empty()] + fs;
                    assert(whole.len() > 0);
                    assert(whole[0] =~= Seq::<char>::empty());
                    assert(whole.update(0, cur0 + whole[0]) =~= seq![cur0] + fs);
                    assert(done0 + (seq![cur0] + fs) =~= done.deep_view() + fs);
                    if fs.len() > 0 {
                        assert(fs.update(0, Seq::<char>::empty() + fs[0]) =~= fs);
                        assert(done0 + (seq![cur0] + fs) =~= done.deep_view() + fs.update(
                            0,
                            cur@ + fs[0],
                        ));
                    }
                }
            }
            i = i + 1;
        } else if c == '\\' {
            if i + 1 < chars.len() {
                let d = chars[i + 1];
                proof {
                    assert(seg[1] == chars@[i + 1]);
                }
                if d == ';' || d == '\\' {
                    cur.push(d);
                    proof {
                        assert(seg.skip(2) =~= chars@.skip(i + 2));
                        if fields_of_payload(chars@.skip(i + 2)) is Some {
                            let fs = fields_of_payload(chars@.skip(i + 2))->0;
                            if fs.len() > 0 {
                                let stepped = fs.update(0, seq![d] + fs[0]);
                                assert(fields_of_payload(seg) == Some(stepped));
                                assert(stepped.len() > 0);
                                assert(stepped[0] == seq![d] + fs[0]);
                                assert(stepped.update(0, cur0 + stepped[0]) =~~= fs.update(
                                    0,
                                    cur@ + fs[0],
                                ));
                            } else {
                                assert(fields_of_payload(seg) is None);
                                assert(cur@.len() > 0);
                            }
                        }
                    }
                    i = i + 2;
                } else {
                    proof {
                        assert(fields_of_payload(seg) is None);
                    }
                    return None;
                }
            } else {
                proof {
                    assert(seg.len() == 1);
                    assert(fields_of_payload(seg) is None);
                }
                return None;
            }
        } else {
            cur.push(c);
            proof {
                assert(seg.drop_first() =~= chars@.skip(i + 1));
                if fields_of_payload(chars@.skip(i + 1)) is Some {
                    let fs = fields_of_payload(chars@.skip(i + 1))->0;
                    if fs.len() > 0 {
                        let stepped = fs.update(0, seq![c] + fs[0]);
                        assert(fields_of_payload(seg) == Some(stepped));
                        assert(stepped.len() > 0);
                        assert(stepped[0] == seq![c] + fs[0]);
                        assert(stepped.update(0, cur0 + stepped[0]) =~~= fs.update(0, cur@ + fs[0]));
                    } else {
                        assert(fields_of_payload(seg) is None);
                        assert(cur@.len() > 0);
                    }
                }
            }
            i = i + 1;
        }
    }
    proof {
        assert(chars@.skip(chars@.len() as int) =~= Seq::<char>::empty());
        assert(fields_of_payload(Seq::<char>::empty()) == Some(Seq::<Seq<char>>::empty()));
    }
    if cur.len() == 0 {
        Some(done)
    } else {
        None
    }
}

/// Group split fields back into cookies, five fields each: `None` on a
/// count that is not a multiple of five or an expiry field marked with
/// neither `0` nor `1`.
fn group_cookies(fields: &Vec<String>) -> (r: Option<Vec<Cookie>>)
    ensures
        match r {
            Some(jar) => cookies_of_fields(fields.deep_view()) == Some(views_of_jar(jar@)),
            None => cookies_of_fields(fields.deep_view()) is None,
        },
{
    let ghost fv = fields.deep_view();
    let mut jar: Vec<Cookie> = Vec::new();
    let mut k: usize = 0;
    proof {
        assert(fv.skip(0) =~= fv);
        assert(views_of_jar(jar@) =~= Seq::empty());
        if cookies_of_fields(fv) is Some {
            let rest = cookies_of_fields(fv)->0;
            assert(views_of_jar(jar@) + rest =~= rest);
        }
    }
    while fields.len() - k >= 5
        invariant
            k <= fields.len(),
            k % 5 == 0,
            fv == fields.deep_view(),
            fv.len() == fields@.len(),
            forall|j: int| 0 <= j < fv.len() ==> #[trigger] fv[j] == fields@[j]@,
            match cookies_of_fields(fv.skip(k as int)) {
                Some(rest) => cookies_of_fields(fv) == Some(views_of_jar(jar@) + rest),
                None => cookies_of_fields(fv) is None,
            },
        decreases fields.len() - k,
    {
        let ghost seg = fv.skip(k as int);
        let ghost jar0 = jar@;
        proof {
            assert(seg.len() >= 5);
            assert(seg[0] == fv[k as int]);
            assert(seg[1] == fv[k + 1]);
            assert(seg[2] == fv[k + 2]);
            assert(seg[3] == fv[k + 3]);
            assert(seg[4] == fv[k + 4]);
            assert(seg.skip(5) =~= fv.skip(k + 5));
        }
        let marked = &fields[k + 4];
        let expires: Option<String> = if marked.unicode_len() >= 1 && marked.as_str().get_char(0)
            == '1' {
            let rest = marked.as_str().substring_char(1, marked.unicode_len());
            proof {
                assert(rest@ =~= fv[k + 4].drop_first());
            }
            Some(String::from_str(rest))
        } else if *marked == String::from_str("0") {
            proof {
                reveal_strlit("0");
                assert(fv[k + 4] =~= seq!['0']);
            }
            None
        } else {
            proof {
                reveal_strlit("0");
                if seg[4] == seq!['0'] {
                    assert(marked@ =~= "0"@);
                }
                assert(cookies_of_fields(seg) is None);
            }
            return None;
        };
        let cookie = Cookie {
            name: fields[k].clone(),
            value: fields[k + 1].clone(),
            domain: fields[k + 2].clone(),
            path: fields[k + 3].clone(),
            expires,
        };
        proof {
            assert(cookie_view(cookie) == (seg[0], seg[1], seg[2], seg[3], (
            if seg[4].len() >= 1 && seg[4][0] == '1' {
                Some(seg[4].drop_first())
            } else {
                None
            })));
        }
        jar.push(cookie);
        proof {
            assert(views_of_jar(jar@) =~= views_of_jar(jar0).push(cookie_view(cookie)));
            if cookies_of_fields(fv.skip(k + 5)) is Some {
                let rest = cookies_of_fields(fv.skip(k + 5))->0;
                assert(cookies_of_fields(seg) == Some(seq![cookie_view(cookie)] + rest));
                assert(views_of_jar(jar0) + (seq![cookie_view(cookie)] + rest) =~= views_of_jar(
                    jar@,
                ) + rest);
            }
        }
        k = k + 5;
    }
    if k == fields.len() {
        proof {
            assert(fv.skip(k as int) =~= Seq::<Seq<char>>::empty());
            assert(cookies_of_fields(Seq::<Seq<char>>::empty()) == Some(
                Seq::<(Seq<char>, Seq<char>, Seq<char>, Seq<char>, Option<Seq<char>>)>::empty(),
            ));
            assert(views_of_jar(jar@) + Seq::<
                (Seq<char>, Seq<char>, Seq<char>, Seq<char>, Option<Seq<char>>),
            >::empty() =~= views_of_jar(jar@));
        }
        Some(jar)
    } else {
        proof {
            let seg = fv.skip(k as int);
            assert(0 < seg.len() < 5);
            assert(cookies_of_fields(seg) is None);
        }
        None
    }
}

/// Render the whole cache file for a session record.
pub fn session_file_content(record: &SessionRecord) -> (r: String)
    ensures
        r@ == token_file_of(payload_of_jar(record.cookies@)),
{
    let payload = render_jar_payload(&record.cookies);
    render_token_file(payload.as_str())
}

/// Read a session record out of cache-file content. Total, and absent
/// rather than failing on anything out of shape: a broken envelope, a
/// malformed field or expiry, a field count that is no whole number of
/// cookies, or an empty jar.
pub fn session_from_file(content: &str) -> (r: Option<SessionRecord>)
    ensures
        match r {
            Some(rec) => (token_of_file(content@) matches Some(p) && jar_of_payload(p) == Some(
                views_of_jar(rec.cookies@),
            )) && rec.wf(),
            None => token_of_file(content@) is None || jar_of_payload(
                token_of_file(content@)->0,
            ) is None || jar_of_payload(token_of_file(content@)->0) == Some(
                Seq::<(Seq<char>, Seq<char>, Seq<char>, Seq<char>, Option<Seq<char>>)>::empty(),
            ),
        },
{
    match parse_token_file(content) {
        None => None,
        Some(token) => match split_fields(token.as_str()) {
            None => None,
            Some(fields) => match group_cookies(&fields) {
                None => None,
                Some(jar) => {
                    proof {
                        if jar@.len() == 0 {
                            assert(views_of_jar(jar@) =~= Seq::<
                                (Seq<char>, Seq<char>, Seq<char>, Seq<char>, Option<Seq<char>>),
                            >::empty());
                        }
                    }
                    SessionRecord::from_cookies(jar)
                },
            },
        },
    }
}

/// Reading a written field takes back exactly that field, whatever
/// payload follows its terminator.
proof fn lemma_field_round(f: Seq<char>, rest: Seq<char>)
    ensures
        fields_of_payload(field_escape_of(f) + seq![';'] + rest) == match fields_of_payload(rest) {
            Some(fs) => Some(seq![f] + fs),
            None => None::<Seq<Seq<char>>>,
        },
    decreases f.len(),
{
    let s = field_escape_of(f) + seq![';'] + rest;
    if f.len() == 0 {
        assert(s =~= seq![';'] + rest);
        assert(s[0] == ';');
        assert(s.drop_first() =~= rest);
        if fields_of_payload(rest) is Some {
            let fs = fields_of_payload(rest)->0;
            assert(fields_of_payload(s) == Some(seq![Seq::<char>::empty()] + fs));
            assert(f =~= Seq::<char>::empty());
            assert(seq![Seq::<char>::empty()] + fs =~= seq![f] + fs);
        }
    } else {
        lemma_field_round(f.drop_first(), rest);
        let tail = field_escape_of(f.drop_first()) + seq![';'] + rest;
        if f[0] == ';' || f[0] == '\\' {
            assert(field_escape_of(f) =~= seq!['\\', f[0]] + field_escape_of(f.drop_first()));
            assert(s[0] == '\\');
            assert(s[1] == f[0]);
            assert(s.len() >= 2);
            assert(s.skip(2) =~= tail);
            if fields_of_payload(rest) is Some {
                let fs = fields_of_payload(rest)->0;
                assert(fields_of_payload(tail) == Some(seq![f.drop_first()] + fs));
                let inner = seq![f.drop_first()] + fs;
                assert(inner.len() > 0);
                assert(inner[0] == f.drop_first());
                assert(fields_of_payload(s) == Some(inner.update(0, seq![f[0]] + inner[0])));
                assert(seq![f[0]] + f.drop_first() =~= f);
                assert(inner.update(0, seq![f[0]] + inner[0]) =~~= seq![f] + fs);
            }
        } else {
            assert(field_escape_of(f) =~= seq![f[0]] + field_escape_of(f.drop_first()));
            assert(s[0] == f[0]);
            assert(s[0] != ';' && s[0] != '\\');
            assert(s.drop_first() =~= tail);
            if fields_of_payload(rest) is Some {
                let fs = fields_of_payload(rest)->0;
                assert(fields_of_payload(tail) == Some(seq![f.drop_first()] + fs));
                let inner = seq![f.drop_first()] + fs;
                assert(inner.len() > 0);
                assert(inner[0] == f.drop_first());
                assert(fields_of_payload(s) == Some(inner.update(0, seq![f[0]] + inner[0])));
                assert(seq![f[0]] + f.drop_first() =~= f);
                assert(inner.update(0, seq![f[0]] + inner[0]) =~~= seq![f] + fs);
            }
        }
    }
}

/// Reading a written sequence of fields takes back exactly those fields.
proof fn lemma_fields_round(fields: Seq<Seq<char>>)
    ensures
        fields_of_payload(payload_of_fields(fields)) == Some(fields),
    decreases fields.len(),
{
    if fields.len() == 0 {
        assert(payload_of_fields(fields) =~= Seq::<char>::empty());
    } else {
        lemma_fields_round(fields.drop_first());
        lemma_field_round(fields[0], payload_of_fields(fields.drop_first()));
        assert(seq![fields[0]] + fields.drop_first() =~= fields);
    }
}

/// Grouping the fields a jar writes takes back exactly that jar's views.
proof fn lemma_group_round(jar: Seq<Cookie>)
    ensures
        cookies_of_fields(fields_of_jar(jar)) == Some(views_of_jar(jar)),
    decreases jar.len(),
{
    if jar.len() == 0 {
        assert(fields_of_jar(jar) =~= Seq::<Seq<char>>::empty());
        assert(views_of_jar(jar) =~= Seq::<
            (Seq<char>, Seq<char>, Seq<char>, Seq<char>, Option<Seq<char>>),
        >::empty());
    } else {
        lemma_group_round(jar.drop_first());
        let c = jar[0];
        let exp = expires_field(opt_text(c.expires));
        let own = seq![c.name@, c.value@, c.domain@, c.path@, exp];
        let all = fields_of_jar(jar);
        assert(all =~= own + fields_of_jar(jar.drop_first()));
        assert(all.len() >= 5);
        assert(all[0] == c.name@);
        assert(all[1] == c.value@);
        assert(all[2] == c.domain@);
        assert(all[3] == c.path@);
        assert(all[4] == exp);
        assert(all.skip(5) =~= fields_of_jar(jar.drop_first()));
        match opt_text(c.expires) {
            Some(x) => {
                assert(exp[0] == '1');
                assert(exp.drop_first() =~= x);
            },
            None => {
                assert(exp =~= seq!['0']);
                assert(exp[0] == '0');
            },
        }
        assert(seq![cookie_view(c)] + views_of_jar(jar.drop_first()) =~= views_of_jar(jar));
    }
}

/// Law: the session payload codec round-trips. The payload written for
/// any cookie jar reads back as exactly that jar — no cookie and no
/// field is lost, reordered, or altered between a login's write and the
/// next cache read.
pub proof fn lemma_session_payload_round_trip(jar: Seq<Cookie>)
    ensures
        jar_of_payload(payload_of_jar(jar)) == Some(views_of_jar(jar)),
{
    lemma_fields_round(fields_of_jar(jar));
    lemma_group_round(jar);
}

/// Law: the whole cache file round-trips. The file rendered for a
/// session record carries its payload back unchanged through the
/// envelope, and that payload reads back as exactly the record's
/// cookies.
pub proof fn lemma_session_file_round_trip(jar: Seq<Cookie>)
    ensures
        token_of_file(token_file_of(payload_of_jar(jar))) == Some(payload_of_jar(jar)),
        jar_of_payload(payload_of_jar(jar)) == Some(views_of_jar(jar)),
{
    lemma_token_file_round_trip(payload_of_jar(jar));
    lemma_session_payload_round_trip(jar);
}

/// Escaping then reading back returns every token unchanged.
proof fn lemma_unescape_escape(token: Seq<char>)
    ensures
        unescape_of(escape_of(token)) == Some(token),
    decreases token.len(),
{
    if token.len() == 0 {
    } else {
        lemma_unescape_escape(token.drop_first());
        let e = escape_of(token);
        if token[0] == '"' || token[0] == '\\' {
            assert(e =~= seq!['\\', token[0]] + escape_of(token.drop_first()));
            assert(e.skip(2) =~= escape_of(token.drop_first()));
            assert(seq![token[0]] + token.drop_first() =~= token);
        } else {
            assert(e =~= seq![token[0]] + escape_of(token.drop_first()));
            assert(e.drop_first() =~= escape_of(token.drop_first()));
            assert(e[0] != '\\' && e[0] != '"');
            assert(seq![token[0]] + token.drop_first() =~= token);
        }
    }
}

/// Law: the cache-file codec round-trips. A file rendered for any token
/// reads back as exactly that token — the record a login persists is
/// the record the next cache read sees.
pub proof fn lemma_token_file_round_trip(token: Seq<char>)
    ensures
        token_of_file(token_file_of(token)) == Some(token),
{
    let f = token_file_of(token);
    assert(escape_of(token).len() >= 0);
    assert(f.len() >= 12) by {
        lemma_escape_len(token);
    }
    assert(f.take(10) =~= file_prefix());
    assert(f.skip(f.len() - 2) =~= file_suffix());
    assert(f.subrange(10, f.len() - 2) =~= escape_of(token));
    lemma_unescape_escape(token);
}

/// The escaped form is at least as long as the token.
proof fn lemma_escape_len(token: Seq<char>)
    ensures
        escape_of(token).len() >= token.len(),
    decreases token.len(),
{
    if token.len() > 0 {
        lemma_escape_len(token.drop_first());
    }
}

} // verus!
