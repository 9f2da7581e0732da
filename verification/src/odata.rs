//! The OData "simulate order" protocol: a linear two-round-trip state
//! machine — fetch an anti-forgery token, post a simulate document, read
//! the backorder field out of the reply — with the post-processing that
//! turns the raw field into the answer string. Every failure along the
//! way becomes a descriptive result string, never a panic.

use vstd::prelude::*;
use crate::session::{escape_of, json_escape};

verus! {

/// The raw backorder field a simulate reply carries: for a well-formed
/// JSON reply, the compact rendering of the value at `d /
/// SOSimulateToItem / results / 0 / AvailBackorder` (JSON null, and so
/// the text `null`, where the path is absent); `None` when the reply is
/// not JSON. A pure function of the reply text.
pub uninterp spec fn backorder_raw_of(s: Seq<char>) -> Option<Seq<char>>;

/// Read the raw backorder field out of a simulate reply.
///
/// Relies on `serde_json::from_str` (`Err`, never a panic, on malformed
/// text), `serde_json::Value`'s `Index` (JSON null when a step of the
/// path is absent), and `Value`'s `Display` (the compact JSON text, a
/// string value keeping its quotes and escapes): the result depends on
/// the reply text alone.
#[verifier::external_body]
fn backorder_raw(s: &str) -> (r: Option<String>)
    ensures
        r.deep_view() == backorder_raw_of(s@),
{
    serde_json::from_str::<serde_json::Value>(s)
        .ok()
        .map(|doc| doc["d"]["SOSimulateToItem"]["results"][0]["AvailBackorder"].to_string())
}

/// Today's local date rendered as `%Y%m%d`.
///
/// Relies on chrono's `Local::now` and `DateTime::format`; the result
/// depends on the clock, so nothing is claimed of it.
#[verifier::external_body]
fn local_today_compact() -> String {
    chrono::Local::now().format("%Y%m%d").to_string()
}

/// The sequence with every non-overlapping occurrence of the two
/// characters `a` then `b` removed, scanning left to right, as
/// `str::replace` leaves it.
pub open spec fn remove_pair(s: Seq<char>, a: char, b: char) -> Seq<char>
    decreases s.len(),
{
    if s.len() < 2 {
        s
    } else if s[0] == a && s[1] == b {
        remove_pair(s.skip(2), a, b)
    } else {
        seq![s[0]] + remove_pair(s.drop_first(), a, b)
    }
}

/// Remove every non-overlapping occurrence of `a` then `b`.
fn remove_pair_exec(v: &Vec<char>, a: char, b: char) -> (r: Vec<char>)
    ensures
        r@ == remove_pair(v@, a, b),
{
    let mut r: Vec<char> = Vec::new();
    let mut i: usize = 0;
    proof {
        assert(v@.skip(0) =~= v@);
        assert(r@ + remove_pair(v@, a, b) =~= remove_pair(v@, a, b));
    }
    while i < v.len()
        invariant
            i <= v.len(),
            r@ + remove_pair(v@.skip(i as int), a, b) == remove_pair(v@, a, b),
        decreases v.len() - i,
    {
        let ghost r0 = r@;
        let ghost seg = v@.skip(i as int);
        proof {
            assert(seg[0] == v@[i as int]);
        }
        if i + 1 < v.len() && v[i] == a && v[i + 1] == b {
            proof {
                assert(seg[1] == v@[i + 1]);
                assert(seg.skip(2) =~= v@.skip(i + 2));
            }
            i = i + 2;
        } else {
            r.push(v[i]);
            proof {
                if seg.len() >= 2 {
                    assert(seg[1] == v@[i + 1]);
                }
                assert(seg.drop_first() =~= v@.skip(i + 1));
                assert(r@ =~= r0 + seq![v@[i as int]]);
                assert(r@ + remove_pair(v@.skip(i + 1), a, b) =~= r0 + (seq![seg[0]]
                    + remove_pair(seg.drop_first(), a, b)));
            }
            i = i + 1;
        }
    }
    proof {
        assert(v@.skip(v@.len() as int) =~= Seq::<char>::empty());
        assert(r@ + remove_pair(Seq::<char>::empty(), a, b) =~= r@);
    }
    r
}

/// How `Seq::filter` grows when one element is pushed.
proof fn lemma_filter_push<A>(s: Seq<A>, pred: spec_fn(A) -> bool, x: A)
    ensures
        s.push(x).filter(pred) == if pred(x) {
            s.filter(pred).push(x)
        } else {
            s.filter(pred)
        },
{
    reveal(Seq::filter);
    assert(s.push(x).drop_last() =~= s);
    assert(s.push(x).last() == x);
}

/// Remove every occurrence of one character.
fn remove_char_exec(v: &Vec<char>, c: char) -> (r: Vec<char>)
    ensures
        r@ == v@.filter(|x: char| x != c),
{
    let mut r: Vec<char> = Vec::new();
    let mut i: usize = 0;
    proof {
        reveal(Seq::filter);
        assert(v@.take(0) =~= Seq::<char>::empty());
    }
    while i < v.len()
        invariant
            i <= v.len(),
            r@ == v@.take(i as int).filter(|x: char| x != c),
        decreases v.len() - i,
    {
        proof {
            assert(v@.take(i + 1) =~= v@.take(i as int).push(v@[i as int]));
            lemma_filter_push(v@.take(i as int), |x: char| x != c, v@[i as int]);
        }
        if v[i] != c {
            r.push(v[i]);
        }
        i = i + 1;
    }
    proof {
        assert(v@.take(v@.len() as int) =~= v@);
    }
    r
}

/// The cleaned backorder field: escaped and literal newline and
/// carriage-return sequences removed, then every space, in the order the
/// replacements run.
pub open spec fn cleaned_of(s: Seq<char>) -> Seq<char> {
    let s1 = remove_pair(s, '\\', 'n');
    let s2 = s1.filter(|x: char| x != '\n');
    let s3 = remove_pair(s2, '\\', 'r');
    let s4 = s3.filter(|x: char| x != '\r');
    s4.filter(|x: char| x != ' ')
}

/// The answer for a raw backorder field: its cleaned form, or the fixed
/// not-found sentinel when fewer than ten characters survive cleaning.
pub open spec fn odata_result_of(raw: Seq<char>) -> Seq<char> {
    if cleaned_of(raw).len() < 10 {
        "Model availablility not found."@
    } else {
        cleaned_of(raw)
    }
}

/// Normalize a raw backorder field into the answer string: strip escaped
/// and literal line breaks and all spaces; anything shorter than ten
/// characters after cleaning counts as not found and yields the sentinel.
pub fn normalize_availability(raw: &str) -> (r: String)
    ensures
        r@ == odata_result_of(raw@),
{
    let chars = crate::strings::chars_vec(raw);
    let s1 = remove_pair_exec(&chars, '\\', 'n');
    let s2 = remove_char_exec(&s1, '\n');
    let s3 = remove_pair_exec(&s2, '\\', 'r');
    let s4 = remove_char_exec(&s3, '\r');
    let s5 = remove_char_exec(&s4, ' ');
    if s5.len() < 10 {
        String::from_str("Model availablility not found.")
    } else {
        crate::strings::string_from_chars(&s5)
    }
}

/// The answer for a simulate reply: the normalized backorder field it
/// carries, or the fixed parse-failure message when the reply is not
/// JSON.
pub open spec fn odata_answer_of(s: Seq<char>) -> Seq<char> {
    match backorder_raw_of(s) {
        Some(raw) => odata_result_of(raw),
        None => "Failed to parse availability response text."@,
    }
}

/// Pull the backorder field out of a simulate reply and normalize it.
/// The field sits at `d / SOSimulateToItem / results / 0 /
/// AvailBackorder`; a reply that is not JSON yields the fixed
/// parse-failure message.
pub fn extract_availability(response_text: &str) -> (r: String)
    ensures
        r@ == odata_answer_of(response_text@),
{
    match backorder_raw(response_text) {
        None => String::from_str("Failed to parse availability response text."),
        Some(raw) => normalize_availability(raw.as_str()),
    }
}

/// The simulate document posted for one query: ship-to warehouse, the
/// model as material, quantity one, and today's date, in this fixed
/// JSON shape.
pub open spec fn simulate_body_of(warehouse: Seq<char>, model: Seq<char>, today: Seq<char>) -> Seq<
    char,
> {
    "{\"Country\":\"US\",\"Brand\":\"A00\",\"Submodule\":\"APPS\",\"DocCategory\":\"ASTD\",\"PurchNo\":\"\",\"ReqDateH\":\""@
        + escape_of(today)
        + "\",\"ComplDlv\":\"\",\"SoldTo\":\"5010011875\",\"Language\":\"EN\",\"ShipTo\":\""@
        + escape_of(warehouse) + "\",\"SOSimulateToItem\":[{\"Submodule\":\"APPS\",\"Material\":\""@
        + escape_of(model) + "\",\"ReqQty\":\"1\",\"ReqDateI\":\""@ + escape_of(today) + "\"}]}"@
}

/// Build the simulate document for a warehouse, model, and date.
pub fn simulate_body(warehouse: &str, model: &str, today: &str) -> (r: String)
    ensures
        r@ == simulate_body_of(warehouse@, model@, today@),
{
    let mut r = String::from_str(
        "{\"Country\":\"US\",\"Brand\":\"A00\",\"Submodule\":\"APPS\",\"DocCategory\":\"ASTD\",\"PurchNo\":\"\",\"ReqDateH\":\"",
    );
    r.append(json_escape(today).as_str());
    r.append("\",\"ComplDlv\":\"\",\"SoldTo\":\"5010011875\",\"Language\":\"EN\",\"ShipTo\":\"");
    r.append(json_escape(warehouse).as_str());
    r.append("\",\"SOSimulateToItem\":[{\"Submodule\":\"APPS\",\"Material\":\"");
    r.append(json_escape(model).as_str());
    r.append("\",\"ReqQty\":\"1\",\"ReqDateI\":\"");
    r.append(json_escape(today).as_str());
    r.append("\"}]}");
    proof {
        assert(r@ =~= simulate_body_of(warehouse@, model@, today@));
    }
    r
}

/// One OData query: the session's cookie header and the request fields
/// the simulate document needs, stamped with today's date.
pub struct ODataQuery {
    pub cookie_header: String,
    pub warehouse: String,
    pub model_number: String,
    pub today: String,
}

impl ODataQuery {
    /// Assemble a query for a session's cookie header, a warehouse, and
    /// a model number, dated today.
    pub fn new(cookie_header: String, warehouse: String, model_number: String) -> (q: ODataQuery)
        ensures
            q.cookie_header == cookie_header,
            q.warehouse == warehouse,
            q.model_number == model_number,
    {
        ODataQuery { cookie_header, warehouse, model_number, today: local_today_compact() }
    }
}

/// Where the linear OData exchange stands: what to send next, or the
/// final answer.
#[derive(Debug)]
pub enum ODataStep {
    /// Fetch the anti-forgery token: send a GET with this cookie header.
    FetchToken { cookie_header: String },
    /// Post the simulate document with the cookie header, the echoed
    /// anti-forgery token, and this body.
    Simulate { cookie_header: String, csrf_token: String, body: String },
    /// The exchange is over; this is the answer.
    Finish { result: String },
}

/// What the token round trip produced.
#[derive(Debug)]
pub enum TokenFetch {
    /// The GET itself failed; the description becomes the answer.
    Failed { message: String },
    /// The GET succeeded; the reply's anti-forgery header, if present.
    Got { csrf_token: Option<String> },
}

/// What the simulate round trip produced.
#[derive(Debug)]
pub enum SimulateFetch {
    /// The POST failed; the description becomes the answer.
    Failed { message: String },
    /// The POST succeeded with this reply text.
    Got { response_text: String },
}

/// Begin the exchange: fetch the anti-forgery token with the session's
/// cookie header.
pub fn odata_start(q: &ODataQuery) -> (s: ODataStep)
    ensures
        s matches ODataStep::FetchToken { cookie_header } && cookie_header == q.cookie_header,
{
    ODataStep::FetchToken { cookie_header: q.cookie_header.clone() }
}

/// Advance past the token round trip. A transport failure ends the
/// exchange with its description; a reply without the header proceeds
/// with the fixed placeholder, as the portal then rejects the post
/// itself.
pub fn odata_on_token(q: &ODataQuery, ev: TokenFetch) -> (s: ODataStep)
    ensures
        match ev {
            TokenFetch::Failed { message } => s matches ODataStep::Finish { result } && result
                == message,
            TokenFetch::Got { csrf_token } => s matches ODataStep::Simulate {
                cookie_header,
                csrf_token: t,
                body,
            } && cookie_header == q.cookie_header && body@ == simulate_body_of(
                q.warehouse@,
                q.model_number@,
                q.today@,
            ) && t@ == match csrf_token {
                Some(tok) => tok@,
                None => "Failed to get x_csrf_token"@,
            },
        },
{
    match ev {
        TokenFetch::Failed { message } => ODataStep::Finish { result: message },
        TokenFetch::Got { csrf_token } => {
            let t = match csrf_token {
                Some(tok) => tok,
                None => String::from_str("Failed to get x_csrf_token"),
            };
            ODataStep::Simulate {
                cookie_header: q.cookie_header.clone(),
                csrf_token: t,
                body: simulate_body(
                    q.warehouse.as_str(),
                    q.model_number.as_str(),
                    q.today.as_str(),
                ),
            }
        },
    }
}

/// Finish the exchange: a transport failure's description, or the
/// normalized backorder field of the reply.
pub fn odata_on_simulate(ev: SimulateFetch) -> (s: ODataStep)
    ensures
        match ev {
            SimulateFetch::Failed { message } => s matches ODataStep::Finish { result } && result
                == message,
            SimulateFetch::Got { response_text } => s matches ODataStep::Finish { result }
                && result@ == odata_answer_of(response_text@),
        },
{
    match ev {
        SimulateFetch::Failed { message } => ODataStep::Finish { result: message },
        SimulateFetch::Got { response_text } => ODataStep::Finish {
            result: extract_availability(response_text.as_str()),
        },
    }
}

} // verus!
