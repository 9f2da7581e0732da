//! The spreadsheet catalog: rows parsed through a case-insensitive
//! header map, scored against the query by fuzzy matching over
//! normalized text, with the strictly-best row answering the query.

use vstd::prelude::*;
use fuzzy_matcher::FuzzyMatcher;
use crate::strings::{ascii_lower_char, no_ascii_upper, normal_of, normalize, lower_of, lowercase};

verus! {

broadcast use vstd::string::group_string_axioms;

/// Character equality up to ASCII case, as `eq_ignore_ascii_case` sees it.
pub open spec fn ci_char_eq(a: char, b: char) -> bool {
    ascii_lower_char(a) == ascii_lower_char(b)
}

/// Whether the pattern can be aligned, in order, onto the choice, with
/// characters equal up to ASCII case.
pub open spec fn is_ci_subseq(pattern: Seq<char>, choice: Seq<char>) -> bool
    decreases choice.len(),
{
    if pattern.len() == 0 {
        true
    } else if choice.len() == 0 {
        false
    } else if ci_char_eq(choice[0], pattern[0]) {
        is_ci_subseq(pattern.drop_first(), choice.drop_first())
    } else {
        is_ci_subseq(pattern, choice.drop_first())
    }
}

/// No character of the choice equals any character of the pattern, up
/// to ASCII case.
pub open spec fn shares_no_char_ci(choice: Seq<char>, pattern: Seq<char>) -> bool {
    forall|i: int, j: int|
        0 <= i < choice.len() && 0 <= j < pattern.len() ==> !ci_char_eq(
            #[trigger] choice[i],
            #[trigger] pattern[j],
        )
}

/// What the skim fuzzy matcher returns for a choice and a pattern: a
/// pure function of the two texts.
pub uninterp spec fn fuzzy_score_of(choice: Seq<char>, pattern: Seq<char>) -> Option<i64>;

/// Score a choice text against a pattern.
///
/// Relies on `SkimMatcherV2::fuzzy_match` of fuzzy-matcher with its
/// default configuration: the result depends on the two texts alone; an
/// empty pattern scores zero; a choice equal to a nonempty pattern
/// matches with a positive score; and for a pattern without ASCII
/// capitals, a score exists exactly when the pattern aligns onto the
/// choice in order, up to ASCII case.
#[verifier::external_body]
pub(crate) fn fuzzy_score(choice: &str, pattern: &str) -> (r: Option<i64>)
    ensures
        r == fuzzy_score_of(choice@, pattern@),
        pattern@.len() == 0 ==> r == Some(0i64),
        (choice@ == pattern@ && pattern@.len() > 0) ==> clamped(r) > 0,
        no_ascii_upper(pattern@) ==> (r is Some <==> is_ci_subseq(pattern@, choice@)),
{
    fuzzy_matcher::skim::SkimMatcherV2::default().fuzzy_match(choice, pattern)
}

/// A fuzzy result as a reward: no alignment counts zero, and a score is
/// never taken below zero.
pub open spec fn clamped(o: Option<i64>) -> nat {
    match o {
        Some(k) => if k > 0 {
            k as nat
        } else {
            0
        },
        None => 0,
    }
}

/// A row's score against a query: the clamped fuzzy rewards of its
/// model number and of its description, added. Never negative.
pub open spec fn row_score_of(model: Seq<char>, desc: Seq<char>, query: Seq<char>) -> nat {
    clamped(fuzzy_score_of(model, query)) + clamped(fuzzy_score_of(desc, query))
}

/// A pattern that shares no character with the choice cannot be aligned
/// onto it.
proof fn lemma_disjoint_not_subseq(pattern: Seq<char>, choice: Seq<char>)
    requires
        pattern.len() > 0,
        shares_no_char_ci(choice, pattern),
    ensures
        !is_ci_subseq(pattern, choice),
    decreases choice.len(),
{
    if choice.len() == 0 {
    } else {
        assert(!ci_char_eq(choice[0], pattern[0]));
        assert forall|i: int, j: int|
            0 <= i < choice.drop_first().len() && 0 <= j < pattern.len() implies !ci_char_eq(
            #[trigger] choice.drop_first()[i],
            #[trigger] pattern[j],
        ) by {
            assert(choice.drop_first()[i] == choice[i + 1]);
        }
        lemma_disjoint_not_subseq(pattern, choice.drop_first());
    }
}

/// Score one row against a query.
///
/// The score is never negative; a row whose model number is exactly the
/// nonempty query scores strictly above zero; and a row sharing no
/// character with the query, in either field, scores exactly zero — so
/// an exact-match row always outscores a wholly unrelated one.
pub fn row_score(model: &str, desc: &str, query: &str) -> (r: u64)
    ensures
        r == row_score_of(model@, desc@, query@),
        (model@ == query@ && query@.len() > 0) ==> r > 0,
        (query@.len() > 0 && no_ascii_upper(query@) && shares_no_char_ci(model@, query@)
            && shares_no_char_ci(desc@, query@)) ==> r == 0,
{
    let m = fuzzy_score(model, query);
    let d = fuzzy_score(desc, query);
    proof {
        if query@.len() > 0 && no_ascii_upper(query@) && shares_no_char_ci(model@, query@)
            && shares_no_char_ci(desc@, query@) {
            lemma_disjoint_not_subseq(query@, model@);
            lemma_disjoint_not_subseq(query@, desc@);
        }
    }
    let ms: u64 = match m {
        Some(k) => if k > 0 {
            k as u64
        } else {
            0
        },
        None => 0,
    };
    let ds: u64 = match d {
        Some(k) => if k > 0 {
            k as u64
        } else {
            0
        },
        None => 0,
    };
    ms + ds
}

/// Law: a row whose model number is exactly the normalized, nonempty
/// query scores strictly higher than a row sharing no characters with
/// it — whatever either row's description says. The scores come back
/// for inspection, exact-match row first.
pub fn exact_match_outscores_disjoint(
    query: &str,
    exact_desc: &str,
    other_model: &str,
    other_desc: &str,
) -> (pair: (u64, u64))
    requires
        query@.len() > 0,
        no_ascii_upper(query@),
        shares_no_char_ci(other_model@, query@),
        shares_no_char_ci(other_desc@, query@),
    ensures
        pair.0 == row_score_of(query@, exact_desc@, query@),
        pair.1 == row_score_of(other_model@, other_desc@, query@),
        pair.0 > pair.1,
{
    (row_score(query, exact_desc, query), row_score(other_model, other_desc, query))
}

/// One catalog row, rebuilt per request from the downloaded workbook.
#[derive(Debug, Clone)]
pub struct CatalogRecord {
    pub timestamp: String,
    pub sku: String,
    pub upc: String,
    pub category: String,
    pub subcategory: String,
    pub model_number: String,
    pub description: String,
    pub current_umrp: String,
    pub new_umrp: String,
    pub dealer_cost_level: String,
    pub warehouse_number: String,
    pub available_qty: String,
    pub sales_status: String,
    pub next_available_qty: String,
    pub next_available_date: String,
}

/// The column names a record reads, lowercased, in field order.
pub open spec fn column_names() -> Seq<Seq<char>> {
    seq![
        "timestamp"@,
        "sku#"@,
        "ean/upc"@,
        "category"@,
        "subcategory"@,
        "model number"@,
        "description"@,
        "current umrp/map"@,
        "new umrp/map"@,
        "dealer cost level"@,
        "warehouse no"@,
        "available qty"@,
        "sales status"@,
        "next available qty"@,
        "next available date"@,
    ]
}

/// A record's fields, in the order of `column_names`.
pub open spec fn record_fields(r: CatalogRecord) -> Seq<Seq<char>> {
    seq![
        r.timestamp@,
        r.sku@,
        r.upc@,
        r.category@,
        r.subcategory@,
        r.model_number@,
        r.description@,
        r.current_umrp@,
        r.new_umrp@,
        r.dealer_cost_level@,
        r.warehouse_number@,
        r.available_qty@,
        r.sales_status@,
        r.next_available_qty@,
        r.next_available_date@,
    ]
}

/// The value a named column takes in a row: the last cell whose header
/// lowercases to the name; empty when no cell has that header. Cells
/// beyond the header row are ignored.
pub open spec fn field_of(headers: Seq<Seq<char>>, row: Seq<Seq<char>>, name: Seq<char>) -> Seq<
    char,
>
    decreases row.len(),
{
    if row.len() == 0 {
        Seq::empty()
    } else {
        let i = row.len() - 1;
        if i < headers.len() && lower_of(headers[i]) == name {
            row[i]
        } else {
            field_of(headers, row.take(i), name)
        }
    }
}

/// How the named column's value changes when one more cell is taken.
proof fn lemma_field_unfold(hd: Seq<Seq<char>>, rd: Seq<Seq<char>>, i: int, name: Seq<char>)
    requires
        0 <= i < rd.len(),
    ensures
        field_of(hd, rd.take(i + 1), name) == if i < hd.len() && lower_of(hd[i]) == name {
            rd[i]
        } else {
            field_of(hd, rd.take(i), name)
        },
{
    assert(rd.take(i + 1).len() == i + 1);
    assert(rd.take(i + 1)[i] == rd[i]);
    assert(rd.take(i + 1).take(i) =~= rd.take(i));
}

/// Whether a record carries exactly the named columns of a row.
pub open spec fn record_matches(
    r: CatalogRecord,
    headers: Seq<Seq<char>>,
    row: Seq<Seq<char>>,
) -> bool {
    forall|f: int|
        0 <= f < 15 ==> #[trigger] record_fields(r)[f] == field_of(headers, row, column_names()[f])
}

/// The fifteen column names are pairwise distinct.
proof fn lemma_column_names_distinct()
    ensures
        forall|f: int, g: int|
            0 <= f < 15 && 0 <= g < 15 && f != g ==> #[trigger] column_names()[f]
                != #[trigger] column_names()[g],
{
    reveal_strlit("timestamp");
    reveal_strlit("sku#");
    reveal_strlit("ean/upc");
    reveal_strlit("category");
    reveal_strlit("subcategory");
    reveal_strlit("model number");
    reveal_strlit("description");
    reveal_strlit("current umrp/map");
    reveal_strlit("new umrp/map");
    reveal_strlit("dealer cost level");
    reveal_strlit("warehouse no");
    reveal_strlit("available qty");
    reveal_strlit("sales status");
    reveal_strlit("next available qty");
    reveal_strlit("next available date");
    assert("timestamp"@.len() == 9);
    assert("sku#"@.len() == 4);
    assert("ean/upc"@.len() == 7);
    assert("category"@.len() == 8);
    assert("subcategory"@.len() == 11);
    assert("model number"@.len() == 12);
    assert("description"@.len() == 11);
    assert("current umrp/map"@.len() == 16);
    assert("new umrp/map"@.len() == 12);
    assert("dealer cost level"@.len() == 17);
    assert("warehouse no"@.len() == 12);
    assert("available qty"@.len() == 13);
    assert("sales status"@.len() == 12);
    assert("next available qty"@.len() == 18);
    assert("next available date"@.len() == 19);
    assert("subcategory"@[0] == 's');
    assert("description"@[0] == 'd');
    assert("model number"@[0] == 'm');
    assert("new umrp/map"@[0] == 'n');
    assert("warehouse no"@[0] == 'w');
    assert("sales status"@[0] == 's');
    assert("model number"@[1] == 'o');
    assert("sales status"@[1] == 'a');
    assert("subcategory"@[1] == 'u');
}

/// Set the field whose column name is `low` — already lowercased — to
/// the cell's text; a record with an unknown name passes through.
fn apply_cell(rec: CatalogRecord, low: &String, cell: String) -> (r: CatalogRecord)
    ensures
        forall|f: int|
            0 <= f < 15 ==> #[trigger] record_fields(r)[f] == if low@ == column_names()[f] {
                cell@
            } else {
                record_fields(rec)[f]
            },
{
    proof {
        lemma_column_names_distinct();
    }
    if *low == String::from_str("timestamp") {
        return CatalogRecord { timestamp: cell, ..rec };
    }
    if *low == String::from_str("sku#") {
        return CatalogRecord { sku: cell, ..rec };
    }
    if *low == String::from_str("ean/upc") {
        return CatalogRecord { upc: cell, ..rec };
    }
    if *low == String::from_str("category") {
        return CatalogRecord { category: cell, ..rec };
    }
    if *low == String::from_str("subcategory") {
        return CatalogRecord { subcategory: cell, ..rec };
    }
    if *low == String::from_str("model number") {
        return CatalogRecord { model_number: cell, ..rec };
    }
    if *low == String::from_str("description") {
        return CatalogRecord { description: cell, ..rec };
    }
    if *low == String::from_str("current umrp/map") {
        return CatalogRecord { current_umrp: cell, ..rec };
    }
    if *low == String::from_str("new umrp/map") {
        return CatalogRecord { new_umrp: cell, ..rec };
    }
    if *low == String::from_str("dealer cost level") {
        return CatalogRecord { dealer_cost_level: cell, ..rec };
    }
    if *low == String::from_str("warehouse no") {
        return CatalogRecord { warehouse_number: cell, ..rec };
    }
    if *low == String::from_str("available qty") {
        return CatalogRecord { available_qty: cell, ..rec };
    }
    if *low == String::from_str("sales status") {
        return CatalogRecord { sales_status: cell, ..rec };
    }
    if *low == String::from_str("next available qty") {
        return CatalogRecord { next_available_qty: cell, ..rec };
    }
    if *low == String::from_str("next available date") {
        return CatalogRecord { next_available_date: cell, ..rec };
    }
    rec
}

/// Parse one data row into a record, mapping cells to fields by the
/// case-insensitive name of their column; unknown headers and cells past
/// the header row are ignored, and a repeated column keeps its last cell.
pub fn record_from_row(headers: &Vec<String>, row: &Vec<String>) -> (r: CatalogRecord)
    ensures
        record_matches(r, headers.deep_view(), row.deep_view()),
{
    let ghost hd = headers.deep_view();
    let ghost rd = row.deep_view();
    let mut rec = CatalogRecord {
        timestamp: String::new(),
        sku: String::new(),
        upc: String::new(),
        category: String::new(),
        subcategory: String::new(),
        model_number: String::new(),
        description: String::new(),
        current_umrp: String::new(),
        new_umrp: String::new(),
        dealer_cost_level: String::new(),
        warehouse_number: String::new(),
        available_qty: String::new(),
        sales_status: String::new(),
        next_available_qty: String::new(),
        next_available_date: String::new(),
    };
    let mut i: usize = 0;
    proof {
        assert(rd.take(0) =~= Seq::<Seq<char>>::empty());
        assert forall|f: int| 0 <= f < 15 implies #[trigger] record_fields(rec)[f] == field_of(
            hd,
            rd.take(0),
            column_names()[f],
        ) by {}
    }
    while i < row.len()
        invariant
            i <= row.len(),
            hd == headers.deep_view(),
            rd == row.deep_view(),
            hd.len() == headers@.len(),
            rd.len() == row@.len(),
            forall|j: int| 0 <= j < hd.len() ==> #[trigger] hd[j] == headers@[j]@,
            forall|j: int| 0 <= j < rd.len() ==> #[trigger] rd[j] == row@[j]@,
            record_matches(rec, hd, rd.take(i as int)),
        decreases row.len() - i,
    {
        let ghost rec0 = rec;
        if i < headers.len() {
            let low = lowercase(headers[i].as_str());
            let cell = row[i].clone();
            rec = apply_cell(rec, &low, cell);
            proof {
                assert(low@ == lower_of(hd[i as int]));
                assert forall|f: int| 0 <= f < 15 implies #[trigger] record_fields(rec)[f]
                    == field_of(hd, rd.take(i + 1), column_names()[f]) by {
                    lemma_field_unfold(hd, rd, i as int, column_names()[f]);
                    assert(record_fields(rec0)[f] == field_of(
                        hd,
                        rd.take(i as int),
                        column_names()[f],
                    ));
                }
            }
        } else {
            proof {
                assert forall|f: int| 0 <= f < 15 implies #[trigger] record_fields(rec)[f]
                    == field_of(hd, rd.take(i + 1), column_names()[f]) by {
                    lemma_field_unfold(hd, rd, i as int, column_names()[f]);
                    assert(record_fields(rec0)[f] == field_of(
                        hd,
                        rd.take(i as int),
                        column_names()[f],
                    ));
                }
            }
        }
        i = i + 1;
    }
    proof {
        assert(rd.take(rd.len() as int) =~= rd);
    }
    rec
}

/// A record's score against a normalized query: its model number and
/// description are normalized and fuzzy-matched, and the clamped
/// rewards added.
pub open spec fn score_of_record(rec: CatalogRecord, q: Seq<char>) -> nat {
    row_score_of(normal_of(rec.model_number@), normal_of(rec.description@), q)
}

/// The index of the winning record: a positive score strictly above
/// every earlier score and no lower than any later one — the first
/// record reaching the maximum.
pub open spec fn is_first_max(scores: Seq<nat>, i: int) -> bool {
    &&& 0 <= i < scores.len()
    &&& scores[i] > 0
    &&& forall|j: int| 0 <= j < i ==> #[trigger] scores[j] < scores[i]
    &&& forall|j: int| 0 <= j < scores.len() ==> #[trigger] scores[j] <= scores[i]
}

/// Law: selection prefers the first of equally scored rows. When two
/// rows carry the same maximal score, the selected index is no later
/// than the earlier of the two.
pub proof fn lemma_tie_prefers_first(scores: Seq<nat>, chosen: int, a: int, b: int)
    requires
        is_first_max(scores, chosen),
        0 <= a < b < scores.len(),
        scores[a] == scores[b],
        scores[a] == scores[chosen],
    ensures
        chosen <= a,
{
    if chosen > a {
        assert(scores[a] < scores[chosen]);
    }
}

/// The records' scores against a normalized query, in order.
pub open spec fn scores_of_records(records: Seq<CatalogRecord>, q: Seq<char>) -> Seq<nat> {
    Seq::new(records.len(), |j: int| score_of_record(records[j], q))
}

/// Pick the record with the strictly greatest score against the
/// normalized query, earlier records winning ties; `None` when every
/// record scores zero.
pub fn best_record(records: &Vec<CatalogRecord>, query_norm: &String) -> (r: Option<usize>)
    ensures
        match r {
            Some(i) => i < records@.len() && is_first_max(
                scores_of_records(records@, query_norm@),
                i as int,
            ),
            None => forall|j: int|
                0 <= j < records@.len() ==> #[trigger] score_of_record(records@[j], query_norm@)
                    == 0,
        },
{
    let ghost scores = scores_of_records(records@, query_norm@);
    let mut best: Option<usize> = None;
    let mut best_score: u64 = 0;
    let mut i: usize = 0;
    while i < records.len()
        invariant
            i <= records.len(),
            scores == scores_of_records(records@, query_norm@),
            scores.len() == records@.len(),
            match best {
                Some(b) => b < i && scores[b as int] == best_score && best_score > 0 && (forall|
                    j: int,
                |
                    0 <= j < b ==> #[trigger] scores[j] < best_score) && (forall|j: int|
                    0 <= j < i ==> #[trigger] scores[j] <= best_score),
                None => best_score == 0 && forall|j: int|
                    0 <= j < i ==> #[trigger] scores[j] == 0,
            },
        decreases records.len() - i,
    {
        let rec = &records[i];
        let norm_model = normalize(rec.model_number.as_str());
        let norm_desc = normalize(rec.description.as_str());
        let s = row_score(norm_model.as_str(), norm_desc.as_str(), query_norm.as_str());
        proof {
            assert(scores[i as int] == score_of_record(records@[i as int], query_norm@));
        }
        if s > best_score {
            best = Some(i);
            best_score = s;
        }
        i = i + 1;
    }
    proof {
        if best is None {
            assert forall|j: int| 0 <= j < records@.len() implies #[trigger] score_of_record(
                records@[j],
                query_norm@,
            ) == 0 by {
                assert(scores[j] == 0);
            }
        }
    }
    best
}

/// Law: a record whose model number normalizes to exactly the nonempty
/// normalized query is the record selected, whenever every other record
/// shares no character with the query in either scored field. Together
/// with the resolver's answer contract, the matching row's availability
/// is what a query for its exact model number reports.
pub fn exact_match_is_selected(
    records: &Vec<CatalogRecord>,
    query_norm: &String,
    e: usize,
) -> (r: Option<usize>)
    requires
        e < records@.len(),
        query_norm@.len() > 0,
        no_ascii_upper(query_norm@),
        normal_of(records@[e as int].model_number@) == query_norm@,
        forall|j: int|
            0 <= j < records@.len() && j != e ==> shares_no_char_ci(
                normal_of(#[trigger] records@[j].model_number@),
                query_norm@,
            ) && shares_no_char_ci(normal_of(records@[j].description@), query_norm@),
    ensures
        r == Some(e),
        is_first_max(scores_of_records(records@, query_norm@), e as int),
{
    let mut j: usize = 0;
    while j < records.len()
        invariant
            j <= records.len(),
            e < records@.len(),
            query_norm@.len() > 0,
            no_ascii_upper(query_norm@),
            normal_of(records@[e as int].model_number@) == query_norm@,
            forall|k: int|
                0 <= k < records@.len() && k != e ==> shares_no_char_ci(
                    normal_of(#[trigger] records@[k].model_number@),
                    query_norm@,
                ) && shares_no_char_ci(normal_of(records@[k].description@), query_norm@),
            forall|k: int|
                0 <= k < j && k != e ==> #[trigger] score_of_record(records@[k], query_norm@)
                    == 0,
            e < j ==> score_of_record(records@[e as int], query_norm@) > 0,
        decreases records.len() - j,
    {
        let rec = &records[j];
        let nm = normalize(rec.model_number.as_str());
        let nd = normalize(rec.description.as_str());
        let s = row_score(nm.as_str(), nd.as_str(), query_norm.as_str());
        proof {
            assert(s == score_of_record(records@[j as int], query_norm@));
        }
        j = j + 1;
    }
    let r = best_record(records, query_norm);
    proof {
        let scores = scores_of_records(records@, query_norm@);
        assert(scores[e as int] == score_of_record(records@[e as int], query_norm@));
        assert(scores[e as int] > 0);
        if r is None {
            assert(score_of_record(records@[e as int], query_norm@) == 0);
        }
        let i = r->0;
        assert(is_first_max(scores, i as int));
        if i != e {
            assert(scores[i as int] == score_of_record(records@[i as int], query_norm@));
            assert(scores[i as int] == 0);
        }
    }
    r
}

/// The answer when the winner's availability date is unknown.
pub open spec fn unknown_message_of(model: Seq<char>) -> Seq<char> {
    "Next avalability for "@ + model + " is unknown."@
}

/// The answer when the winner has an availability date.
pub open spec fn found_message_of(model: Seq<char>, date: Seq<char>) -> Seq<char> {
    "Found: "@ + model + ", Available: "@ + date
}

/// Render the unknown-availability answer for a model.
fn unknown_message(model: &str) -> (r: String)
    ensures
        r@ == unknown_message_of(model@),
{
    let mut r = String::from_str("Next avalability for ");
    r.append(model);
    r.append(" is unknown.");
    proof {
        assert(r@ =~= unknown_message_of(model@));
    }
    r
}

/// Render the found answer for a model and date.
fn found_message(model: &str, date: &str) -> (r: String)
    ensures
        r@ == found_message_of(model@, date@),
{
    let mut r = String::from_str("Found: ");
    r.append(model);
    r.append(", Available: ");
    r.append(date);
    proof {
        assert(r@ =~= found_message_of(model@, date@));
    }
    r
}

/// What the URL decoder returns for a text: `None` when the
/// percent-decoded bytes are not valid text, otherwise the decoded
/// characters; a pure function of the input.
pub uninterp spec fn url_decoded_of(s: Seq<char>) -> Option<Seq<char>>;

/// Percent-decode a query text.
///
/// Relies on `urlencoding::decode`: the result depends on the input
/// alone, and an input without `%` decodes to itself.
#[verifier::external_body]
pub(crate) fn url_decode(s: &str) -> (r: Option<String>)
    ensures
        r.deep_view() == url_decoded_of(s@),
        !s@.contains('%') ==> r.deep_view() == Some(s@),
{
    urlencoding::decode(s).ok().map(|c| c.into_owned())
}

/// The scores of the data rows of a worksheet (row zero being the
/// header row) against a normalized query.
pub open spec fn data_scores(rows: Seq<Seq<Seq<char>>>, q: Seq<char>) -> Seq<nat>
    recommends
        rows.len() >= 1,
{
    Seq::new((rows.len() - 1) as nat, |k: int| row_score_of(
        normal_of(field_of(rows[0], rows[k + 1], "model number"@)),
        normal_of(field_of(rows[0], rows[k + 1], "description"@)),
        q,
    ))
}

/// The winning row's answer: its availability date, or the unknown
/// text when the date column is empty.
pub open spec fn winner_message(headers: Seq<Seq<char>>, row: Seq<Seq<char>>) -> Seq<char> {
    let model = field_of(headers, row, "model number"@);
    let date = field_of(headers, row, "next available date"@);
    if date.len() == 0 {
        unknown_message_of(model)
    } else {
        found_message_of(model, date)
    }
}

/// Resolve a model-number query against a downloaded worksheet, given
/// as rows of cell texts with the header row first. The query is
/// URL-decoded and normalized, every data row is scored, and the first
/// row reaching the strictly greatest positive score answers; when no
/// row scores, the answer is the unknown text for an empty model.
pub fn miele_resolve(rows: &Vec<Vec<String>>, model_number: &str) -> (r: String)
    ensures
        rows@.len() == 0 ==> r@
            == "Failed to get row from Miele appliance availability spreadsheet."@,
        rows@.len() == 1 ==> r@ == unknown_message_of(Seq::empty()),
        rows@.len() >= 2 && url_decoded_of(model_number@) is None ==> r@
            == "Cannot decode model number."@,
        (rows@.len() >= 2 && url_decoded_of(model_number@) is Some) ==> ({
            let scores = data_scores(rows.deep_view(), normal_of(url_decoded_of(model_number@)->0));
            ||| ((forall|j: int| 0 <= j < scores.len() ==> #[trigger] scores[j] == 0) && r@
                == unknown_message_of(Seq::empty()))
            ||| (exists|i: int|
                #[trigger] is_first_max(scores, i) && r@ == winner_message(
                    rows.deep_view()[0],
                    rows.deep_view()[i + 1],
                ))
        }),
{
    let ghost rv = rows.deep_view();
    proof {
        assert(rv.len() == rows@.len());
        assert(forall|j: int| 0 <= j < rv.len() ==> #[trigger] rv[j] == rows@[j].deep_view());
    }
    if rows.len() == 0 {
        return String::from_str("Failed to get row from Miele appliance availability spreadsheet.");
    }
    let headers = &rows[0];
    let mut records: Vec<CatalogRecord> = Vec::new();
    let mut k: usize = 1;
    while k < rows.len()
        invariant
            1 <= k <= rows@.len(),
            rv == rows.deep_view(),
            rv.len() == rows@.len(),
            headers == &rows@[0],
            records@.len() == k - 1,
            forall|j: int|
                0 <= j < records@.len() ==> record_matches(#[trigger] records@[j], rv[0], rv[j + 1]),
        decreases rows@.len() - k,
    {
        let rec = record_from_row(headers, &rows[k]);
        records.push(rec);
        k = k + 1;
    }
    if records.len() == 0 {
        proof {
            reveal_strlit("");
            assert(""@ =~= Seq::<char>::empty());
        }
        return unknown_message("");
    }
    match url_decode(model_number) {
        None => String::from_str("Cannot decode model number."),
        Some(decoded) => {
            let q = normalize(decoded.as_str());
            let ghost dec = url_decoded_of(model_number@)->0;
            let ghost scores = data_scores(rv, normal_of(dec));
            proof {
                assert(scores.len() == records@.len());
                assert forall|j: int| 0 <= j < records@.len() implies score_of_record(
                    #[trigger] records@[j],
                    q@,
                ) == scores[j] by {
                    assert(record_fields(records@[j])[5] == field_of(
                        rv[0],
                        rv[j + 1],
                        column_names()[5],
                    ));
                    assert(record_fields(records@[j])[6] == field_of(
                        rv[0],
                        rv[j + 1],
                        column_names()[6],
                    ));
                    reveal_strlit("model number");
                    reveal_strlit("description");
                }
            }
            match best_record(&records, &q) {
                None => {
                    proof {
                        reveal_strlit("");
                        assert(""@ =~= Seq::<char>::empty());
                        assert forall|j: int| 0 <= j < scores.len() implies #[trigger] scores[j]
                            == 0 by {
                            assert(score_of_record(records@[j], q@) == 0);
                        }
                    }
                    unknown_message("")
                },
                Some(i) => {
                    let rec = &records[i];
                    proof {
                        assert(scores_of_records(records@, q@) =~= scores);
                        assert(is_first_max(scores, i as int));
                        assert(record_fields(records@[i as int])[5] == field_of(
                            rv[0],
                            rv[i + 1],
                            column_names()[5],
                        ));
                        assert(record_fields(records@[i as int])[14] == field_of(
                            rv[0],
                            rv[i + 1],
                            column_names()[14],
                        ));
                    }
                    let out = if rec.next_available_date.unicode_len() == 0 {
                        unknown_message(rec.model_number.as_str())
                    } else {
                        found_message(rec.model_number.as_str(), rec.next_available_date.as_str())
                    };
                    proof {
                        assert(out@ == winner_message(rv[0], rv[i + 1]));
                    }
                    out
                },
            }
        },
    }
}

} // verus!
