//! The stateful cart workflow: drain the remote cart, validate the model
//! number against the autosuggest endpoint, add the item, and read the
//! ship-availability date out of the returned table. The drain loop is
//! bounded; every transport failure becomes a descriptive result string.

use vstd::prelude::*;
use crate::strings::{chars_vec, string_from_chars};

verus! {

/// How many `tr` rows the `#myScrollTable` element of a document holds:
/// a pure function of the markup.
pub uninterp spec fn scroll_row_count_of(html: Seq<char>) -> usize;

/// Count the rows of the cart table in a reply document.
///
/// Relies on scraper's `Html::parse_document`, `Selector::parse`, and
/// `select`: the number of `tr` elements under the first element with id
/// `myScrollTable`, zero when there is none; a function of the markup
/// alone.
#[verifier::external_body]
pub(crate) fn scroll_table_row_count(html: &str) -> (r: usize)
    ensures
        r == scroll_row_count_of(html@),
{
    let document = scraper::Html::parse_document(html);
    let Ok(table_sel) = scraper::Selector::parse("#myScrollTable") else {
        return 0;
    };
    let Ok(tr_sel) = scraper::Selector::parse("tr") else {
        return 0;
    };
    match document.select(&table_sel).next() {
        Some(table) => table.select(&tr_sel).count(),
        None => 0,
    }
}

/// The cell texts of the cart table in a document: for each `tr` of the
/// first `tbody` of `#myScrollTable`, its `td` inner markup, in order; a
/// pure function of the markup.
pub uninterp spec fn scroll_cells_of(html: Seq<char>) -> Seq<Seq<Seq<char>>>;

/// Read the cart table's cells out of a reply document.
///
/// Relies on scraper's `Html::parse_document`, `Selector::parse`,
/// `select`, and `inner_html`: one inner vector per `tr` row of the
/// first `tbody` under the first element with id `myScrollTable`,
/// holding the rows' `td` texts in order; empty when table or body is
/// absent; a function of the markup alone.
#[verifier::external_body]
pub(crate) fn scroll_tbody_cells(html: &str) -> (r: Vec<Vec<String>>)
    ensures
        r.deep_view() == scroll_cells_of(html@),
{
    let document = scraper::Html::parse_document(html);
    let parsed = ["#myScrollTable", "tbody", "tr", "td"].map(scraper::Selector::parse);
    let [Ok(table), Ok(tbody), Ok(tr), Ok(td)] = parsed else { return Vec::new() };
    document
        .select(&table)
        .next()
        .and_then(|t| t.select(&tbody).next())
        .map(|body| {
            body.select(&tr).map(|row| row.select(&td).map(|c| c.inner_html()).collect()).collect()
        })
        .unwrap_or_default()
}

/// The prefix of a text before its first `{`, or the whole text when
/// none occurs. The autosuggest endpoint answers with the suggested
/// model number followed by an irregular brace-delimited tail; this is
/// the tolerant read of that format.
pub open spec fn before_brace_of(s: Seq<char>) -> Seq<char>
    decreases s.len(),
{
    if s.len() == 0 {
        s
    } else if s[0] == '{' {
        Seq::empty()
    } else {
        seq![s[0]] + before_brace_of(s.drop_first())
    }
}

/// Take the prefix of a text before its first `{`.
pub fn before_brace(s: &str) -> (r: String)
    ensures
        r@ == before_brace_of(s@),
{
    let chars = chars_vec(s);
    let mut out: Vec<char> = Vec::new();
    let mut i: usize = 0;
    proof {
        assert(chars@.skip(0) =~= chars@);
        assert(out@ + before_brace_of(chars@) =~= before_brace_of(s@));
    }
    while i < chars.len()
        invariant
            i <= chars.len(),
            chars@ == s@,
            forall|j: int| 0 <= j < i ==> chars@[j] != '{',
            out@ + before_brace_of(chars@.skip(i as int)) == before_brace_of(s@),
            out@ =~= chars@.take(i as int),
        decreases chars.len() - i,
    {
        let ghost out0 = out@;
        let ghost seg = chars@.skip(i as int);
        proof {
            assert(seg[0] == chars@[i as int]);
        }
        if chars[i] == '{' {
            proof {
                assert(before_brace_of(seg) =~= Seq::<char>::empty());
                assert(out@ + Seq::<char>::empty() =~= out@);
            }
            return string_from_chars(&out);
        }
        out.push(chars[i]);
        proof {
            assert(seg.drop_first() =~= chars@.skip(i + 1));
            assert(out@ =~= out0 + seq![seg[0]]);
            assert(out@ + before_brace_of(chars@.skip(i + 1)) =~= out0 + before_brace_of(seg));
            assert(out@ =~= chars@.take(i + 1));
        }
        i = i + 1;
    }
    proof {
        assert(chars@.skip(chars@.len() as int) =~= Seq::<char>::empty());
        assert(before_brace_of(Seq::<char>::empty()) =~= Seq::<char>::empty());
        assert(out@ + before_brace_of(chars@.skip(chars@.len() as int)) =~= out@);
    }
    string_from_chars(&out)
}

/// The answer read from the add reply's table cells: the eighth cell of
/// the last row that has one, or the fixed error text when no row does.
pub open spec fn add_result_of(cells: Seq<Seq<Seq<char>>>) -> Seq<char>
    decreases cells.len(),
{
    if cells.len() == 0 {
        "Error finding item."@
    } else if cells.last().len() >= 8 {
        cells.last()[7]
    } else {
        add_result_of(cells.drop_last())
    }
}

/// Read the ship-availability date out of the add reply's table cells:
/// the eighth cell of the last row that has an eighth cell; rows in
/// order, later rows winning; the fixed error text when none qualifies.
pub fn cart_add_availability(cells: &Vec<Vec<String>>) -> (r: String)
    ensures
        r@ == add_result_of(cells.deep_view()),
{
    let ghost dv = cells.deep_view();
    let mut result = String::from_str("Error finding item.");
    let mut i: usize = 0;
    proof {
        assert(dv.take(0) =~= Seq::<Seq<Seq<char>>>::empty());
    }
    while i < cells.len()
        invariant
            i <= cells.len(),
            dv == cells.deep_view(),
            dv.len() == cells@.len(),
            forall|j: int| 0 <= j < dv.len() ==> #[trigger] dv[j] == cells@[j].deep_view(),
            result@ == add_result_of(dv.take(i as int)),
        decreases cells.len() - i,
    {
        let row = &cells[i];
        proof {
            assert(dv.take(i + 1).drop_last() =~= dv.take(i as int));
            assert(dv.take(i + 1).last() == dv[i as int]);
            assert(dv[i as int].len() == row@.len());
            if row@.len() >= 8 {
                assert(dv[i as int][7] == row@[7]@);
            }
        }
        if row.len() >= 8 {
            result = row[7].clone();
        }
        i = i + 1;
    }
    proof {
        assert(dv.take(dv.len() as int) =~= dv);
    }
    result
}

/// Where the cart workflow stands.
#[derive(Debug)]
pub enum CartPhase {
    /// Emptying the remote cart.
    Draining,
    /// Asking the autosuggest endpoint for the validated model number.
    Validating,
    /// Adding the validated item and reading its availability.
    Adding,
    /// Finished; the answer was produced.
    Done,
}

/// What the driver must do next.
#[derive(Debug)]
pub enum CartAction {
    /// Fetch the cart page and report how many rows it shows.
    GetCount,
    /// Post a delete of the cart's first item.
    DeleteFirst,
    /// Query the autosuggest endpoint for this model number.
    Suggest { model: String },
    /// Post an add of this validated model number, quantity one.
    AddItem { model: String },
    /// Stop and hand this answer to the caller.
    Finish { result: String },
}

/// The cart workflow: a bounded drain, then validate, then add. One
/// machine drives one request; the remote cart it mutates is shared per
/// session, so a driver must hold that session's cart exclusively while
/// a machine is in flight.
#[derive(Debug)]
pub struct CartMachine {
    /// Where the workflow stands.
    pub phase: CartPhase,
    /// Delete commands issued so far.
    pub deletes_done: u32,
    /// The most delete commands one drain may issue.
    pub max_deletes: u32,
    /// The model number under query (requested, then validated).
    pub model_number: String,
}

impl CartMachine {
    /// Begin the workflow for one model number: first drain the cart.
    pub fn start(model_number: String, max_deletes: u32) -> (r: (CartMachine, CartAction))
        ensures
            r.0.phase is Draining,
            r.0.deletes_done == 0,
            r.0.max_deletes == max_deletes,
            r.0.model_number == model_number,
            r.1 is GetCount,
    {
        (
            CartMachine { phase: CartPhase::Draining, deletes_done: 0, max_deletes, model_number },
            CartAction::GetCount,
        )
    }

    /// Take the fetched cart page and count its rows. Zero rows means
    /// the cart is drained and validation starts; otherwise one more
    /// delete is issued, until the bound is spent, which ends the
    /// workflow with the drain-timeout answer. A failed fetch is
    /// reported as an empty page, which shows zero rows.
    pub fn on_cart_page(self, html: &str) -> (r: (CartMachine, CartAction))
        requires
            self.phase is Draining,
        ensures
            ({
                let count = scroll_row_count_of(html@);
                &&& r.0.max_deletes == self.max_deletes
                &&& r.0.model_number == self.model_number
                &&& count == 0 ==> r.0.phase is Validating && r.0.deletes_done == self.deletes_done
                    && (r.1 matches CartAction::Suggest { model } && model == self.model_number)
                &&& count > 0 && self.deletes_done < self.max_deletes ==> r.0.phase is Draining
                    && r.0.deletes_done == self.deletes_done + 1 && r.1 is DeleteFirst
                &&& count > 0 && self.deletes_done >= self.max_deletes ==> r.0.phase is Done && (
                r.1 matches CartAction::Finish { result } && result@
                    == "Cart did not drain within the delete bound."@)
            }),
    {
        let count = scroll_table_row_count(html);
        if count == 0 {
            let model = self.model_number.clone();
            (CartMachine { phase: CartPhase::Validating, ..self }, CartAction::Suggest { model })
        } else if self.deletes_done < self.max_deletes {
            let deletes_done = self.deletes_done + 1;
            (CartMachine { deletes_done, ..self }, CartAction::DeleteFirst)
        } else {
            (
                CartMachine { phase: CartPhase::Done, ..self },
                CartAction::Finish {
                    result: String::from_str("Cart did not drain within the delete bound."),
                },
            )
        }
    }

    /// Take a delete's outcome: re-count on success, stop with the
    /// failure's description otherwise.
    pub fn on_delete(self, ok: bool, message: String) -> (r: (CartMachine, CartAction))
        requires
            self.phase is Draining,
        ensures
            r.0.max_deletes == self.max_deletes,
            r.0.model_number == self.model_number,
            r.0.deletes_done == self.deletes_done,
            ok ==> r.0.phase is Draining && r.1 is GetCount,
            !ok ==> r.0.phase is Done && (r.1 matches CartAction::Finish { result } && result
                == message),
    {
        if ok {
            (self, CartAction::GetCount)
        } else {
            (CartMachine { phase: CartPhase::Done, ..self }, CartAction::Finish { result: message })
        }
    }

    /// Take the autosuggest reply: the validated model number is the
    /// reply's prefix before its first `{`, and the add step starts; a
    /// failed round trip stops with its description.
    pub fn on_suggest(self, ok: bool, text: String) -> (r: (CartMachine, CartAction))
        requires
            self.phase is Validating,
        ensures
            r.0.max_deletes == self.max_deletes,
            r.0.deletes_done == self.deletes_done,
            ok ==> r.0.phase is Adding && r.0.model_number@ == before_brace_of(text@) && (
            r.1 matches CartAction::AddItem { model } && model@ == before_brace_of(text@)),
            !ok ==> r.0.phase is Done && r.0.model_number == self.model_number && (
            r.1 matches CartAction::Finish { result } && result == text),
    {
        if ok {
            let validated = before_brace(text.as_str());
            let model = validated.clone();
            (
                CartMachine { phase: CartPhase::Adding, model_number: validated, ..self },
                CartAction::AddItem { model },
            )
        } else {
            (CartMachine { phase: CartPhase::Done, ..self }, CartAction::Finish { result: text })
        }
    }

    /// Take the add reply: the answer is the ship-availability date read
    /// from the returned table, or the failure's description.
    pub fn on_add(self, ok: bool, text: String) -> (r: (CartMachine, CartAction))
        requires
            self.phase is Adding,
        ensures
            r.0.phase is Done,
            r.0.max_deletes == self.max_deletes,
            r.0.deletes_done == self.deletes_done,
            r.0.model_number == self.model_number,
            ok ==> (r.1 matches CartAction::Finish { result } && result@ == add_result_of(
                scroll_cells_of(text@),
            )),
            !ok ==> (r.1 matches CartAction::Finish { result } && result == text),
    {
        if ok {
            let cells = scroll_tbody_cells(text.as_str());
            let result = cart_add_availability(&cells);
            (CartMachine { phase: CartPhase::Done, ..self }, CartAction::Finish { result })
        } else {
            (CartMachine { phase: CartPhase::Done, ..self }, CartAction::Finish { result: text })
        }
    }
}

} // verus!
