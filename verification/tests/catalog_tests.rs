use appliance_availability::catalog::{
    CatalogRecord, best_record, exact_match_is_selected, exact_match_outscores_disjoint,
    miele_resolve, record_from_row, row_score,
};
use appliance_availability::strings::normalize;

fn strings(cells: &[&str]) -> Vec<String> {
    cells.iter().map(|c| c.to_string()).collect()
}

fn record(model: &str, desc: &str, date: &str) -> CatalogRecord {
    CatalogRecord {
        timestamp: String::new(),
        sku: String::new(),
        upc: String::new(),
        category: String::new(),
        subcategory: String::new(),
        model_number: model.to_string(),
        description: desc.to_string(),
        current_umrp: String::new(),
        new_umrp: String::new(),
        dealer_cost_level: String::new(),
        warehouse_number: String::new(),
        available_qty: String::new(),
        sales_status: String::new(),
        next_available_qty: String::new(),
        next_available_date: date.to_string(),
    }
}

#[test]
fn normalize_lowercases_and_strips_whitespace() {
    assert_eq!(normalize("  HbLp 651\tRuC "), "hblp651ruc");
    assert_eq!(normalize(""), "");
}

#[test]
fn an_exact_match_outscores_a_row_sharing_no_characters() {
    let query = "hblp651ruc";
    let exact = row_score("hblp651ruc", "ovenwithdisplay", query);
    let unrelated = row_score("zzz", "yyy", query);
    assert_eq!(unrelated, 0);
    assert!(exact > unrelated);
}

#[test]
fn the_score_separation_holds_on_concrete_rows() {
    let (exact, unrelated) =
        exact_match_outscores_disjoint("hblp651ruc", "builtinoven", "zzz", "www");
    assert!(exact > unrelated);
    assert_eq!(unrelated, 0);
}

#[test]
fn scores_are_never_negative_and_zero_without_alignment() {
    // u64 scores cannot be negative; a row with no alignment scores zero.
    assert_eq!(row_score("abc", "def", "xyz"), 0);
    assert_eq!(row_score("", "", "q"), 0);
}

#[test]
fn a_tie_keeps_the_first_record() {
    let twin_a = record("HBLP651RUC", "same text", "01/01/2025");
    let twin_b = record("HBLP651RUC", "same text", "02/02/2025");
    let records = vec![twin_a, twin_b];
    let query = normalize("hblp651ruc");
    assert_eq!(best_record(&records, &query), Some(0));
}

#[test]
fn selection_is_none_when_every_row_scores_zero() {
    let records = vec![record("aaa", "bbb", ""), record("ccc", "ddd", "")];
    let query = normalize("xyz");
    assert_eq!(best_record(&records, &query), None);
}

#[test]
fn a_strictly_better_later_row_wins() {
    let weak = record("h", "", "");
    let strong = record("hblp651ruc", "hblp 651 ruc oven", "03/03/2025");
    let records = vec![weak, strong];
    let query = normalize("hblp651ruc");
    assert_eq!(best_record(&records, &query), Some(1));
}

#[test]
fn records_read_their_columns_case_insensitively() {
    let headers = strings(&["Model Number", "DESCRIPTION", "Next Available Date", "Mystery"]);
    let row = strings(&["HBLP651RUC", "Oven", "12/31/2024", "ignored"]);
    let rec = record_from_row(&headers, &row);
    assert_eq!(rec.model_number, "HBLP651RUC");
    assert_eq!(rec.description, "Oven");
    assert_eq!(rec.next_available_date, "12/31/2024");
    assert_eq!(rec.sku, "");
}

#[test]
fn a_short_row_leaves_later_columns_empty() {
    let headers = strings(&["Model Number", "Description"]);
    let row = strings(&["HBLP651RUC"]);
    let rec = record_from_row(&headers, &row);
    assert_eq!(rec.model_number, "HBLP651RUC");
    assert_eq!(rec.description, "");
}

#[test]
fn a_repeated_column_keeps_its_last_cell() {
    let headers = strings(&["Model Number", "Model Number"]);
    let row = strings(&["first", "second"]);
    let rec = record_from_row(&headers, &row);
    assert_eq!(rec.model_number, "second");
}

fn two_row_worksheet() -> Vec<Vec<String>> {
    vec![
        strings(&["Timestamp", "SKU#", "Model Number", "Description", "Next Available Date"]),
        strings(&["t1", "s1", "HBLP651RUC", "30 inch speed oven", "12/31/2024"]),
        strings(&["t2", "s2", "ZZZ", "unrelated thing", "07/07/2025"]),
    ]
}

#[test]
fn the_encoded_query_finds_its_row_end_to_end() {
    let answer = miele_resolve(&two_row_worksheet(), "HBLP%20651RUC");
    assert_eq!(answer, "Found: HBLP651RUC, Available: 12/31/2024");
}

#[test]
fn the_exact_match_row_is_the_selection() {
    let exact = record("HBLP 651RUC", "30 inch speed oven", "12/31/2024");
    let unrelated = record("zzz", "www", "07/07/2025");
    let records = vec![unrelated, exact];
    let query = normalize("hblp651ruc");
    assert_eq!(exact_match_is_selected(&records, &query, 1), Some(1));
}

#[test]
fn a_winner_without_a_date_reports_unknown_availability() {
    let rows = vec![
        strings(&["Model Number", "Description", "Next Available Date"]),
        strings(&["HBLP651RUC", "oven", ""]),
    ];
    let answer = miele_resolve(&rows, "HBLP651RUC");
    assert_eq!(answer, "Next avalability for HBLP651RUC is unknown.");
}

#[test]
fn an_empty_worksheet_reports_the_missing_row() {
    let answer = miele_resolve(&Vec::new(), "HBLP651RUC");
    assert_eq!(answer, "Failed to get row from Miele appliance availability spreadsheet.");
}

#[test]
fn a_worksheet_with_only_headers_reports_unknown_for_no_model() {
    let rows = vec![strings(&["Model Number", "Description"])];
    let answer = miele_resolve(&rows, "HBLP651RUC");
    assert_eq!(answer, "Next avalability for  is unknown.");
}

#[test]
fn a_query_matching_nothing_reports_unknown_for_no_model() {
    let rows = vec![
        strings(&["Model Number", "Description", "Next Available Date"]),
        strings(&["aaa", "bbb", "01/01/2025"]),
    ];
    let answer = miele_resolve(&rows, "xyz");
    assert_eq!(answer, "Next avalability for  is unknown.");
}
