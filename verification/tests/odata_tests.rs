use appliance_availability::odata::{
    ODataQuery, ODataStep, SimulateFetch, TokenFetch, extract_availability,
    normalize_availability, odata_on_simulate, odata_on_token, odata_start, simulate_body,
};

const SENTINEL: &str = "Model availablility not found.";

#[test]
fn normalization_strips_breaks_and_spaces() {
    assert_eq!(normalize_availability("  12\n/31\r/2024  "), "12/31/2024");
}

#[test]
fn normalization_strips_escaped_breaks_too() {
    assert_eq!(normalize_availability("12\\n/31\\r/2024"), "12/31/2024");
}

#[test]
fn short_values_become_the_sentinel() {
    assert_eq!(normalize_availability("N/A"), SENTINEL);
    assert_eq!(normalize_availability(""), SENTINEL);
    assert_eq!(normalize_availability("   1/2/24   "), SENTINEL);
}

#[test]
fn ten_clean_characters_pass_verbatim() {
    assert_eq!(normalize_availability("12/31/2024"), "12/31/2024");
}

#[test]
fn simulate_body_embeds_the_request_fields() {
    let body = simulate_body("US00002148", "HBLP651RUC", "20241231");
    assert_eq!(
        body,
        "{\"Country\":\"US\",\"Brand\":\"A00\",\"Submodule\":\"APPS\",\"DocCategory\":\"ASTD\",\
         \"PurchNo\":\"\",\"ReqDateH\":\"20241231\",\"ComplDlv\":\"\",\"SoldTo\":\"5010011875\",\
         \"Language\":\"EN\",\"ShipTo\":\"US00002148\",\"SOSimulateToItem\":[{\"Submodule\":\"APPS\",\
         \"Material\":\"HBLP651RUC\",\"ReqQty\":\"1\",\"ReqDateI\":\"20241231\"}]}"
    );
}

#[test]
fn simulate_body_escapes_quotes_in_values() {
    let body = simulate_body("W\"1", "M\\2", "20240101");
    assert!(body.contains("\"ShipTo\":\"W\\\"1\""));
    assert!(body.contains("\"Material\":\"M\\\\2\""));
}

#[test]
fn extraction_reads_the_nested_backorder_field() {
    let reply = "{\"d\":{\"SOSimulateToItem\":{\"results\":[{\"AvailBackorder\":\"12/31/2024 10 EA\"}]}}}";
    // The field is rendered as JSON, quotes included, before cleaning.
    assert_eq!(extract_availability(reply), "\"12/31/202410EA\"");
}

#[test]
fn extraction_of_a_missing_field_gives_the_sentinel() {
    assert_eq!(extract_availability("{\"d\":{}}"), SENTINEL);
}

#[test]
fn extraction_of_malformed_json_reports_the_parse_failure() {
    assert_eq!(
        extract_availability("<html>sign in</html>"),
        "Failed to parse availability response text."
    );
}

#[test]
fn the_exchange_runs_token_then_simulate_then_answer() {
    let q = ODataQuery::new(
        "sid=a1; ".to_string(),
        "US00002148".to_string(),
        "HBLP651RUC".to_string(),
    );
    let step = odata_start(&q);
    match step {
        ODataStep::FetchToken { cookie_header } => assert_eq!(cookie_header, "sid=a1; "),
        _ => panic!("expected the token fetch first"),
    }
    let step = odata_on_token(&q, TokenFetch::Got { csrf_token: Some("tok123".to_string()) });
    match step {
        ODataStep::Simulate { cookie_header, csrf_token, body } => {
            assert_eq!(cookie_header, "sid=a1; ");
            assert_eq!(csrf_token, "tok123");
            assert!(body.contains("\"Material\":\"HBLP651RUC\""));
            assert!(body.contains("\"ShipTo\":\"US00002148\""));
        },
        _ => panic!("expected the simulate post"),
    }
    let reply = "{\"d\":{\"SOSimulateToItem\":{\"results\":[{\"AvailBackorder\":\"12/31/2024\"}]}}}";
    let step = odata_on_simulate(SimulateFetch::Got { response_text: reply.to_string() });
    match step {
        ODataStep::Finish { result } => assert_eq!(result, "\"12/31/2024\""),
        _ => panic!("expected the answer"),
    }
}

#[test]
fn a_missing_token_header_proceeds_with_the_placeholder() {
    let q = ODataQuery::new(String::new(), "W".to_string(), "M".to_string());
    let step = odata_on_token(&q, TokenFetch::Got { csrf_token: None });
    match step {
        ODataStep::Simulate { csrf_token, .. } => {
            assert_eq!(csrf_token, "Failed to get x_csrf_token");
        },
        _ => panic!("expected the simulate post"),
    }
}

#[test]
fn transport_failures_become_the_answer() {
    let q = ODataQuery::new(String::new(), "W".to_string(), "M".to_string());
    let step = odata_on_token(&q, TokenFetch::Failed { message: "no route".to_string() });
    match step {
        ODataStep::Finish { result } => assert_eq!(result, "no route"),
        _ => panic!("expected the exchange to end"),
    }
    let step = odata_on_simulate(SimulateFetch::Failed { message: "timed out".to_string() });
    match step {
        ODataStep::Finish { result } => assert_eq!(result, "timed out"),
        _ => panic!("expected the exchange to end"),
    }
}
