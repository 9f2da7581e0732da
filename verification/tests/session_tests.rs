use appliance_availability::session::{
    Cookie, SessionRecord, cookie_header, parse_token_file, render_jar_payload,
    render_token_file, session_file_content, session_from_file,
};

fn cookie(name: &str, value: &str) -> Cookie {
    Cookie {
        name: name.to_string(),
        value: value.to_string(),
        domain: String::new(),
        path: String::new(),
        expires: None,
    }
}

#[test]
fn cookie_header_keeps_order_and_every_pair() {
    let jar = vec![cookie("sid", "a1"), cookie("csrf", "b2"), cookie("lang", "en")];
    assert_eq!(cookie_header(&jar), "sid=a1; csrf=b2; lang=en; ");
}

#[test]
fn cookie_header_of_empty_jar_is_empty() {
    assert_eq!(cookie_header(&Vec::new()), "");
}

#[test]
fn cookie_header_of_one_cookie_is_one_pair() {
    assert_eq!(cookie_header(&vec![cookie("k", "v")]), "k=v; ");
}

#[test]
fn token_file_round_trips_plain_tokens() {
    let token = "eyJhbGciOiJIUzI1NiJ9.payload.sig";
    let file = render_token_file(token);
    assert_eq!(file, "{\"token\":\"eyJhbGciOiJIUzI1NiJ9.payload.sig\"}");
    assert_eq!(parse_token_file(&file).as_deref(), Some(token));
}

#[test]
fn token_file_round_trips_tokens_with_quotes_and_backslashes() {
    let token = "a\"b\\c";
    let file = render_token_file(token);
    assert_eq!(parse_token_file(&file).as_deref(), Some(token));
}

#[test]
fn token_file_round_trips_the_empty_token() {
    let file = render_token_file("");
    assert_eq!(parse_token_file(&file).as_deref(), Some(""));
}

#[test]
fn corrupted_cache_content_reads_as_absent() {
    for bad in [
        "",
        "{}",
        "not json at all",
        "{\"token\":}",
        "{\"token\":\"abc",
        "{\"token\":\"abc\"",
        "{\"Token\":\"abc\"}",
        "{\"token\":\"a\\qb\"}",
        "{\"token\":\"a\"b\"}",
        "{\"token\":\"abc\"}trailing",
        "[\"token\"]",
    ] {
        assert!(parse_token_file(bad).is_none(), "content {bad:?} must read as absent");
    }
}

#[test]
fn valid_cache_content_yields_its_token() {
    assert_eq!(parse_token_file("{\"token\":\"abc\"}").as_deref(), Some("abc"));
}

#[test]
fn session_record_needs_at_least_one_cookie() {
    assert!(SessionRecord::from_cookies(Vec::new()).is_none());
    let record = SessionRecord::from_cookies(vec![cookie("sid", "a1")]).expect("one cookie");
    assert_eq!(record.header(), "sid=a1; ");
}

fn full_cookie(expires: Option<&str>) -> Cookie {
    Cookie {
        name: "sid".to_string(),
        value: "a;1\\x".to_string(),
        domain: ".subzero.com".to_string(),
        path: "/".to_string(),
        expires: expires.map(|e| e.to_string()),
    }
}

#[test]
fn the_session_file_round_trips_a_whole_record() {
    let jar = vec![full_cookie(Some("2025-01-01 00:00:00 UTC")), full_cookie(None)];
    let record = SessionRecord::from_cookies(jar).expect("two cookies");
    let content = session_file_content(&record);
    let back = session_from_file(&content).expect("the file must read back");
    assert_eq!(back.cookies.len(), 2);
    assert_eq!(back.cookies[0].name, "sid");
    assert_eq!(back.cookies[0].value, "a;1\\x");
    assert_eq!(back.cookies[0].domain, ".subzero.com");
    assert_eq!(back.cookies[0].path, "/");
    assert_eq!(back.cookies[0].expires.as_deref(), Some("2025-01-01 00:00:00 UTC"));
    assert!(back.cookies[1].expires.is_none());
}

#[test]
fn the_payload_writes_five_marked_fields_per_cookie() {
    let jar = vec![cookie("sid", "a1")];
    assert_eq!(render_jar_payload(&jar), "sid;a1;;;0;");
    let with_expiry = vec![full_cookie(Some("never"))];
    assert_eq!(render_jar_payload(&with_expiry), "sid;a\\;1\\\\x;.subzero.com;/;1never;");
}

#[test]
fn corrupted_session_files_read_as_absent() {
    for bad in [
        "{\"token\":\"sid;a1;;;\"}",
        "{\"token\":\"sid;a1;;;2\"}",
        "{\"token\":\"sid;a1;;;0;extra\"}",
        "{\"token\":\"sid;a1;;;0;x;y;z;w\"}",
        "{\"token\":\"sid;a1;;;\\\\q0;\"}",
        "{\"token\":\"\"}",
        "not a cache file",
    ] {
        assert!(session_from_file(bad).is_none(), "content {bad:?} must read as absent");
    }
}
