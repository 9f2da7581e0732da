use appliance_availability::request::AvailabilityRequest;
use appliance_availability::resolver::{ResolveAction, Resolver, Vendor};
use appliance_availability::session::{Cookie, SessionRecord};

fn request(manufacturer: &str) -> AvailabilityRequest {
    AvailabilityRequest::new(
        manufacturer.to_string(),
        "houston".to_string(),
        "HBLP651RUC".to_string(),
    )
    .parse_manufacturer()
    .get_warehouse()
}

fn record() -> SessionRecord {
    SessionRecord::from_cookies(vec![Cookie {
        name: "sid".to_string(),
        value: "a1".to_string(),
        domain: String::new(),
        path: String::new(),
        expires: None,
    }])
    .expect("one cookie")
}

#[test]
fn an_unknown_manufacturer_resolves_to_nothing() {
    let (_, action) = Resolver::begin(&request("acme"));
    match action {
        ResolveAction::Finish { result } => assert!(result.is_none()),
        other => panic!("unexpected action {other:?}"),
    }
}

#[test]
fn a_missing_model_number_is_rejected_before_any_call() {
    let mut req = request("subzero");
    req.model_number = None;
    let (_, action) = Resolver::begin(&req);
    match action {
        ResolveAction::Finish { result } => {
            assert_eq!(result.as_deref(), Some("No model number provided"));
        },
        other => panic!("unexpected action {other:?}"),
    }
}

#[test]
fn bsh_needs_its_warehouse_before_any_call() {
    let mut req = request("bsh");
    req.warehouse = None;
    let (_, action) = Resolver::begin(&req);
    match action {
        ResolveAction::Finish { result } => {
            assert_eq!(result.as_deref(), Some("No warehouse found."));
        },
        other => panic!("unexpected action {other:?}"),
    }
}

#[test]
fn the_cart_vendor_needs_no_warehouse() {
    let mut req = request("subzero");
    req.warehouse = None;
    let (_, action) = Resolver::begin(&req);
    assert!(matches!(action, ResolveAction::ReadCache));
}

#[test]
fn miele_needs_its_warehouse() {
    let mut req = request("miele");
    req.warehouse = None;
    let (_, action) = Resolver::begin(&req);
    match action {
        ResolveAction::Finish { result } => {
            assert_eq!(result.as_deref(), Some("No warehouse found."));
        },
        other => panic!("unexpected action {other:?}"),
    }
}

#[test]
fn a_missing_warehouse_is_reported_before_a_missing_model() {
    let mut req = request("miele");
    req.warehouse = None;
    req.model_number = None;
    let (_, action) = Resolver::begin(&req);
    match action {
        ResolveAction::Finish { result } => {
            assert_eq!(result.as_deref(), Some("No warehouse found."));
        },
        other => panic!("unexpected action {other:?}"),
    }
}

#[test]
fn miele_dispatches_without_a_session() {
    let (_, action) = Resolver::begin(&request("miele"));
    match action {
        ResolveAction::Dispatch { vendor, cookie_header } => {
            assert_eq!(vendor, Vendor::Miele);
            assert_eq!(cookie_header, "");
        },
        other => panic!("unexpected action {other:?}"),
    }
}

#[test]
fn a_cached_session_dispatches_with_its_header() {
    let (resolver, action) = Resolver::begin(&request("bsh"));
    assert!(matches!(action, ResolveAction::ReadCache));
    let (_, action) = resolver.on_cache(Some(record()));
    match action {
        ResolveAction::Dispatch { vendor, cookie_header } => {
            assert_eq!(vendor, Vendor::Bsh);
            assert_eq!(cookie_header, "sid=a1; ");
        },
        other => panic!("unexpected action {other:?}"),
    }
}

#[test]
fn a_cache_miss_logs_in_once_then_rereads() {
    let (resolver, _) = Resolver::begin(&request("subzero"));
    let (resolver, action) = resolver.on_cache(None);
    assert!(matches!(action, ResolveAction::Login));
    let (resolver, action) = resolver.on_login(true, String::new());
    assert!(matches!(action, ResolveAction::ReadCache));
    let (_, action) = resolver.on_cache(Some(record()));
    assert!(matches!(action, ResolveAction::Dispatch { .. }));
}

#[test]
fn a_cache_still_empty_after_login_answers_without_failing() {
    let (resolver, _) = Resolver::begin(&request("bsh"));
    let (resolver, _) = resolver.on_cache(None);
    let (resolver, _) = resolver.on_login(true, String::new());
    let (_, action) = resolver.on_cache(None);
    match action {
        ResolveAction::Finish { result } => {
            assert_eq!(result.as_deref(), Some("Faild to login to BSH website."));
        },
        other => panic!("unexpected action {other:?}"),
    }
}

#[test]
fn a_failed_login_is_fatal() {
    let (resolver, _) = Resolver::begin(&request("subzero"));
    let (resolver, _) = resolver.on_cache(None);
    let (_, action) = resolver.on_login(false, "browser did not start".to_string());
    match action {
        ResolveAction::Fail { message } => assert_eq!(message, "browser did not start"),
        other => panic!("unexpected action {other:?}"),
    }
}

#[test]
fn the_adapters_answer_finishes_the_request() {
    let (resolver, _) = Resolver::begin(&request("miele"));
    let (_, action) = resolver.on_answer("Found: HBLP651RUC, Available: 12/31/2024".to_string());
    match action {
        ResolveAction::Finish { result } => {
            assert_eq!(result.as_deref(), Some("Found: HBLP651RUC, Available: 12/31/2024"));
        },
        other => panic!("unexpected action {other:?}"),
    }
}
