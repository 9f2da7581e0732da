use appliance_availability::request::{AvailabilityRequest, AvailabilityRequestUser};

fn fresh(manufacturer: &str, showroom: &str, model: &str) -> AvailabilityRequest {
    AvailabilityRequest::new(manufacturer.to_string(), showroom.to_string(), model.to_string())
}

#[test]
fn new_sets_the_three_fields_and_nothing_else() {
    let req = fresh("bsh", "houston", "HBLP651RUC");
    assert_eq!(req.manufacturer.as_deref(), Some("bsh"));
    assert_eq!(req.showroom.as_deref(), Some("houston"));
    assert_eq!(req.model_number.as_deref(), Some("HBLP651RUC"));
    assert!(req.warehouse.is_none());
    assert!(req.utc_time.is_none());
    assert!(req.availability.is_none());
    assert!(req.user.is_none());
}

#[test]
fn parse_manufacturer_canonicalizes_case() {
    let req = fresh("BSH", "houston", "x").parse_manufacturer();
    assert_eq!(req.manufacturer.as_deref(), Some("bsh"));
    let req = fresh("SubZero", "houston", "x").parse_manufacturer();
    assert_eq!(req.manufacturer.as_deref(), Some("subzero"));
    let req = fresh("MIELE", "houston", "x").parse_manufacturer();
    assert_eq!(req.manufacturer.as_deref(), Some("miele"));
}

#[test]
fn parse_manufacturer_rejects_unknown_vendor() {
    let req = fresh("acme", "houston", "x").parse_manufacturer();
    assert!(req.manufacturer.is_none());
}

#[test]
fn parse_manufacturer_keeps_other_fields() {
    let req = fresh("bsh", "houston", "x").parse_manufacturer();
    assert_eq!(req.showroom.as_deref(), Some("houston"));
    assert_eq!(req.model_number.as_deref(), Some("x"));
}

#[test]
fn get_warehouse_maps_each_vendor_for_houston() {
    let req = fresh("bsh", "houston", "x").get_warehouse();
    assert_eq!(req.warehouse.as_deref(), Some("US00002148"));
    let req = fresh("subzero", "houston", "x").get_warehouse();
    assert_eq!(req.warehouse.as_deref(), Some("99432040"));
    let req = fresh("miele", "houston", "x").get_warehouse();
    assert_eq!(req.warehouse.as_deref(), Some("Forest Park, IL"));
}

#[test]
fn get_warehouse_is_case_insensitive_on_showroom() {
    let req = fresh("miele", "Chicago", "x").get_warehouse();
    assert_eq!(req.warehouse.as_deref(), Some("Forest Park, IL"));
    let req = fresh("bsh", "NEW YORK", "x").get_warehouse();
    assert_eq!(req.warehouse.as_deref(), Some("US00002933"));
}

#[test]
fn get_warehouse_covers_all_showrooms_for_subzero() {
    for (showroom, code) in [
        ("houston", "99432040"),
        ("florida", "99211620"),
        ("los angeles", "99614560"),
        ("chicago", "99311630"),
        ("new york", "99103710"),
        ("dallas", "99411540"),
    ] {
        let req = fresh("subzero", showroom, "x").get_warehouse();
        assert_eq!(req.warehouse.as_deref(), Some(code), "showroom {showroom}");
    }
}

#[test]
fn get_warehouse_yields_nothing_for_unknown_parts() {
    let req = fresh("bsh", "boston", "x").get_warehouse();
    assert!(req.warehouse.is_none());
    let req = fresh("acme", "houston", "x").get_warehouse();
    assert!(req.warehouse.is_none());
    let mut req = fresh("bsh", "houston", "x");
    req.showroom = None;
    assert!(req.get_warehouse().warehouse.is_none());
}

#[test]
fn get_time_stamps_the_request() {
    let req = fresh("bsh", "houston", "x").get_time();
    let stamp = req.utc_time.expect("utc_time must be set");
    assert!(!stamp.is_empty());
    assert_eq!(req.manufacturer.as_deref(), Some("bsh"));
}

#[test]
fn add_user_attaches_the_user() {
    let user = AvailabilityRequestUser {
        id: "u1".to_string(),
        given_name: Some("Kim".to_string()),
        surname: None,
        display_name: None,
        job_title: Some("Sales".to_string()),
        user_principal_name: None,
        office_location: None,
    };
    let req = fresh("bsh", "houston", "x").add_user(user);
    let attached = req.user.expect("user must be set");
    assert_eq!(attached.id, "u1");
    assert_eq!(attached.job_title.as_deref(), Some("Sales"));
}
