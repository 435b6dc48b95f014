use nimbus::content::{ContentError, ContentVariant, Ipv4Octets, RecordKind};
use nimbus::errors::Error;
use nimbus::mutate::{
    build_create_request, build_update_request, compose_record_fqn, kind_of_selection,
    record_type_options, suggest_record_name,
};
use nimbus::zones::ZoneInfo;

fn zone() -> ZoneInfo {
    ZoneInfo {
        zone_identifier: "zone-1".to_string(),
        zone_name: "example.com".to_string(),
    }
}

#[test]
fn suggested_name_comes_from_the_word_list() {
    let words = ["core", "star", "gear", "pour", "rich", "food", "bond"];
    for _ in 0..20 {
        let suggestion = suggest_record_name();
        assert!(words.contains(&suggestion.as_str()), "unexpected suggestion {suggestion}");
    }
}

#[test]
fn record_type_options_are_a_then_cname() {
    assert_eq!(record_type_options(), vec!["A", "CNAME"]);
    assert_eq!(kind_of_selection(0), Some(RecordKind::A));
    assert_eq!(kind_of_selection(1), Some(RecordKind::Cname));
    assert_eq!(kind_of_selection(2), None);
}

#[test]
fn fqn_composes_entered_name_and_zone() {
    assert_eq!(compose_record_fqn("web", "example.com"), "web.example.com");
    assert_eq!(compose_record_fqn("", "example.com"), ".example.com");
}

#[test]
fn create_scenario_composes_the_request() {
    // entered name "web", zone "example.com", type A, address "203.0.113.5"
    let req = build_create_request(&zone(), "web", RecordKind::A, "203.0.113.5")
        .expect("valid content composes a request");
    assert_eq!(req.zone_identifier, "zone-1");
    assert_eq!(req.name, "web.example.com");
    assert!(req.proxied);
    assert_eq!(req.ttl, None);
    assert_eq!(req.priority, None);
    assert!(matches!(
        req.content,
        ContentVariant::Address { octets: Ipv4Octets { a: 203, b: 0, c: 113, d: 5 } }
    ));
}

#[test]
fn create_with_cname_content_carries_the_target() {
    let req = build_create_request(&zone(), "alias", RecordKind::Cname, "web.example.com")
        .expect("a non-empty target composes a request");
    assert_eq!(req.name, "alias.example.com");
    match req.content {
        ContentVariant::CanonicalName { target } => assert_eq!(target, "web.example.com"),
        _ => panic!("expected a canonical-name variant"),
    }
}

#[test]
fn create_rejects_invalid_content() {
    assert!(matches!(
        build_create_request(&zone(), "web", RecordKind::A, "1.2.3.256"),
        Err(Error::Validation(ContentError::InvalidAddress))
    ));
    assert!(matches!(
        build_create_request(&zone(), "alias", RecordKind::Cname, ""),
        Err(Error::Validation(ContentError::InvalidTarget))
    ));
}

#[test]
fn update_follows_the_same_validation_contract() {
    let req = build_update_request(&zone(), "rec-9", RecordKind::A, "10.0.0.1")
        .expect("valid content composes a request");
    assert_eq!(req.zone_identifier, "zone-1");
    assert_eq!(req.record_identifier, "rec-9");
    assert!(matches!(
        req.content,
        ContentVariant::Address { octets: Ipv4Octets { a: 10, b: 0, c: 0, d: 1 } }
    ));
    assert!(matches!(
        build_update_request(&zone(), "rec-9", RecordKind::A, "not-an-address"),
        Err(Error::Validation(ContentError::InvalidAddress))
    ));
}
