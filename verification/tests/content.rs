use nimbus::content::{build_content, ipv4_string, parse_ipv4, render, ContentError, ContentVariant, Ipv4Octets, RecordKind};

fn octets(a: u8, b: u8, c: u8, d: u8) -> Ipv4Octets {
    Ipv4Octets { a, b, c, d }
}

#[test]
fn parse_ipv4_accepts_dotted_quad() {
    assert_eq!(parse_ipv4("1.2.3.4"), Some(octets(1, 2, 3, 4)));
    assert_eq!(parse_ipv4("0.0.0.0"), Some(octets(0, 0, 0, 0)));
    assert_eq!(parse_ipv4("255.255.255.255"), Some(octets(255, 255, 255, 255)));
    assert_eq!(parse_ipv4("10.0.0.1"), Some(octets(10, 0, 0, 1)));
    assert_eq!(parse_ipv4("203.0.113.5"), Some(octets(203, 0, 113, 5)));
}

#[test]
fn parse_ipv4_rejects_out_of_range_octet() {
    assert_eq!(parse_ipv4("1.2.3.256"), None);
    assert_eq!(parse_ipv4("256.1.1.1"), None);
    assert_eq!(parse_ipv4("1.2.3.999"), None);
}

#[test]
fn parse_ipv4_rejects_wrong_octet_count() {
    assert_eq!(parse_ipv4("1.2.3"), None);
    assert_eq!(parse_ipv4("1.2.3.4.5"), None);
    assert_eq!(parse_ipv4("1"), None);
    assert_eq!(parse_ipv4(""), None);
}

#[test]
fn parse_ipv4_rejects_non_numeric_tokens() {
    assert_eq!(parse_ipv4("abc"), None);
    assert_eq!(parse_ipv4("a.b.c.d"), None);
    assert_eq!(parse_ipv4("1.2.3.x"), None);
    assert_eq!(parse_ipv4("1..2.3"), None);
    assert_eq!(parse_ipv4(".1.2.3"), None);
    assert_eq!(parse_ipv4("1.2.3."), None);
    assert_eq!(parse_ipv4(" 1.2.3.4"), None);
    assert_eq!(parse_ipv4("1.2.3.+4"), None);
}

#[test]
fn parse_ipv4_rejects_leading_zeros() {
    assert_eq!(parse_ipv4("01.2.3.4"), None);
    assert_eq!(parse_ipv4("1.2.3.04"), None);
    assert_eq!(parse_ipv4("1.2.003.4"), None);
}

#[test]
fn build_content_address_stores_octets() {
    match build_content(RecordKind::A, "1.2.3.4") {
        Ok(ContentVariant::Address { octets: o }) => assert_eq!(o, octets(1, 2, 3, 4)),
        _ => panic!("expected a stored address"),
    }
}

#[test]
fn build_content_address_rejects_malformed_input() {
    for bad in ["1.2.3.256", "1.2.3", "abc"] {
        match build_content(RecordKind::A, bad) {
            Err(e) => assert_eq!(e, ContentError::InvalidAddress),
            Ok(_) => panic!("expected an address validation error for {bad}"),
        }
    }
}

#[test]
fn build_content_cname_accepts_any_non_empty_target() {
    match build_content(RecordKind::Cname, "x.example.com") {
        Ok(ContentVariant::CanonicalName { target }) => assert_eq!(target, "x.example.com"),
        _ => panic!("expected a canonical-name variant"),
    }
    match build_content(RecordKind::Cname, "a") {
        Ok(ContentVariant::CanonicalName { target }) => assert_eq!(target, "a"),
        _ => panic!("expected a canonical-name variant"),
    }
}

#[test]
fn build_content_cname_rejects_empty_target() {
    match build_content(RecordKind::Cname, "") {
        Err(e) => assert_eq!(e, ContentError::InvalidTarget),
        Ok(_) => panic!("expected a target validation error"),
    }
}

#[test]
fn ipv4_string_renders_dotted_quad() {
    assert_eq!(ipv4_string(&octets(1, 2, 3, 4)), "1.2.3.4");
    assert_eq!(ipv4_string(&octets(10, 0, 0, 1)), "10.0.0.1");
    assert_eq!(ipv4_string(&octets(255, 255, 255, 255)), "255.255.255.255");
}

#[test]
fn render_address_and_cname_and_other() {
    let a = ContentVariant::Address { octets: octets(10, 0, 0, 1) };
    assert_eq!(render(&a), Some(("10.0.0.1".to_string(), "A".to_string())));
    let c = ContentVariant::CanonicalName { target: "x.example.com".to_string() };
    assert_eq!(render(&c), Some(("x.example.com".to_string(), "CNAME".to_string())));
    assert_eq!(render(&ContentVariant::Other), None);
}
