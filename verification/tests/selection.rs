use nimbus::catalog::{DnsInfo, DnsRecord};
use nimbus::content::{ContentVariant, Ipv4Octets};
use nimbus::errors::Error;
use nimbus::selection::{decide_delete, resolve_selection, DeleteDecision};
use nimbus::zones::ZoneInfo;

fn record(id: &str, name: &str) -> DnsRecord {
    DnsRecord {
        id: id.to_string(),
        name: name.to_string(),
        content: ContentVariant::Address { octets: Ipv4Octets { a: 1, b: 2, c: 3, d: 4 } },
    }
}

fn three_record_catalog() -> DnsInfo {
    DnsInfo::from_records(vec![
        record("id-a", "a"),
        record("id-b", "b"),
        record("id-c", "c"),
    ])
}

fn zone() -> ZoneInfo {
    ZoneInfo {
        zone_identifier: "zone-1".to_string(),
        zone_name: "example.com".to_string(),
    }
}

#[test]
fn empty_selection_resolves_to_no_targets() {
    let info = three_record_catalog();
    let targets = resolve_selection(&info, &vec![]).expect("an empty selection succeeds");
    assert!(targets.is_empty());
}

#[test]
fn selection_uses_identifiers_of_the_captured_catalog() {
    let info = three_record_catalog();
    let targets = resolve_selection(&info, &vec![2, 0]).expect("indices point into the snapshot");
    assert_eq!(targets.len(), 2);
    assert_eq!(targets[0].name, "c");
    assert_eq!(targets[0].dns_id, "id-c");
    assert_eq!(targets[1].name, "a");
    assert_eq!(targets[1].dns_id, "id-a");
}

#[test]
fn selection_out_of_snapshot_is_an_error() {
    let info = three_record_catalog();
    assert!(matches!(
        resolve_selection(&info, &vec![0, 3]),
        Err(Error::SelectionOutOfRange)
    ));
}

#[test]
fn confirmation_gates_each_delete_request() {
    let info = three_record_catalog();
    let target = &resolve_selection(&info, &vec![1]).unwrap()[0];
    match decide_delete(&zone(), target, true) {
        DeleteDecision::Delete(req) => {
            assert_eq!(req.zone_identifier, "zone-1");
            assert_eq!(req.record_identifier, "id-b");
        }
        DeleteDecision::Skip => panic!("a confirmed item must yield its request"),
    }
    assert!(matches!(decide_delete(&zone(), target, false), DeleteDecision::Skip));
}

#[test]
fn delete_scenario_confirms_one_of_two_selected() {
    // catalog {a, b, c}; selection {0, 2}; confirm a, decline c
    let info = three_record_catalog();
    let snapshot = info.names();
    assert_eq!(snapshot, vec!["a", "b", "c"]);
    let targets = resolve_selection(&info, &vec![0, 2]).unwrap();
    let confirmations = [true, false];
    let mut issued = Vec::new();
    let mut skipped = Vec::new();
    for (target, confirmed) in targets.iter().zip(confirmations) {
        match decide_delete(&zone(), target, confirmed) {
            DeleteDecision::Delete(req) => issued.push(req),
            DeleteDecision::Skip => skipped.push(target.name.clone()),
        }
    }
    assert_eq!(issued.len(), 1);
    assert_eq!(issued[0].record_identifier, "id-a");
    assert_eq!(issued[0].zone_identifier, "zone-1");
    assert_eq!(skipped, vec!["c"]);
}
