use nimbus::errors::Error;
use nimbus::zones::{account_names, Account, Zone, ZoneCatalog};

fn zone(id: &str, name: &str) -> Zone {
    Zone { id: id.to_string(), name: name.to_string() }
}

#[test]
fn account_names_lists_every_account() {
    let accounts = vec![
        Account { name: "ops".to_string() },
        Account { name: "dev".to_string() },
    ];
    assert_eq!(account_names(&accounts).unwrap(), vec!["ops", "dev"]);
}

#[test]
fn no_accounts_is_fatal() {
    assert!(matches!(account_names(&vec![]), Err(Error::NoAccounts)));
}

#[test]
fn zone_catalog_folds_duplicate_names_last_write() {
    let cat = ZoneCatalog::from_zones(vec![
        zone("z-1", "example.com"),
        zone("z-2", "example.org"),
        zone("z-3", "example.com"),
    ]);
    assert_eq!(cat.len(), 2);
    assert_eq!(cat.zone_options().unwrap(), vec!["example.com", "example.org"]);
    let resolved = cat.resolve(0).unwrap();
    assert_eq!(resolved.zone_name, "example.com");
    assert_eq!(resolved.zone_identifier, "z-3");
}

#[test]
fn no_zones_is_fatal() {
    let cat = ZoneCatalog::from_zones(vec![]);
    assert!(matches!(cat.zone_options(), Err(Error::NoZones)));
}

#[test]
fn resolve_returns_the_selected_pair() {
    let cat = ZoneCatalog::from_zones(vec![
        zone("z-1", "example.com"),
        zone("z-2", "example.org"),
    ]);
    let resolved = cat.resolve(1).unwrap();
    assert_eq!(resolved.zone_name, "example.org");
    assert_eq!(resolved.zone_identifier, "z-2");
    assert!(matches!(cat.resolve(2), Err(Error::SelectionOutOfRange)));
}
