use node_installer::catalog::parse_catalog;
use node_installer::catalog::get_latest_version;
use node_installer::catalog::get_lts_version;
use node_installer::catalog::ReleaseEntry;
use node_installer::errors::InstallError;

fn entry(version: &str, lts: Option<&str>) -> ReleaseEntry {
    ReleaseEntry { version: version.to_string(), lts: lts.map(|s| s.to_string()) }
}

#[test]
fn parses_a_catalog_body() {
    let body =
        b"[{\"version\":\"v20.0.0\",\"lts\":false},{\"version\":\"v18.0.0\",\"lts\":\"Hydrogen\"}]";
    let entries = parse_catalog(body).unwrap();
    assert_eq!(entries.len(), 2);
    assert_eq!(entries[0].version, "v20.0.0");
    assert_eq!(entries[0].lts, None);
    assert_eq!(entries[1].version, "v18.0.0");
    assert_eq!(entries[1].lts, Some("Hydrogen".to_string()));
}

#[test]
fn parses_null_and_missing_lts_as_not_lts() {
    let body = b"[{\"version\":\"v21.0.0\",\"lts\":null},{\"version\":\"v19.0.0\"}]";
    let entries = parse_catalog(body).unwrap();
    assert_eq!(entries.len(), 2);
    assert_eq!(entries[0].lts, None);
    assert_eq!(entries[1].lts, None);
}

#[test]
fn rejects_a_malformed_body() {
    assert_eq!(parse_catalog(b"not json at all").unwrap_err(), InstallError::MalformedCatalog);
    assert_eq!(
        parse_catalog(b"{\"version\":\"v1.2.3\"}").unwrap_err(),
        InstallError::MalformedCatalog
    );
    assert_eq!(parse_catalog(b"[{\"lts\":\"Iron\"}]").unwrap_err(), InstallError::MalformedCatalog);
    assert_eq!(parse_catalog(b"[{\"version\":17}]").unwrap_err(), InstallError::MalformedCatalog);
}

#[test]
fn latest_is_the_first_entry_whatever_the_markers_say() {
    let with_lts_first = vec![entry("v18.0.0", Some("Hydrogen")), entry("v20.0.0", None)];
    assert_eq!(get_latest_version(&with_lts_first).unwrap(), "v18.0.0");
    let without_lts = vec![entry("v21.0.0", None), entry("v20.0.0", None)];
    assert_eq!(get_latest_version(&without_lts).unwrap(), "v21.0.0");
}

#[test]
fn latest_of_an_empty_catalog_fails() {
    let entries: Vec<ReleaseEntry> = Vec::new();
    assert_eq!(get_latest_version(&entries), Err(InstallError::EmptyCatalog));
}

#[test]
fn lts_is_the_first_marked_entry() {
    let entries = vec![
        entry("v21.0.0", None),
        entry("v20.9.0", Some("Iron")),
        entry("v18.18.0", Some("Hydrogen")),
    ];
    assert_eq!(get_lts_version(&entries).unwrap(), "v20.9.0");
}

#[test]
fn lts_without_any_marked_entry_fails() {
    let entries = vec![entry("v21.0.0", None), entry("v20.0.0", None)];
    assert_eq!(get_lts_version(&entries), Err(InstallError::NoLtsAvailable));
    let empty: Vec<ReleaseEntry> = Vec::new();
    assert_eq!(get_lts_version(&empty), Err(InstallError::NoLtsAvailable));
}

#[test]
fn parse_then_query_end_to_end() {
    let body = b"[{\"version\":\"v21.1.0\",\"lts\":false},{\"version\":\"v20.9.0\",\"lts\":\"Iron\"},{\"version\":\"v18.18.2\",\"lts\":\"Hydrogen\"}]";
    let entries = parse_catalog(body).unwrap();
    assert_eq!(get_latest_version(&entries).unwrap(), "v21.1.0");
    assert_eq!(get_lts_version(&entries).unwrap(), "v20.9.0");
}
