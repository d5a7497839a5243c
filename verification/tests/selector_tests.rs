use node_installer::catalog::ReleaseEntry;
use node_installer::selector::accept_specific;
use node_installer::selector::resolve_choice;
use node_installer::selector::selection_items;

fn catalog() -> Vec<ReleaseEntry> {
    vec![
        ReleaseEntry { version: "v20.0.0".to_string(), lts: None },
        ReleaseEntry { version: "v18.0.0".to_string(), lts: Some("Hydrogen".to_string()) },
    ]
}

#[test]
fn menu_items_in_fixed_order() {
    let items = selection_items(&"v18.0.0".to_string(), &"v20.0.0".to_string());
    assert_eq!(items.len(), 3);
    assert_eq!(items[0], "LTS (v18.0.0)");
    assert_eq!(items[1], "Latest (v20.0.0)");
    assert_eq!(items[2], "Specific Version");
}

#[test]
fn first_two_choices_settle_immediately() {
    let lts = "v18.0.0".to_string();
    let latest = "v20.0.0".to_string();
    assert_eq!(resolve_choice(0, &lts, &latest), Some("v18.0.0".to_string()));
    assert_eq!(resolve_choice(1, &lts, &latest), Some("v20.0.0".to_string()));
    assert_eq!(resolve_choice(2, &lts, &latest), None);
}

#[test]
fn specific_version_in_the_catalog_is_accepted_and_normalized() {
    let entries = catalog();
    let accepted = accept_specific(&entries, &"18.0.0".to_string());
    assert_eq!(accepted, Some("v18.0.0".to_string()));
}

#[test]
fn specific_version_not_in_the_catalog_is_rejected() {
    let entries = catalog();
    assert_eq!(accept_specific(&entries, &"99.0.0".to_string()), None);
}

#[test]
fn a_supplied_v_prefix_is_not_doubled() {
    // validation prepends `v`, so a `v`-prefixed input matches only a
    // catalog version that itself starts with `vv`
    let entries = vec![ReleaseEntry { version: "vv1.0.0".to_string(), lts: None }];
    let accepted = accept_specific(&entries, &"v1.0.0".to_string());
    assert_eq!(accepted, Some("v1.0.0".to_string()));
}

#[test]
fn plain_v_prefixed_input_is_rejected_against_a_plain_catalog() {
    let entries = catalog();
    assert_eq!(accept_specific(&entries, &"v18.0.0".to_string()), None);
}

#[test]
fn empty_input_is_rejected() {
    let entries = catalog();
    assert_eq!(accept_specific(&entries, &"".to_string()), None);
}
