use std::collections::HashMap;

use node_installer::installer::Installer;
use node_installer::plan::FsAction;

const EXPECTED_LINKS: [&str; 9] = [
    "/usr/bin/node",
    "/usr/bin/npm",
    "/usr/bin/npx",
    "/usr/sbin/node",
    "/usr/sbin/npm",
    "/usr/sbin/npx",
    "/usr/local/bin/node",
    "/usr/local/bin/npm",
    "/usr/local/bin/npx",
];

const EXPECTED_TARGETS: [&str; 9] = [
    "/opt/nodejs/bin/node",
    "/opt/nodejs/bin/npm",
    "/opt/nodejs/bin/npx",
    "/opt/nodejs/bin/node",
    "/opt/nodejs/bin/npm",
    "/opt/nodejs/bin/npx",
    "/opt/nodejs/bin/node",
    "/opt/nodejs/bin/npm",
    "/opt/nodejs/bin/npx",
];

#[test]
fn fresh_install_plan_creates_extracts_and_links() {
    let installer = Installer::new("Linux", "x64");
    let plan = installer.install(false, &"v20.0.0".to_string());
    assert_eq!(plan.len(), 11);
    assert!(matches!(plan[0], FsAction::CreateRoot));
    match &plan[1] {
        FsAction::Extract { version } => assert_eq!(version.as_str(), "v20.0.0"),
        other => panic!("expected an extract action, got {:?}", action_name(other)),
    }
    for k in 0..9 {
        match &plan[2 + k] {
            FsAction::CreateLink { path, target } => {
                assert_eq!(path.as_str(), EXPECTED_LINKS[k]);
                assert_eq!(target.as_str(), EXPECTED_TARGETS[k]);
            }
            other => panic!("expected a link action, got {:?}", action_name(other)),
        }
    }
}

#[test]
fn reinstall_plan_uninstalls_first() {
    let installer = Installer::new("Linux", "x64");
    let plan = installer.install(true, &"v18.0.0".to_string());
    assert_eq!(plan.len(), 21);
    for k in 0..9 {
        match &plan[k] {
            FsAction::RemoveLink { path } => assert_eq!(path.as_str(), EXPECTED_LINKS[k]),
            other => panic!("expected an unlink action, got {:?}", action_name(other)),
        }
    }
    assert!(matches!(plan[9], FsAction::RemoveRoot));
    assert!(matches!(plan[10], FsAction::CreateRoot));
}

struct FakeHost {
    root: Option<String>,
    links: HashMap<String, String>,
}

fn perform(host: &mut FakeHost, plan: &[FsAction]) {
    for action in plan {
        match action {
            FsAction::RemoveLink { path } => {
                host.links.remove(path);
            }
            FsAction::RemoveRoot => {
                host.root = None;
            }
            FsAction::CreateRoot => {
                host.root = Some(String::new());
            }
            FsAction::Extract { version } => {
                host.root = Some(version.clone());
            }
            FsAction::CreateLink { path, target } => {
                host.links.insert(path.clone(), target.clone());
            }
        }
    }
}

#[test]
fn installing_twice_round_trips() {
    let installer = Installer::new("Linux", "x64");
    let mut host = FakeHost { root: None, links: HashMap::new() };

    let first = installer.install(host.root.is_some(), &"v18.0.0".to_string());
    perform(&mut host, &first);
    assert_eq!(host.root.as_deref(), Some("v18.0.0"));

    let second = installer.install(host.root.is_some(), &"v20.0.0".to_string());
    perform(&mut host, &second);

    assert_eq!(host.root.as_deref(), Some("v20.0.0"));
    assert_eq!(host.links.len(), 9);
    for k in 0..9 {
        let target = &host.links[EXPECTED_LINKS[k]];
        assert_eq!(target.as_str(), EXPECTED_TARGETS[k]);
        assert!(target.starts_with("/opt/nodejs/bin/"));
    }
}

fn action_name(action: &FsAction) -> &'static str {
    match action {
        FsAction::RemoveLink { .. } => "remove link",
        FsAction::RemoveRoot => "remove root",
        FsAction::CreateRoot => "create root",
        FsAction::Extract { .. } => "extract",
        FsAction::CreateLink { .. } => "create link",
    }
}
