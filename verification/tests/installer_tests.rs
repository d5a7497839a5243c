use node_installer::errors::InstallError;
use node_installer::installer::check_status;
use node_installer::installer::Installer;

#[test]
fn platform_values_are_lower_cased() {
    let installer = Installer::new("Linux", "X86_64");
    assert_eq!(installer.system().as_str(), "linux");
    assert_eq!(installer.machine().as_str(), "x86_64");
}

#[test]
fn the_install_root_is_fixed() {
    let installer = Installer::new("Linux", "x86_64");
    assert_eq!(installer.install_root().as_str(), "/opt/nodejs");
}

#[test]
fn archive_file_name_is_built_from_version_and_platform() {
    let installer = Installer::new("Linux", "x64");
    assert_eq!(installer.archive_file_name("v20.0.0"), "node-v20.0.0-linux-x64.tar.gz");
}

#[test]
fn urls_are_built_from_the_fixed_base() {
    let installer = Installer::new("Linux", "x64");
    assert_eq!(
        installer.index_url(),
        "https://unofficial-builds.nodejs.org/download/release/index.json"
    );
    let file = installer.archive_file_name("v18.0.0");
    assert_eq!(
        installer.download_url("v18.0.0", &file),
        "https://unofficial-builds.nodejs.org/download/release/v18.0.0/node-v18.0.0-linux-x64.tar.gz"
    );
}

#[test]
fn entry_destinations_stay_under_the_install_root() {
    let installer = Installer::new("Linux", "x64");
    assert_eq!(installer.entry_dest_path("node-v20.0.0-linux-x64/bin/node"), "/opt/nodejs/bin/node");
    assert_eq!(installer.entry_dest_path("top/../../etc/passwd"), "/opt/nodejs/etc/passwd");
    assert_eq!(installer.entry_dest_path("top"), "/opt/nodejs");
}

#[test]
fn only_status_200_is_success() {
    assert!(check_status(200).is_ok());
    assert_eq!(check_status(404), Err(InstallError::UnexpectedStatus(404)));
    assert_eq!(check_status(500), Err(InstallError::UnexpectedStatus(500)));
    assert_eq!(check_status(301), Err(InstallError::UnexpectedStatus(301)));
}

#[test]
fn error_labels_are_stable() {
    assert_eq!(InstallError::UnexpectedStatus(404).describe(), "unexpected response status");
    assert_eq!(InstallError::EmptyCatalog.describe(), "release catalog is empty");
    assert_eq!(InstallError::NoLtsAvailable.describe(), "no long-term-support release available");
}
