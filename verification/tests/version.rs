use pi_rs::version;

#[test]
fn lib_version_is_nonempty() {
    assert!(!version().is_empty());
}

#[test]
fn lib_version_snapshot() {
    assert_eq!(version(), "0.1.0-dev");
}

#[test]
fn host_version_matches_package() {
    assert_eq!(pi_rs::host::version(), "0.1.0-dev");
}

#[test]
fn library_links() {
    assert_eq!(pi_rs::version(), "0.1.0-dev");
}

#[test]
fn version_is_nonempty() {
    assert!(!pi_rs::host::version().is_empty());
}
