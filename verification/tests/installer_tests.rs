use tunnlto::installer::{
    install_output_json, interpret_install_exit_code, wiresock_version_from_entries,
    InstallOutcome, UninstallEntry, INSTALL_CANCELLED_CODE,
};

#[test]
fn exit_code_zero_means_installed() {
    assert_eq!(interpret_install_exit_code(0), InstallOutcome::Installed);
}

#[test]
fn cancellation_code_means_cancelled() {
    assert_eq!(interpret_install_exit_code(INSTALL_CANCELLED_CODE), InstallOutcome::Cancelled);
    assert_eq!(interpret_install_exit_code(1602), InstallOutcome::Cancelled);
}

#[test]
fn other_exit_codes_mean_unknown_failure() {
    assert_eq!(interpret_install_exit_code(1), InstallOutcome::UnknownFailure);
    assert_eq!(interpret_install_exit_code(1603), InstallOutcome::UnknownFailure);
    assert_eq!(interpret_install_exit_code(-1), InstallOutcome::UnknownFailure);
}

#[test]
fn captured_output_encodes_as_json_array() {
    assert_eq!(install_output_json(&vec![]), "[]");
    assert_eq!(
        install_output_json(&vec![String::from("line one"), String::from("line two")]),
        "[\"line one\",\"line two\"]"
    );
}

#[test]
fn json_encoding_escapes_quotes() {
    assert_eq!(install_output_json(&vec![String::from("say \"hi\"")]), "[\"say \\\"hi\\\"\"]");
}

fn entry(name: &str, version: Option<&str>) -> UninstallEntry {
    UninstallEntry {
        display_name: String::from(name),
        display_version: version.map(String::from),
    }
}

#[test]
fn version_scan_finds_first_client_entry() {
    let entries = vec![
        entry("Some Other Product", Some("9.9")),
        entry("WireSock VPN Client x64", Some("1.2.37")),
        entry("WireSock VPN Client", Some("2.0.0")),
    ];
    assert_eq!(wiresock_version_from_entries(&entries), Some(String::from("1.2.37")));
}

#[test]
fn version_scan_passes_over_entry_without_version() {
    let entries = vec![
        entry("WireSock VPN Client x64", None),
        entry("WireSock VPN Client", Some("2.0.0")),
    ];
    assert_eq!(wiresock_version_from_entries(&entries), Some(String::from("2.0.0")));
}

#[test]
fn version_scan_without_client_entry_finds_nothing() {
    let entries = vec![entry("Another Product", Some("1.0")), entry("WireSock", None)];
    assert_eq!(wiresock_version_from_entries(&entries), None);
    assert_eq!(wiresock_version_from_entries(&vec![]), None);
}
