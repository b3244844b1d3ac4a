use tunnlto::launch::{
    client_executable_path, config_dir_segments, config_file_name, kill_command, run_args,
};

#[test]
fn config_location_is_fixed() {
    let segments = config_dir_segments();
    assert_eq!(segments, vec!["AppData", "Local", "TunnlTo"]);
    assert_eq!(config_file_name(), "tunnel.conf");
}

#[test]
fn client_executable_is_under_bin() {
    assert_eq!(
        client_executable_path("C:\\Program Files\\WireSock"),
        "C:\\Program Files\\WireSock/bin/wiresock-client.exe"
    );
}

#[test]
fn run_arguments_carry_config_and_log_level() {
    let args = run_args("C:\\cfg\\tunnel.conf", "debug");
    assert_eq!(args, vec!["run", "-config", "C:\\cfg\\tunnel.conf", "-log-level", "debug"]);
}

#[test]
fn kill_is_forceful_by_name_over_the_tree() {
    let (program, args) = kill_command();
    assert_eq!(program, "taskkill");
    assert_eq!(args, vec!["/F", "/IM", "wiresock-client.exe", "/T"]);
}
