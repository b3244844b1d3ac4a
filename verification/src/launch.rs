//! Decisions around launching and stopping the external client process:
//! where the configuration file lives under the user's home directory,
//! where the client executable stands under its reported install
//! directory, and the exact program and argument lists of the run and
//! kill commands. The surrounding process work — creating directories,
//! writing the file, spawning, waiting — belongs to the embedding
//! application.

use vstd::prelude::*;
use vstd::string::StringExecFns;

verus! {

/// The directory segments, under the user's home directory, of the
/// directory that holds the configuration file.
pub open spec fn spec_config_dir_segments() -> Seq<Seq<char>> {
    seq!["AppData"@, "Local"@, "TunnlTo"@]
}

/// The name of the configuration file inside that directory.
pub open spec fn spec_config_file_name() -> Seq<char> {
    "tunnel.conf"@
}

/// The directory, segment by segment under the user's home directory, in
/// which the configuration file is written.
pub fn config_dir_segments() -> (r: Vec<String>)
    ensures
        r.deep_view() == spec_config_dir_segments(),
{
    let mut r: Vec<String> = Vec::new();
    r.push(String::from_str("AppData"));
    r.push(String::from_str("Local"));
    r.push(String::from_str("TunnlTo"));
    proof {
        assert(r.deep_view() =~= spec_config_dir_segments());
    }
    r
}

/// The name of the configuration file.
pub fn config_file_name() -> (r: String)
    ensures
        r@ == spec_config_file_name(),
{
    String::from_str("tunnel.conf")
}

/// The path of the client executable under the installation directory the
/// install locator reported.
pub open spec fn spec_client_executable_path(install_dir: Seq<char>) -> Seq<char> {
    install_dir + "/bin/wiresock-client.exe"@
}

/// The full path of the client executable, given the reported install
/// directory.
pub fn client_executable_path(install_dir: &str) -> (r: String)
    ensures
        r@ == spec_client_executable_path(install_dir@),
{
    let mut r = String::from_str(install_dir);
    r.append("/bin/wiresock-client.exe");
    r
}

/// The argument list the client process is started with: the run
/// subcommand, the configuration path flag, and the log level flag.
pub open spec fn spec_run_args(config_path: Seq<char>, log_level: Seq<char>) -> Seq<Seq<char>> {
    seq!["run"@, "-config"@, config_path, "-log-level"@, log_level]
}

/// The arguments of one run of the client process.
pub fn run_args(config_path: &str, log_level: &str) -> (r: Vec<String>)
    ensures
        r.deep_view() == spec_run_args(config_path@, log_level@),
{
    let mut r: Vec<String> = Vec::new();
    r.push(String::from_str("run"));
    r.push(String::from_str("-config"));
    r.push(String::from_str(config_path));
    r.push(String::from_str("-log-level"));
    r.push(String::from_str(log_level));
    proof {
        assert(r.deep_view() =~= spec_run_args(config_path@, log_level@));
    }
    r
}

/// The program that delivers the forceful stop.
pub open spec fn spec_kill_program() -> Seq<char> {
    "taskkill"@
}

/// The kill is forceful, by executable name rather than by handle — so it
/// works even when the handle was lost — and covers the process tree.
pub open spec fn spec_kill_args() -> Seq<Seq<char>> {
    seq!["/F"@, "/IM"@, "wiresock-client.exe"@, "/T"@]
}

/// The command that stops the external client process. Disabling performs
/// no state transition of its own: the reset comes from the exit handling
/// of the enable flow once the process is gone, so a disable while already
/// stopped changes nothing and logs nothing.
pub fn kill_command() -> (r: (String, Vec<String>))
    ensures
        r.0@ == spec_kill_program(),
        r.1.deep_view() == spec_kill_args(),
{
    let program = String::from_str("taskkill");
    let mut args: Vec<String> = Vec::new();
    args.push(String::from_str("/F"));
    args.push(String::from_str("/IM"));
    args.push(String::from_str("wiresock-client.exe"));
    args.push(String::from_str("/T"));
    proof {
        assert(args.deep_view() =~= spec_kill_args());
    }
    (program, args)
}

} // verus!
