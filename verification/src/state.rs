//! The tunnel state machine and its store. The store owns the single shared
//! state; every mutation returns the snapshot that the caller publishes to
//! observers, so no field write can stay unpublished. The legal lifecycle is
//! stopped, starting, running, and back to stopped.

use vstd::prelude::*;
use vstd::string::StringExecFns;

use crate::text::{contains_seq, str_contains};

verus! {

/// Lifecycle position of the supervised process.
#[derive(Clone, Copy, PartialEq, Eq, Structural, Debug)]
pub enum WiresockStatus {
    Stopped,
    Starting,
    Running,
}

/// Whether the tunnel inside the process has come up.
#[derive(Clone, Copy, PartialEq, Eq, Structural, Debug)]
pub enum TunnelStatus {
    Disconnected,
    Connected,
}

impl WiresockStatus {
    /// The machine-readable status string surfaced to observers.
    pub fn code(&self) -> (r: &'static str)
        ensures
            r@ == spec_status_code(*self),
    {
        match self {
            WiresockStatus::Stopped => "STOPPED",
            WiresockStatus::Starting => "STARTING",
            WiresockStatus::Running => "RUNNING",
        }
    }
}

/// The status string of each lifecycle position.
pub open spec fn spec_status_code(s: WiresockStatus) -> Seq<char> {
    match s {
        WiresockStatus::Stopped => "STOPPED"@,
        WiresockStatus::Starting => "STARTING"@,
        WiresockStatus::Running => "RUNNING"@,
    }
}

impl TunnelStatus {
    /// The machine-readable status string surfaced to observers.
    pub fn code(&self) -> (r: &'static str)
        ensures
            r@ == spec_tunnel_code(*self),
    {
        match self {
            TunnelStatus::Disconnected => "DISCONNECTED",
            TunnelStatus::Connected => "CONNECTED",
        }
    }
}

/// The status string of each tunnel position.
pub open spec fn spec_tunnel_code(s: TunnelStatus) -> Seq<char> {
    match s {
        TunnelStatus::Disconnected => "DISCONNECTED"@,
        TunnelStatus::Connected => "CONNECTED"@,
    }
}

/// The failure taxonomy of the supervisor.
#[derive(Clone, Copy, PartialEq, Eq, Structural, Debug)]
pub enum SupervisorError {
    /// The install locator found no client installation.
    NotInstalled,
    /// Enable was called while an attempt was starting or running.
    AlreadyRunning,
    /// Creating the configuration directory or writing the file failed.
    ConfigWriteFailure,
    /// The external process could not be started.
    SpawnFailure,
    /// The spawned process could not be registered with the group tracker.
    TrackingFailure,
    /// Observing the process exit failed.
    WaitError,
}

/// The short machine-readable code of each error.
pub open spec fn spec_error_code(e: SupervisorError) -> Seq<char> {
    match e {
        SupervisorError::NotInstalled => "WIRESOCK_NOT_INSTALLED"@,
        SupervisorError::AlreadyRunning => "ALREADY_RUNNING"@,
        SupervisorError::ConfigWriteFailure => "CONFIG_WRITE_FAILURE"@,
        SupervisorError::SpawnFailure => "SPAWN_FAILURE"@,
        SupervisorError::TrackingFailure => "TRACKING_FAILURE"@,
        SupervisorError::WaitError => "WAIT_ERROR"@,
    }
}

impl SupervisorError {
    /// The short machine-readable code surfaced to the interface layer.
    pub fn code(&self) -> (r: &'static str)
        ensures
            r@ == spec_error_code(*self),
    {
        match self {
            SupervisorError::NotInstalled => "WIRESOCK_NOT_INSTALLED",
            SupervisorError::AlreadyRunning => "ALREADY_RUNNING",
            SupervisorError::ConfigWriteFailure => "CONFIG_WRITE_FAILURE",
            SupervisorError::SpawnFailure => "SPAWN_FAILURE",
            SupervisorError::TrackingFailure => "TRACKING_FAILURE",
            SupervisorError::WaitError => "WAIT_ERROR",
        }
    }
}

/// The full shared state of one supervisor.
pub struct WiresockState {
    pub tunnel_id: String,
    pub wiresock_status: WiresockStatus,
    pub tunnel_status: TunnelStatus,
    pub logs: Vec<String>,
}

/// View of a [`WiresockState`].
#[verifier::ext_equal]
pub struct StateView {
    pub tunnel_id: Seq<char>,
    pub wiresock_status: WiresockStatus,
    pub tunnel_status: TunnelStatus,
    pub logs: Seq<Seq<char>>,
}

impl View for WiresockState {
    type V = StateView;

    open spec fn view(&self) -> StateView {
        StateView {
            tunnel_id: self.tunnel_id@,
            wiresock_status: self.wiresock_status,
            tunnel_status: self.tunnel_status,
            logs: self.logs.deep_view(),
        }
    }
}

/// The name of the event that carries each published state snapshot.
pub open spec fn spec_state_event_name() -> Seq<char> {
    "wiresock_state"@
}

/// The name under which every state snapshot is published to observers.
pub fn state_event_name() -> (r: &'static str)
    ensures
        r@ == spec_state_event_name(),
{
    "wiresock_state"
}

/// The defaults at process start: stopped, disconnected, no logs.
pub open spec fn spec_initial_state() -> StateView {
    StateView {
        tunnel_id: Seq::empty(),
        wiresock_status: WiresockStatus::Stopped,
        tunnel_status: TunnelStatus::Disconnected,
        logs: Seq::empty(),
    }
}

/// The marker the external process prints when the tunnel has come up.
pub open spec fn started_marker() -> Seq<char> {
    "Tunnel has started"@
}

/// The terminal log line recorded when the process has exited.
pub open spec fn exit_log_line() -> Seq<char> {
    "Tunnel Disabled. Wiresock process stopped"@
}

/// Accepting an enable request: starting, disconnected, fresh logs, the new
/// tunnel id recorded.
pub open spec fn spec_begin_enable(s: StateView, id: Seq<char>) -> StateView {
    StateView {
        tunnel_id: id,
        wiresock_status: WiresockStatus::Starting,
        tunnel_status: TunnelStatus::Disconnected,
        logs: Seq::empty(),
    }
}

/// The process was spawned: the attempt is now running.
pub open spec fn spec_mark_running(s: StateView) -> StateView {
    StateView { wiresock_status: WiresockStatus::Running, ..s }
}

/// One line of process output, classified: blank lines are discarded; any
/// other line is appended to the logs, and a line carrying the started
/// marker connects the tunnel.
pub open spec fn spec_record_line(s: StateView, line: Seq<char>) -> StateView {
    if line.len() == 0 {
        s
    } else {
        StateView {
            tunnel_status: if contains_seq(line, started_marker()) {
                TunnelStatus::Connected
            } else {
                s.tunnel_status
            },
            logs: s.logs.push(line),
            ..s
        }
    }
}

/// The process exited: stopped, disconnected, and a terminal log line.
pub open spec fn spec_process_exited(s: StateView) -> StateView {
    StateView {
        wiresock_status: WiresockStatus::Stopped,
        tunnel_status: TunnelStatus::Disconnected,
        logs: s.logs.push(exit_log_line()),
        ..s
    }
}

/// The guard around one enable attempt: back to stopped and disconnected,
/// keeping the logs of the attempt readable for diagnosis.
pub open spec fn spec_reset(s: StateView) -> StateView {
    StateView {
        wiresock_status: WiresockStatus::Stopped,
        tunnel_status: TunnelStatus::Disconnected,
        ..s
    }
}

impl WiresockState {
    /// A fresh state, as created once at process start.
    pub fn new() -> (s: WiresockState)
        ensures
            s@ == spec_initial_state(),
    {
        let s = WiresockState {
            tunnel_id: String::new(),
            wiresock_status: WiresockStatus::Stopped,
            tunnel_status: TunnelStatus::Disconnected,
            logs: Vec::new(),
        };
        proof {
            assert(s@ =~~= spec_initial_state());
        }
        s
    }
}

/// Copy a log sequence, line by line.
fn clone_logs(logs: &Vec<String>) -> (r: Vec<String>)
    ensures
        r.deep_view() == logs.deep_view(),
{
    let mut r: Vec<String> = Vec::new();
    let mut i: usize = 0;
    proof {
        assert(r.deep_view() =~= logs.deep_view().take(0));
    }
    while i < logs.len()
        invariant
            i <= logs.len(),
            r.deep_view() == logs.deep_view().take(i as int),
        decreases logs.len() - i,
    {
        let line = logs[i].clone();
        proof {
            assert(line@ == logs.deep_view()[i as int]);
        }
        let ghost pre = r.deep_view();
        let ghost prev = r@;
        r.push(line);
        proof {
            assert(pre.len() == i as int);
            assert(prev.len() == i as int);
            assert forall|k: int| 0 <= k < r.deep_view().len() implies r.deep_view()[k]
                == logs.deep_view().take(i + 1)[k] by {
                assert(r.deep_view()[k] == r@[k].deep_view());
                if k < i {
                    assert(r@[k] == prev[k]);
                    assert(pre[k] == prev[k].deep_view());
                    assert(pre[k] == logs.deep_view().take(i as int)[k]);
                } else {
                    assert(r@[k] == line);
                }
            }
            assert(r.deep_view() =~= logs.deep_view().take(i + 1));
        }
        i = i + 1;
    }
    proof {
        assert(logs.deep_view().take(logs.len() as int) =~= logs.deep_view());
    }
    r
}

/// The process-wide state store. It owns the single shared state; each
/// mutation applies one transition of the state machine and returns the
/// snapshot the caller must publish to observers before going on, so
/// publications follow mutations one to one and in order.
pub struct WiresockStateStore {
    state: WiresockState,
}

impl View for WiresockStateStore {
    type V = StateView;

    closed spec fn view(&self) -> StateView {
        self.state@
    }
}

impl WiresockStateStore {
    /// The store as created once at process start.
    pub fn new() -> (s: WiresockStateStore)
        ensures
            s@ == spec_initial_state(),
    {
        WiresockStateStore { state: WiresockState::new() }
    }

    /// A copy of the current state, for on-demand queries by observers that
    /// missed earlier publications.
    pub fn snapshot(&self) -> (s: WiresockState)
        ensures
            s@ == self@,
    {
        let s = WiresockState {
            tunnel_id: self.state.tunnel_id.clone(),
            wiresock_status: self.state.wiresock_status,
            tunnel_status: self.state.tunnel_status,
            logs: clone_logs(&self.state.logs),
        };
        proof {
            assert(s@ =~~= self@);
        }
        s
    }

    /// Accept an enable request only when stopped: the machine moves to
    /// starting with fresh logs. A request in any other position is
    /// rejected outright, with no state change at all.
    pub fn begin_enable(&mut self, tunnel_id: &str) -> (r: Result<
        WiresockState,
        SupervisorError,
    >)
        ensures
            old(self)@.wiresock_status != WiresockStatus::Stopped ==> (r matches Err(e) && e
                == SupervisorError::AlreadyRunning && final(self)@ == old(self)@),
            old(self)@.wiresock_status == WiresockStatus::Stopped ==> final(self)@
                == spec_begin_enable(old(self)@, tunnel_id@) && (r matches Ok(snap) && snap@
                == final(self)@),
    {
        match self.state.wiresock_status {
            WiresockStatus::Stopped => {
                self.state.tunnel_id = String::from_str(tunnel_id);
                self.state.wiresock_status = WiresockStatus::Starting;
                self.state.tunnel_status = TunnelStatus::Disconnected;
                self.state.logs = Vec::new();
                proof {
                    assert(self@ =~~= spec_begin_enable(old(self)@, tunnel_id@));
                }
                Ok(self.snapshot())
            },
            _ => Err(SupervisorError::AlreadyRunning),
        }
    }

    /// The external process was spawned: the attempt is now running.
    pub fn mark_running(&mut self) -> (snap: WiresockState)
        requires
            old(self)@.wiresock_status == WiresockStatus::Starting,
        ensures
            final(self)@ == spec_mark_running(old(self)@),
            snap@ == final(self)@,
    {
        self.state.wiresock_status = WiresockStatus::Running;
        proof {
            assert(self@ =~~= spec_mark_running(old(self)@));
        }
        self.snapshot()
    }

    /// Classify one line of process output. A blank line is discarded with
    /// no state change and nothing to publish; any other line is appended
    /// to the logs, connects the tunnel when it carries the started marker,
    /// and yields a snapshot to publish. The policy here is deliberate:
    /// lines are classified for as long as the process streams, without a
    /// bound, and the started marker is the only content that moves the
    /// tunnel status — no other substring alters state.
    pub fn record_output_line(&mut self, line: &str) -> (r: Option<WiresockState>)
        ensures
            final(self)@ == spec_record_line(old(self)@, line@),
            line@.len() == 0 ==> r is None && final(self)@ == old(self)@,
            line@.len() > 0 ==> (r matches Some(snap) && snap@ == final(self)@),
    {
        if line.is_empty() {
            None
        } else {
            if str_contains(line, "Tunnel has started") {
                self.state.tunnel_status = TunnelStatus::Connected;
            }
            self.state.logs.push(String::from_str(line));
            proof {
                assert(self.state.logs.deep_view() =~= old(self).state.logs.deep_view().push(
                    line@,
                ));
                assert(self@ =~~= spec_record_line(old(self)@, line@));
            }
            Some(self.snapshot())
        }
    }

    /// The external process exited, however that came about: back to
    /// stopped and disconnected, with a terminal log line appended.
    pub fn process_exited(&mut self) -> (snap: WiresockState)
        ensures
            final(self)@ == spec_process_exited(old(self)@),
            snap@ == final(self)@,
    {
        self.state.wiresock_status = WiresockStatus::Stopped;
        self.state.tunnel_status = TunnelStatus::Disconnected;
        self.state.logs.push(String::from_str("Tunnel Disabled. Wiresock process stopped"));
        proof {
            assert(self.state.logs.deep_view() =~= old(self).state.logs.deep_view().push(
                exit_log_line(),
            ));
            assert(self@ =~~= spec_process_exited(old(self)@));
        }
        self.snapshot()
    }

    /// The guard that closes every enable attempt: whatever happened, the
    /// machine is left stopped and disconnected. The logs of the attempt
    /// are kept for diagnosis; they are cleared only by the next accepted
    /// enable request.
    pub fn reset_after_attempt(&mut self) -> (snap: WiresockState)
        ensures
            final(self)@ == spec_reset(old(self)@),
            snap@ == final(self)@,
    {
        self.state.wiresock_status = WiresockStatus::Stopped;
        self.state.tunnel_status = TunnelStatus::Disconnected;
        proof {
            assert(self@ =~~= spec_reset(old(self)@));
        }
        self.snapshot()
    }
}

/// The lifecycle moves only along stopped, starting, running and back to
/// stopped: an accepted enable starts, a spawn runs, an exit or the guard
/// stops — and classifying output never moves the lifecycle at all.
pub proof fn lemma_lifecycle_transitions(s: StateView, id: Seq<char>, line: Seq<char>)
    ensures
        spec_begin_enable(s, id).wiresock_status == WiresockStatus::Starting,
        spec_mark_running(s).wiresock_status == WiresockStatus::Running,
        spec_process_exited(s).wiresock_status == WiresockStatus::Stopped,
        spec_reset(s).wiresock_status == WiresockStatus::Stopped,
        spec_record_line(s, line).wiresock_status == s.wiresock_status,
        spec_record_line(s, line).tunnel_id == s.tunnel_id,
{
}

/// However far an enable attempt got before failing, the closing guard
/// leaves the machine stopped and disconnected without wiping the attempt's
/// logs; and the next accepted enable request starts with no residual log
/// lines, because logs are cleared on that transition and on no other.
pub proof fn lemma_failed_attempt_reset(mid: StateView, next_id: Seq<char>)
    ensures
        spec_reset(mid).wiresock_status == WiresockStatus::Stopped,
        spec_reset(mid).tunnel_status == TunnelStatus::Disconnected,
        spec_reset(mid).logs == mid.logs,
        spec_begin_enable(spec_reset(mid), next_id).logs == Seq::<Seq<char>>::empty(),
{
}

} // verus!
