//! The decisions of one session: open the control device, locate the
//! process, select it as the driver's target, then resolve its base
//! address. The caller performs each action and reports what came of it;
//! any failure ends the session.
use crate::channel::{Command, ChannelRequest};
use crate::error::SessionError;
use crate::locate::{locate_outcome, locate_pid, ProcessEntry};
use crate::maps::{first_base, lines_view, resolve_base};
use vstd::prelude::*;

verus! {

/// What a session is set up with.
pub struct SessionConfig {
    /// Path of the driver's control device.
    pub device_path: String,
    /// Exact name of the process to work on.
    pub process_name: String,
}

/// The process that a session works on.
pub struct TargetProcess {
    pub pid: u16,
    /// Canonical path of the process's executable.
    pub exe_path: String,
    /// Lowest address of the executable's mapping, once resolved.
    pub base_address: Option<usize>,
}

pub enum SessionState {
    /// Waiting for the control device to open.
    Opening,
    /// Waiting for the list of running processes.
    Locating,
    /// Waiting for the driver to accept the target.
    Selecting { pid: u16 },
    /// Waiting for the path of the process's executable.
    ResolvingExe { pid: u16 },
    /// Waiting for the lines of the process's mapping table.
    ScanningMaps { pid: u16, exe_path: String },
    /// The target is resolved; requests on its memory can follow.
    Ready { target: TargetProcess },
    /// The session ended with an error.
    Failed { error: SessionError },
}

/// What came of the last action.
pub enum SessionEvent {
    DeviceOpened { ok: bool },
    ProcessesListed { processes: Vec<ProcessEntry> },
    /// The host's return value of a control request, and its error code.
    RequestDone { ret: i32, errno: i32 },
    /// The executable's path, or `None` when the link could not be read.
    ExePathRead { path: Option<String> },
    /// The mapping table's lines, or `None` when reading them failed.
    MapsRead { lines: Option<Vec<String>> },
}

/// What the caller is to do next.
pub enum SessionAction {
    OpenDevice { path: String },
    ListProcesses,
    Send { request: ChannelRequest },
    ReadExePath { pid: u16 },
    ReadMaps { pid: u16 },
    /// The target is ready.
    Finish,
    /// The session ends with this error; nothing more is sent.
    Abort { error: SessionError },
    /// The event was not the one awaited; the state is unchanged.
    Ignore,
}

/// The select-target request for `pid`.
pub open spec fn is_select_request(a: SessionAction, pid: u16) -> bool {
    a matches SessionAction::Send { request } && request.magic == crate::communication::IOCTL_MAGIC
        && request.number == Command::SelectTarget { pid }.number()
        && request.payload@ == Command::SelectTarget { pid }.payload()
}

/// The session fails with `e`.
pub open spec fn fails_with(n: SessionState, a: SessionAction, e: SessionError) -> bool {
    n == SessionState::Failed { error: e } && a == SessionAction::Abort { error: e }
}

/// One step of a session: from state `s`, event `e` leads to state `n` and
/// action `a`.
pub open spec fn transition(
    config: SessionConfig,
    s: SessionState,
    e: SessionEvent,
    n: SessionState,
    a: SessionAction,
) -> bool {
    match s {
        SessionState::Opening => match e {
            SessionEvent::DeviceOpened { ok } => if ok {
                n == SessionState::Locating && a == SessionAction::ListProcesses
            } else {
                fails_with(n, a, SessionError::DeviceOpenFailed)
            },
            _ => n == s && a == SessionAction::Ignore,
        },
        SessionState::Locating => match e {
            SessionEvent::ProcessesListed { processes } => match n {
                SessionState::Selecting { pid } => locate_outcome(
                    processes@,
                    config.process_name@,
                    Ok(pid),
                ) && is_select_request(a, pid),
                SessionState::Failed { error } => locate_outcome(
                    processes@,
                    config.process_name@,
                    Err(error),
                ) && a == SessionAction::Abort { error },
                _ => false,
            },
            _ => n == s && a == SessionAction::Ignore,
        },
        SessionState::Selecting { pid } => match e {
            SessionEvent::RequestDone { ret, errno } => if ret == 0 {
                n == SessionState::ResolvingExe { pid } && a == SessionAction::ReadExePath { pid }
            } else {
                fails_with(n, a, SessionError::IoctlFailed(errno))
            },
            _ => n == s && a == SessionAction::Ignore,
        },
        SessionState::ResolvingExe { pid } => match e {
            SessionEvent::ExePathRead { path } => match path {
                Some(p) => n == SessionState::ScanningMaps { pid, exe_path: p }
                    && a == SessionAction::ReadMaps { pid },
                None => fails_with(n, a, SessionError::ExePathResolutionFailed),
            },
            _ => n == s && a == SessionAction::Ignore,
        },
        SessionState::ScanningMaps { pid, exe_path } => match e {
            SessionEvent::MapsRead { lines } => match lines {
                Some(ls) => match first_base(lines_view(ls@), exe_path@) {
                    Some(b) => n == SessionState::Ready {
                        target: TargetProcess { pid, exe_path, base_address: Some(b) },
                    } && a == SessionAction::Finish,
                    None => fails_with(n, a, SessionError::BaseAddressNotFound),
                },
                None => fails_with(n, a, SessionError::MapsParseFailed),
            },
            _ => n == s && a == SessionAction::Ignore,
        },
        SessionState::Ready { .. } => n == s && a == SessionAction::Finish,
        SessionState::Failed { error } => fails_with(n, a, error),
    }
}

/// The first state of a session, and its first action: open the device.
pub fn start(config: &SessionConfig) -> (r: (SessionState, SessionAction))
    ensures
        r.0 == SessionState::Opening,
        r.1 matches SessionAction::OpenDevice { path } && path@ == config.device_path@,
{
    (SessionState::Opening, SessionAction::OpenDevice { path: config.device_path.clone() })
}

/// Takes a session one step on: the next state and action from the current
/// state and what came of the last action.
pub fn step(config: &SessionConfig, s: SessionState, e: SessionEvent) -> (r: (
    SessionState,
    SessionAction,
))
    ensures
        transition(*config, s, e, r.0, r.1),
{
    match s {
        SessionState::Opening => match e {
            SessionEvent::DeviceOpened { ok } => {
                if ok {
                    (SessionState::Locating, SessionAction::ListProcesses)
                } else {
                    fail(SessionError::DeviceOpenFailed)
                }
            },
            _ => (SessionState::Opening, SessionAction::Ignore),
        },
        SessionState::Locating => match e {
            SessionEvent::ProcessesListed { processes } => {
                match locate_pid(&processes, config.process_name.as_str()) {
                    Ok(pid) => {
                        let request = Command::SelectTarget { pid }.request();
                        (SessionState::Selecting { pid }, SessionAction::Send { request })
                    },
                    Err(error) => fail(error),
                }
            },
            _ => (SessionState::Locating, SessionAction::Ignore),
        },
        SessionState::Selecting { pid } => match e {
            SessionEvent::RequestDone { ret, errno } => {
                if ret == 0 {
                    (SessionState::ResolvingExe { pid }, SessionAction::ReadExePath { pid })
                } else {
                    fail(SessionError::IoctlFailed(errno))
                }
            },
            _ => (SessionState::Selecting { pid }, SessionAction::Ignore),
        },
        SessionState::ResolvingExe { pid } => match e {
            SessionEvent::ExePathRead { path } => match path {
                Some(p) => (
                    SessionState::ScanningMaps { pid, exe_path: p },
                    SessionAction::ReadMaps { pid },
                ),
                None => fail(SessionError::ExePathResolutionFailed),
            },
            _ => (SessionState::ResolvingExe { pid }, SessionAction::Ignore),
        },
        SessionState::ScanningMaps { pid, exe_path } => match e {
            SessionEvent::MapsRead { lines } => match lines {
                Some(ls) => match resolve_base(&ls, exe_path.as_str()) {
                    Ok(b) => (
                        SessionState::Ready {
                            target: TargetProcess { pid, exe_path, base_address: Some(b) },
                        },
                        SessionAction::Finish,
                    ),
                    Err(error) => fail(error),
                },
                None => fail(SessionError::MapsParseFailed),
            },
            _ => (SessionState::ScanningMaps { pid, exe_path }, SessionAction::Ignore),
        },
        SessionState::Ready { target } => (SessionState::Ready { target }, SessionAction::Finish),
        SessionState::Failed { error } => fail(error),
    }
}

fn fail(error: SessionError) -> (r: (SessionState, SessionAction))
    ensures
        fails_with(r.0, r.1, error),
{
    (SessionState::Failed { error }, SessionAction::Abort { error })
}

/// When the control device does not open, the session fails with
/// `DeviceOpenFailed` and, whatever is reported afterwards, every action is
/// that abort: no request is ever sent.
pub proof fn lemma_open_failure_sends_nothing(
    config: SessionConfig,
    states: Seq<SessionState>,
    events: Seq<SessionEvent>,
    actions: Seq<SessionAction>,
)
    requires
        states.len() == events.len() + 1,
        actions.len() == events.len(),
        events.len() > 0,
        states[0] == SessionState::Opening,
        events[0] == (SessionEvent::DeviceOpened { ok: false }),
        forall|k: int|
            0 <= k < events.len() ==> transition(
                config,
                #[trigger] states[k],
                events[k],
                states[k + 1],
                actions[k],
            ),
    ensures
        forall|k: int|
            0 <= k < actions.len() ==> #[trigger] actions[k] == (SessionAction::Abort {
                error: SessionError::DeviceOpenFailed,
            }),
{
    let failed = SessionState::Failed { error: SessionError::DeviceOpenFailed };
    assert forall|k: int| 0 <= k < actions.len() implies #[trigger] actions[k] == (
    SessionAction::Abort { error: SessionError::DeviceOpenFailed }) && states[k + 1] == failed by {
        lemma_failed_from(config, states, events, actions, k);
    }
}

proof fn lemma_failed_from(
    config: SessionConfig,
    states: Seq<SessionState>,
    events: Seq<SessionEvent>,
    actions: Seq<SessionAction>,
    k: int,
)
    requires
        0 <= k < events.len(),
        states.len() == events.len() + 1,
        actions.len() == events.len(),
        states[0] == SessionState::Opening,
        events[0] == (SessionEvent::DeviceOpened { ok: false }),
        forall|j: int|
            0 <= j < events.len() ==> transition(
                config,
                #[trigger] states[j],
                events[j],
                states[j + 1],
                actions[j],
            ),
    ensures
        states[k + 1] == (SessionState::Failed { error: SessionError::DeviceOpenFailed }),
        actions[k] == (SessionAction::Abort { error: SessionError::DeviceOpenFailed }),
    decreases k,
{
    assert(transition(config, states[k], events[k], states[k + 1], actions[k]));
    if k > 0 {
        lemma_failed_from(config, states, events, actions, k - 1);
    }
}

} // verus!
