use procmem::error::SessionError;
use procmem::locate::ProcessEntry;
use procmem::session::{start, step, SessionAction, SessionConfig, SessionEvent, SessionState};

fn config() -> SessionConfig {
    SessionConfig { device_path: "/dev/my_module".to_string(), process_name: "firefox".to_string() }
}

#[test]
fn session_starts_by_opening_the_device() {
    let (state, action) = start(&config());
    assert!(matches!(state, SessionState::Opening));
    assert!(matches!(action, SessionAction::OpenDevice { ref path } if path == "/dev/my_module"));
}

#[test]
fn open_failure_aborts_and_sends_nothing() {
    let cfg = config();
    let (state, _) = start(&cfg);
    let (mut state, action) = step(&cfg, state, SessionEvent::DeviceOpened { ok: false });
    assert!(matches!(action, SessionAction::Abort { error: SessionError::DeviceOpenFailed }));
    let later = vec![
        SessionEvent::ProcessesListed { processes: vec![ProcessEntry { pid: 7, name: "firefox".to_string() }] },
        SessionEvent::RequestDone { ret: 0, errno: 0 },
        SessionEvent::ExePathRead { path: Some("/usr/bin/firefox".to_string()) },
    ];
    for event in later {
        let (next, action) = step(&cfg, state, event);
        assert!(matches!(action, SessionAction::Abort { error: SessionError::DeviceOpenFailed }));
        assert!(matches!(next, SessionState::Failed { error: SessionError::DeviceOpenFailed }));
        state = next;
    }
}

#[test]
fn full_session_resolves_the_target() {
    let cfg = config();
    let (s, _) = start(&cfg);
    let (s, a) = step(&cfg, s, SessionEvent::DeviceOpened { ok: true });
    assert!(matches!(a, SessionAction::ListProcesses));
    let processes = vec![
        ProcessEntry { pid: 500, name: "firefox".to_string() },
        ProcessEntry { pid: 400, name: "firefox".to_string() },
    ];
    let (s, a) = step(&cfg, s, SessionEvent::ProcessesListed { processes });
    match a {
        SessionAction::Send { request } => {
            assert_eq!((request.magic, request.number), (b'k', 1));
            assert_eq!(request.payload, vec![0x90, 0x01]);
        }
        _ => panic!("expected the select-target request"),
    }
    assert!(matches!(s, SessionState::Selecting { pid: 400 }));
    let (s, a) = step(&cfg, s, SessionEvent::RequestDone { ret: 0, errno: 0 });
    assert!(matches!(a, SessionAction::ReadExePath { pid: 400 }));
    let (s, a) = step(&cfg, s, SessionEvent::ExePathRead { path: Some("/usr/bin/firefox".to_string()) });
    assert!(matches!(a, SessionAction::ReadMaps { pid: 400 }));
    let lines = vec![
        "600000-601000 r-xp 00000000 08:01 99 /usr/bin/other".to_string(),
        "7f0000-7f1000 r-xp 00000000 08:01 1234 /usr/bin/firefox".to_string(),
    ];
    let (s, a) = step(&cfg, s, SessionEvent::MapsRead { lines: Some(lines) });
    assert!(matches!(a, SessionAction::Finish));
    match s {
        SessionState::Ready { target } => {
            assert_eq!(target.pid, 400);
            assert_eq!(target.exe_path, "/usr/bin/firefox");
            assert_eq!(target.base_address, Some(0x7f0000));
        }
        _ => panic!("expected a ready session"),
    }
}

#[test]
fn session_failures_at_each_stage() {
    let cfg = config();
    let (s, _) = step(&cfg, SessionState::Locating, SessionEvent::ProcessesListed { processes: vec![] });
    assert!(matches!(s, SessionState::Failed { error: SessionError::ProcessNotFound }));
    let (s, a) = step(&cfg, SessionState::Selecting { pid: 3 }, SessionEvent::RequestDone { ret: -1, errno: 13 });
    assert!(matches!(s, SessionState::Failed { error: SessionError::IoctlFailed(13) }));
    assert!(matches!(a, SessionAction::Abort { error: SessionError::IoctlFailed(13) }));
    let (s, _) = step(&cfg, SessionState::ResolvingExe { pid: 3 }, SessionEvent::ExePathRead { path: None });
    assert!(matches!(s, SessionState::Failed { error: SessionError::ExePathResolutionFailed }));
    let scanning = SessionState::ScanningMaps { pid: 3, exe_path: "/bin/x".to_string() };
    let (s, _) = step(&cfg, scanning, SessionEvent::MapsRead { lines: None });
    assert!(matches!(s, SessionState::Failed { error: SessionError::MapsParseFailed }));
    let scanning = SessionState::ScanningMaps { pid: 3, exe_path: "/bin/x".to_string() };
    let (s, _) = step(&cfg, scanning, SessionEvent::MapsRead { lines: Some(vec![]) });
    assert!(matches!(s, SessionState::Failed { error: SessionError::BaseAddressNotFound }));
}

#[test]
fn unexpected_event_is_ignored() {
    let cfg = config();
    let (s, a) = step(&cfg, SessionState::Opening, SessionEvent::RequestDone { ret: 0, errno: 0 });
    assert!(matches!(s, SessionState::Opening));
    assert!(matches!(a, SessionAction::Ignore));
}
