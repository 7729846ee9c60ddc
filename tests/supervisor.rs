use frp_panel::paths::{config_path, log_path};
use frp_panel::status::{ProcessStatus, SupervisorError};
use frp_panel::supervisor::{finish_stop, stop_outcome};
use frp_panel::table::{ManagedProcess, ProcessHandle, ProcessTable, SlotState};
use std::cell::Cell;
use std::rc::Rc;

struct Fake {
    exited: Rc<Cell<bool>>,
    probe_error: bool,
    kill_error: bool,
    killed: Rc<Cell<u32>>,
}

impl ProcessHandle for Fake {
    fn has_exited(&mut self) -> Result<bool, String> {
        if self.probe_error {
            Err("probe failed".to_string())
        } else {
            Ok(self.exited.get())
        }
    }

    fn terminate(&mut self) -> Result<(), String> {
        self.killed.set(self.killed.get() + 1);
        if self.kill_error {
            Err("kill failed".to_string())
        } else {
            self.exited.set(true);
            Ok(())
        }
    }
}

fn fake() -> (Fake, Rc<Cell<bool>>, Rc<Cell<u32>>) {
    let exited = Rc::new(Cell::new(false));
    let killed = Rc::new(Cell::new(0));
    let f = Fake { exited: exited.clone(), probe_error: false, kill_error: false, killed: killed.clone() };
    (f, exited, killed)
}

fn start(t: &mut ProcessTable<Fake>, id: &String, h: Fake, pid: u32) -> Result<ProcessStatus, SupervisorError> {
    t.begin_start(id, true)?;
    t.finish_start(id, Ok(ManagedProcess::new(h, pid, format!("/tmp/{}.out", id))))
}

fn is_idle(s: &ProcessStatus) -> bool {
    !s.is_running && s.pid.is_none() && s.error.is_none()
}

#[test]
fn second_start_on_same_id_is_refused() {
    let mut t = ProcessTable::<Fake>::new();
    let id = "p1".to_string();
    assert!(t.begin_start(&id, true).is_ok());
    assert!(matches!(t.begin_start(&id, true), Err(SupervisorError::AlreadyRunning)));
    let (h, _, _) = fake();
    let s = t.finish_start(&id, Ok(ManagedProcess::new(h, 41, "/tmp/p1.out".to_string()))).unwrap();
    assert!(s.is_running);
    assert_eq!(s.pid, Some(41));
    assert!(matches!(t.begin_start(&id, true), Err(SupervisorError::AlreadyRunning)));
    assert_eq!(t.state(&id), Some(SlotState::Running(41)));
}

#[test]
fn scenario_start_stop_status() {
    let mut t = ProcessTable::<Fake>::new();
    let id = "p1".to_string();
    let (h, _, killed) = fake();
    let s = start(&mut t, &id, h, 1234).unwrap();
    assert!(s.is_running && s.pid == Some(1234));
    let (h2, _, _) = fake();
    assert!(matches!(start(&mut t, &id, h2, 99), Err(SupervisorError::AlreadyRunning)));
    let p = t.begin_stop(&id).unwrap();
    assert_eq!(p.pid, 1234);
    assert!(!t.contains(&id));
    let r = finish_stop(p).unwrap();
    assert!(is_idle(&r));
    assert_eq!(killed.get(), 1);
    assert!(is_idle(&t.status(&id).unwrap()));
}

#[test]
fn status_reaps_exited_process_and_allows_restart() {
    let mut t = ProcessTable::<Fake>::new();
    let id = "p2".to_string();
    let (h, exited, _) = fake();
    start(&mut t, &id, h, 7).unwrap();
    let s = t.status(&id).unwrap();
    assert!(s.is_running && s.pid == Some(7));
    assert!(t.contains(&id));
    exited.set(true);
    let s = t.status(&id).unwrap();
    assert!(!s.is_running);
    assert_eq!(s.pid, None);
    assert_eq!(s.error.as_deref(), Some("Process exited"));
    assert!(!t.contains(&id));
    assert!(is_idle(&t.status(&id).unwrap()));
    let (h2, _, _) = fake();
    assert_eq!(start(&mut t, &id, h2, 8).unwrap().pid, Some(8));
}

#[test]
fn status_of_unknown_profile_is_idle() {
    let mut t = ProcessTable::<Fake>::new();
    assert!(is_idle(&t.status(&"nobody".to_string()).unwrap()));
}

#[test]
fn status_while_starting_reports_not_running() {
    let mut t = ProcessTable::<Fake>::new();
    let id = "p3".to_string();
    t.begin_start(&id, true).unwrap();
    let s = t.status(&id).unwrap();
    assert!(is_idle(&s));
    assert!(t.report(&id, Ok(false)).map(|s| is_idle(&s)).unwrap());
    assert!(matches!(t.begin_stop(&id), Err(SupervisorError::NotRunning)));
    assert_eq!(t.state(&id), Some(SlotState::Starting));
}

#[test]
fn probe_failure_is_reported_and_keeps_entry() {
    let mut t = ProcessTable::<Fake>::new();
    let id = "p4".to_string();
    let (mut h, _, _) = fake();
    h.probe_error = true;
    start(&mut t, &id, h, 5).unwrap();
    match t.status(&id) {
        Err(SupervisorError::IoError(e)) => assert_eq!(e, "probe failed"),
        _ => panic!("expected an I/O error"),
    }
    assert_eq!(t.state(&id), Some(SlotState::Running(5)));
}

#[test]
fn report_applies_probe_outcome() {
    let mut t = ProcessTable::<Fake>::new();
    let id = "p5".to_string();
    let (h, _, _) = fake();
    start(&mut t, &id, h, 11).unwrap();
    let s = t.report(&id, Ok(false)).unwrap();
    assert!(s.is_running && s.pid == Some(11));
    let s = t.report(&id, Ok(true)).unwrap();
    assert_eq!(s.error.as_deref(), Some("Process exited"));
    assert!(!t.contains(&id));
}

#[test]
fn missing_config_refuses_start() {
    let mut t = ProcessTable::<Fake>::new();
    let id = "p6".to_string();
    assert!(matches!(t.begin_start(&id, false), Err(SupervisorError::ConfigNotFound)));
    assert!(!t.contains(&id));
}

#[test]
fn spawn_failure_leaves_no_entry() {
    let mut t = ProcessTable::<Fake>::new();
    let id = "p7".to_string();
    t.begin_start(&id, true).unwrap();
    match t.finish_start(&id, Err("no such file".to_string())) {
        Err(SupervisorError::SpawnFailed(e)) => assert_eq!(e, "no such file"),
        _ => panic!("expected a spawn failure"),
    }
    assert!(!t.contains(&id));
    assert!(t.begin_start(&id, true).is_ok());
}

#[test]
fn stop_of_absent_profile_fails() {
    let mut t = ProcessTable::<Fake>::new();
    assert!(matches!(t.begin_stop(&"p8".to_string()), Err(SupervisorError::NotRunning)));
}

#[test]
fn termination_failure_is_surfaced() {
    let mut t = ProcessTable::<Fake>::new();
    let id = "p9".to_string();
    let (mut h, _, _) = fake();
    h.kill_error = true;
    start(&mut t, &id, h, 3).unwrap();
    let p = t.begin_stop(&id).unwrap();
    assert!(!t.contains(&id));
    match finish_stop(p) {
        Err(SupervisorError::TerminationFailed(e)) => assert_eq!(e, "kill failed"),
        _ => panic!("expected a termination failure"),
    }
    assert!(is_idle(&stop_outcome(Ok(())).unwrap()));
}

#[test]
fn different_profiles_are_independent() {
    let mut t = ProcessTable::<Fake>::new();
    let a = "a".to_string();
    let b = "b".to_string();
    let (ha, _, _) = fake();
    let (hb, _, _) = fake();
    start(&mut t, &a, ha, 1).unwrap();
    start(&mut t, &b, hb, 2).unwrap();
    finish_stop(t.begin_stop(&a).unwrap()).unwrap();
    assert_eq!(t.state(&b), Some(SlotState::Running(2)));
    assert_eq!(t.state(&a), None);
}

#[test]
fn abandon_only_drops_claims() {
    let mut t = ProcessTable::<Fake>::new();
    let id = "p10".to_string();
    let (h, _, _) = fake();
    start(&mut t, &id, h, 9).unwrap();
    t.abandon(&id);
    assert_eq!(t.state(&id), Some(SlotState::Running(9)));
    let other = "p11".to_string();
    assert!(t.try_insert(&other));
    assert!(!t.try_insert(&other));
    t.abandon(&other);
    assert!(!t.contains(&other));
}

#[test]
fn profile_files_lie_beside_the_binary() {
    assert_eq!(config_path("/opt/frp/frpc", "p1").unwrap(), "/opt/frp/p1.ini");
    assert_eq!(log_path("/opt/frp/frpc", "p1").unwrap(), "/opt/frp/p1.out");
    assert_eq!(config_path("/frpc", "x").unwrap(), "/x.ini");
    assert!(matches!(config_path("/", "p1"), Err(SupervisorError::InvalidBinaryPath)));
    assert!(matches!(log_path("", "p1"), Err(SupervisorError::InvalidBinaryPath)));
}

#[test]
fn error_messages() {
    assert_eq!(SupervisorError::InvalidBinaryPath.message(), "Invalid frpc path");
    assert_eq!(SupervisorError::ConfigNotFound.message(), "Configuration file not found");
    assert_eq!(SupervisorError::AlreadyRunning.message(), "Process already running");
    assert_eq!(SupervisorError::NotRunning.message(), "Process not found");
    assert_eq!(SupervisorError::SpawnFailed("e1".to_string()).message(), "e1");
    assert_eq!(SupervisorError::TerminationFailed("e2".to_string()).message(), "e2");
    assert_eq!(SupervisorError::IoError("e3".to_string()).message(), "e3");
}
