use gash::builtins::{apply_export, cd_target, exit_status, recognize_builtin, Builtin};
use gash::jobs::{ChildStatus, JobState, JobTable};
use gash::state::{CdError, ShellState};

fn cs(s: &str) -> Vec<char> {
    s.chars().collect()
}

#[test]
fn cd_failure_leaves_cwd_unchanged() {
    let mut st = ShellState::new();
    let ok = st.apply_cd(&cs("/home/ada"), true);
    assert!(ok.is_ok());
    assert_eq!(st.cwd, cs("/home/ada"));
    let r = st.apply_cd(&cs("/nonexistent"), false);
    assert_eq!(r, Err(CdError::NoSuchDirectory));
    assert_eq!(st.cwd, cs("/home/ada"));
}

#[test]
fn cd_target_prefers_argument_then_home() {
    let mut st = ShellState::new();
    st.env.set(cs("HOME"), cs("/home/ada"));
    let argv = vec![cs("cd"), cs("/tmp")];
    assert_eq!(cd_target(&argv, &st.env).unwrap(), cs("/tmp"));
    let argv = vec![cs("cd")];
    assert_eq!(cd_target(&argv, &st.env).unwrap(), cs("/home/ada"));
    let empty = gash::env::Env::new();
    assert!(cd_target(&argv, &empty).is_none());
}

#[test]
fn recognize_builtins_by_name() {
    assert_eq!(recognize_builtin(&cs("cd")), Some(Builtin::Cd));
    assert_eq!(recognize_builtin(&cs("exit")), Some(Builtin::Exit));
    assert_eq!(recognize_builtin(&cs("jobs")), Some(Builtin::Jobs));
    assert_eq!(recognize_builtin(&cs("export")), Some(Builtin::Export));
    assert_eq!(recognize_builtin(&cs("ls")), None);
    assert_eq!(recognize_builtin(&cs("cdd")), None);
}

#[test]
fn export_binds_name_to_value() {
    let mut st = ShellState::new();
    assert!(apply_export(&mut st, &cs("PATH=/bin:/usr/bin")));
    assert_eq!(st.env.get(&cs("PATH")).unwrap(), &cs("/bin:/usr/bin"));
    assert!(apply_export(&mut st, &cs("EMPTY=")));
    assert_eq!(st.env.get(&cs("EMPTY")).unwrap(), &cs(""));
    assert!(apply_export(&mut st, &cs("A=x=y")));
    assert_eq!(st.env.get(&cs("A")).unwrap(), &cs("x=y"));
}

#[test]
fn export_refuses_malformed_assignment() {
    let mut st = ShellState::new();
    assert!(!apply_export(&mut st, &cs("NOEQUALS")));
    assert!(!apply_export(&mut st, &cs("=value")));
    assert!(st.env.get(&cs("NOEQUALS")).is_none());
}

#[test]
fn exit_status_operand() {
    let argv = vec![cs("exit"), cs("42")];
    assert_eq!(exit_status(&argv, 7), 42);
    let argv = vec![cs("exit")];
    assert_eq!(exit_status(&argv, 7), 7);
    let argv = vec![cs("exit"), cs("x1")];
    assert_eq!(exit_status(&argv, 7), 255);
    let argv = vec![cs("exit"), cs("9999999999")];
    assert_eq!(exit_status(&argv, 7), 255);
    let argv = vec![cs("exit"), cs("0")];
    assert_eq!(exit_status(&argv, 7), 0);
}

#[test]
fn background_job_runs_then_finishes_without_blocking() {
    let mut jt = JobTable::new();
    let id = jt.add_job(4242, &vec![4242]);
    assert_eq!(id, 1);
    let rows = jt.summaries();
    assert_eq!(rows.len(), 1);
    assert_eq!(rows[0].state, JobState::Running);
    jt.on_child_event(4242, ChildStatus::Exited(0));
    let rows = jt.summaries();
    assert_eq!(rows[0].state, JobState::Done);
}

#[test]
fn job_stops_and_resumes() {
    let mut jt = JobTable::new();
    jt.add_job(100, &vec![100, 101]);
    jt.on_child_event(100, ChildStatus::Stopped);
    assert_eq!(jt.summaries()[0].state, JobState::Stopped);
    jt.on_child_event(100, ChildStatus::Continued);
    assert_eq!(jt.summaries()[0].state, JobState::Running);
    jt.on_child_event(100, ChildStatus::Exited(0));
    assert_eq!(jt.summaries()[0].state, JobState::Running);
    jt.on_child_event(101, ChildStatus::Signaled(9));
    assert_eq!(jt.summaries()[0].state, JobState::Done);
}

#[test]
fn reap_removes_only_done_jobs() {
    let mut jt = JobTable::new();
    let a = jt.add_job(10, &vec![10]);
    let b = jt.add_job(20, &vec![20]);
    jt.on_child_event(10, ChildStatus::Exited(0));
    let done = jt.reap_done();
    assert_eq!(done.len(), 1);
    assert_eq!(done[0].id, a);
    let rows = jt.summaries();
    assert_eq!(rows.len(), 1);
    assert_eq!(rows[0].id, b);
    assert_eq!(rows[0].state, JobState::Running);
}

#[test]
fn job_ids_are_monotonic() {
    let mut jt = JobTable::new();
    let a = jt.add_job(1, &vec![1]);
    let b = jt.add_job(2, &vec![2]);
    assert_eq!(a, 1);
    assert_eq!(b, 2);
    jt.on_child_event(1, ChildStatus::Exited(0));
    jt.reap_done();
    let c = jt.add_job(3, &vec![3]);
    assert_eq!(c, 3);
}
