use gash::env::Env;
use gash::launch::{
    abort_pipeline, pipeline_status, plan_pipeline, runs_after, select_next, status_of_child,
    StdioSpec,
};
use gash::jobs::ChildStatus;
use gash::lex::tokenize;
use gash::parse::{parse, Pipeline, Sep};
use gash::Shell;

fn cs(s: &str) -> Vec<char> {
    s.chars().collect()
}

fn parse_line(line: &str) -> Vec<Pipeline> {
    parse(tokenize(line).unwrap()).unwrap()
}

#[test]
fn three_stage_plan_wires_two_pipes() {
    let list = parse_line("a | b | c");
    let env = Env::new();
    let plan = plan_pipeline(&list[0], &env);
    assert_eq!(plan.stages.len(), 3);
    assert_eq!(plan.n_pipes, 2);
    assert!(matches!(plan.stages[0].stdin_spec, StdioSpec::Inherit));
    assert!(matches!(plan.stages[0].stdout_spec, StdioSpec::PipeWrite(0)));
    assert!(matches!(plan.stages[1].stdin_spec, StdioSpec::PipeRead(0)));
    assert!(matches!(plan.stages[1].stdout_spec, StdioSpec::PipeWrite(1)));
    assert!(matches!(plan.stages[2].stdin_spec, StdioSpec::PipeRead(1)));
    assert!(matches!(plan.stages[2].stdout_spec, StdioSpec::Inherit));
}

#[test]
fn redirections_take_precedence_over_pipes() {
    let list = parse_line("a < in | b > out");
    let env = Env::new();
    let plan = plan_pipeline(&list[0], &env);
    match &plan.stages[0].stdin_spec {
        StdioSpec::FromFile(p) => assert_eq!(p, &cs("in")),
        _ => panic!("expected a file redirection"),
    }
    assert!(matches!(plan.stages[0].stdout_spec, StdioSpec::PipeWrite(0)));
    assert!(matches!(plan.stages[1].stdin_spec, StdioSpec::PipeRead(0)));
    match &plan.stages[1].stdout_spec {
        StdioSpec::ToFile(p) => assert_eq!(p, &cs("out")),
        _ => panic!("expected a file redirection"),
    }
}

#[test]
fn append_redirection_and_last_wins() {
    let list = parse_line("a > one >> two");
    let env = Env::new();
    let plan = plan_pipeline(&list[0], &env);
    match &plan.stages[0].stdout_spec {
        StdioSpec::AppendFile(p) => assert_eq!(p, &cs("two")),
        _ => panic!("expected the later append redirection to win"),
    }
}

#[test]
fn plan_expands_argv_with_current_env() {
    let list = parse_line("echo $GREETING '$GREETING'");
    let mut env = Env::new();
    env.set(cs("GREETING"), cs("hello"));
    let plan = plan_pipeline(&list[0], &env);
    assert_eq!(plan.stages[0].argv.len(), 3);
    assert_eq!(plan.stages[0].argv[0], cs("echo"));
    assert_eq!(plan.stages[0].argv[1], cs("hello"));
    assert_eq!(plan.stages[0].argv[2], cs("$GREETING"));
}

#[test]
fn failed_spawn_kills_every_spawned_sibling() {
    let spawned = vec![101, 102];
    let plan = abort_pipeline(&spawned, cs("b"), cs("No such file or directory"));
    assert_eq!(plan.kill_pids, spawned);
    assert_eq!(plan.error.program, cs("b"));
    assert_eq!(plan.error.cause, cs("No such file or directory"));
}

#[test]
fn pipeline_status_is_last_stage() {
    assert_eq!(pipeline_status(&vec![0, 2, 0]), 0);
    assert_eq!(pipeline_status(&vec![0, 0, 3]), 3);
    assert_eq!(pipeline_status(&vec![7]), 7);
}

#[test]
fn short_circuit_law() {
    assert!(runs_after(Sep::Semi, 0));
    assert!(runs_after(Sep::Semi, 1));
    assert!(runs_after(Sep::AndAnd, 0));
    assert!(!runs_after(Sep::AndAnd, 1));
    assert!(!runs_after(Sep::OrOr, 0));
    assert!(runs_after(Sep::OrOr, 1));
    assert!(runs_after(Sep::End, 0));
}

#[test]
fn select_next_skips_short_circuited_pipelines() {
    let list = parse_line("a && b || c");
    // a failed: b is skipped, c runs against a's status.
    assert_eq!(select_next(&list, 0, 1), Some(2));
    // a succeeded: b runs.
    assert_eq!(select_next(&list, 0, 0), Some(1));
    // b succeeded: c is skipped and nothing is left.
    assert_eq!(select_next(&list, 1, 0), None);
    // b failed: c runs.
    assert_eq!(select_next(&list, 1, 1), Some(2));
}

#[test]
fn sequencing_is_unconditional() {
    let list = parse_line("false; echo ok");
    // Whatever `false` reported, `echo ok` runs next.
    assert_eq!(select_next(&list, 0, 1), Some(1));
    assert_eq!(select_next(&list, 0, 0), Some(1));
}

#[test]
fn status_of_reaped_child() {
    assert_eq!(status_of_child(ChildStatus::Exited(3)), 3);
    assert_eq!(status_of_child(ChildStatus::Signaled(9)), 137);
}

#[test]
fn session_parses_a_line() {
    let sh = Shell::new(String::from("gash > "));
    let list = sh.run_cmdline("false; echo ok").unwrap();
    assert_eq!(list.len(), 2);
    assert_eq!(list[0].sep_after, Sep::Semi);
    assert!(sh.run_cmdline("echo 'oops").is_err());
    assert!(sh.run_cmdline("a | | b").is_err());
}

#[test]
fn plan_expands_env_overrides() {
    let list = parse_line("N=$A cmd");
    let mut env = Env::new();
    env.set(cs("A"), cs("x"));
    let plan = plan_pipeline(&list[0], &env);
    assert_eq!(plan.stages[0].assigns.len(), 1);
    assert_eq!(plan.stages[0].assigns[0], cs("N=x"));
    assert_eq!(plan.stages[0].argv.len(), 1);
    assert_eq!(plan.stages[0].argv[0], cs("cmd"));
}
