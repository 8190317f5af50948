use gash::lex::tokenize;
use gash::parse::{parse, Expected, Pipeline, RedirKind, Sep};

fn cs(s: &str) -> Vec<char> {
    s.chars().collect()
}

fn parse_line(line: &str) -> Result<Vec<Pipeline>, gash::parse::SyntaxError> {
    parse(tokenize(line).unwrap())
}

#[test]
fn three_stage_pipeline_in_order() {
    let list = parse_line("cmd1 | cmd2 | cmd3").unwrap();
    assert_eq!(list.len(), 1);
    let p = &list[0];
    assert_eq!(p.cmds.len(), 3);
    assert_eq!(p.cmds[0].words[0].text, cs("cmd1"));
    assert_eq!(p.cmds[1].words[0].text, cs("cmd2"));
    assert_eq!(p.cmds[2].words[0].text, cs("cmd3"));
    assert!(!p.background);
    assert_eq!(p.sep_after, Sep::End);
}

#[test]
fn and_or_chain_keeps_separators() {
    let list = parse_line("cmd1 && cmd2 || cmd3").unwrap();
    assert_eq!(list.len(), 3);
    assert_eq!(list[0].sep_after, Sep::AndAnd);
    assert_eq!(list[1].sep_after, Sep::OrOr);
    assert_eq!(list[2].sep_after, Sep::End);
}

#[test]
fn semicolon_sequences_unconditionally() {
    let list = parse_line("false; echo ok").unwrap();
    assert_eq!(list.len(), 2);
    assert_eq!(list[0].sep_after, Sep::Semi);
    assert_eq!(list[0].cmds[0].words[0].text, cs("false"));
    assert_eq!(list[1].cmds[0].words[0].text, cs("echo"));
    assert_eq!(list[1].cmds[0].words[1].text, cs("ok"));
}

#[test]
fn background_marker_sets_run_mode() {
    let list = parse_line("sleep 1 &").unwrap();
    assert_eq!(list.len(), 1);
    assert!(list[0].background);
    let list = parse_line("sleep 1 & echo done").unwrap();
    assert_eq!(list.len(), 2);
    assert!(list[0].background);
    assert!(!list[1].background);
}

#[test]
fn redirections_attach_to_their_command() {
    let list = parse_line("sort < in.txt > out.txt").unwrap();
    let c = &list[0].cmds[0];
    assert_eq!(c.words.len(), 1);
    assert_eq!(c.redirs.len(), 2);
    assert_eq!(c.redirs[0].kind, RedirKind::In);
    assert_eq!(c.redirs[0].target.text, cs("in.txt"));
    assert_eq!(c.redirs[1].kind, RedirKind::Out);
    assert_eq!(c.redirs[1].target.text, cs("out.txt"));
}

#[test]
fn append_redirection_kind() {
    let list = parse_line("echo hi >> log").unwrap();
    let c = &list[0].cmds[0];
    assert_eq!(c.redirs[0].kind, RedirKind::Append);
    assert_eq!(c.redirs[0].target.text, cs("log"));
}

#[test]
fn empty_pipeline_segment_is_an_error() {
    let e = parse_line("cmd1 | | cmd2").unwrap_err();
    assert_eq!(e.expected, Expected::Command);
    assert_eq!(e.pos, 2);
}

#[test]
fn dangling_pipe_is_an_error() {
    let e = parse_line("cmd1 |").unwrap_err();
    assert_eq!(e.expected, Expected::Command);
    assert_eq!(e.pos, 2);
}

#[test]
fn dangling_logical_operator_is_an_error() {
    let e = parse_line("cmd1 &&").unwrap_err();
    assert_eq!(e.expected, Expected::Command);
    assert_eq!(e.pos, 2);
}

#[test]
fn redirection_missing_target_is_an_error() {
    let e = parse_line("cmd >").unwrap_err();
    assert_eq!(e.expected, Expected::RedirTarget);
    assert_eq!(e.pos, 2);
    let e = parse_line("cmd > | next").unwrap_err();
    assert_eq!(e.expected, Expected::RedirTarget);
    assert_eq!(e.pos, 2);
}

#[test]
fn leading_semicolon_is_an_error() {
    let e = parse_line("; cmd").unwrap_err();
    assert_eq!(e.expected, Expected::Command);
    assert_eq!(e.pos, 0);
}

#[test]
fn empty_input_is_an_empty_list() {
    assert_eq!(parse_line("").unwrap().len(), 0);
}

#[test]
fn trailing_semicolon_is_fine() {
    let list = parse_line("echo hi;").unwrap();
    assert_eq!(list.len(), 1);
    assert_eq!(list[0].sep_after, Sep::Semi);
}

#[test]
fn redirection_before_command_name() {
    let list = parse_line("> out echo hi").unwrap();
    let c = &list[0].cmds[0];
    assert_eq!(c.words[0].text, cs("echo"));
    assert_eq!(c.redirs[0].kind, RedirKind::Out);
    assert_eq!(c.redirs[0].target.text, cs("out"));
}

#[test]
fn leading_assignments_become_env_overrides() {
    let list = parse_line("FOO=bar BAZ=1 echo x").unwrap();
    let c = &list[0].cmds[0];
    assert_eq!(c.assigns.len(), 2);
    assert_eq!(c.assigns[0].text, cs("FOO=bar"));
    assert_eq!(c.assigns[1].text, cs("BAZ=1"));
    assert_eq!(c.words.len(), 2);
    assert_eq!(c.words[0].text, cs("echo"));
}

#[test]
fn assignment_after_command_name_is_an_argument() {
    let list = parse_line("env FOO=bar").unwrap();
    let c = &list[0].cmds[0];
    assert_eq!(c.assigns.len(), 0);
    assert_eq!(c.words.len(), 2);
    assert_eq!(c.words[1].text, cs("FOO=bar"));
}

#[test]
fn quoted_assignment_is_an_argument() {
    let list = parse_line("'FOO=bar' cmd").unwrap();
    let c = &list[0].cmds[0];
    assert_eq!(c.assigns.len(), 0);
    assert_eq!(c.words[0].text, cs("FOO=bar"));
}

#[test]
fn assignment_only_command() {
    let list = parse_line("FOO=bar").unwrap();
    let c = &list[0].cmds[0];
    assert_eq!(c.assigns.len(), 1);
    assert_eq!(c.words.len(), 0);
}
