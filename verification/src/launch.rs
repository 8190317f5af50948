//! Executor planning and launch decisions. For `N` commands a pipeline
//! plan has `N - 1` pipes; each stage's standard streams go to the
//! adjacent pipe ends unless a redirection takes precedence. The exit
//! status of a pipeline is the status of its last stage (the chosen
//! default; no fail-on-any-stage mode). A failed spawn aborts the whole
//! launch: every already-spawned sibling is killed and reaped, and one
//! spawn failure is reported.

use vstd::prelude::*;

use crate::env::Env;
use crate::expand::expand_word;
use crate::expand::spec_expand_word;
use crate::lex::WordTokenV;
use crate::parse::Command;
use crate::parse::CommandV;
use crate::parse::Pipeline;
use crate::parse::RedirKind;
use crate::parse::Redirection;
use crate::parse::RedirectionV;
use crate::parse::Sep;

verus! {

/// Where a stage's standard input or output goes.
#[derive(Debug)]
pub enum StdioSpec {
    /// Inherit the shell's own stream.
    Inherit,
    /// Read from the pipe with this index.
    PipeRead(usize),
    /// Write to the pipe with this index.
    PipeWrite(usize),
    /// Open this path for reading; a missing path is `NoSuchFile`.
    FromFile(Vec<char>),
    /// Truncate or create this path for writing.
    ToFile(Vec<char>),
    /// Append to or create this path for writing.
    AppendFile(Vec<char>),
}

/// Spec-level image of a stream wiring.
#[verifier::ext_equal]
pub enum StdioSpecV {
    Inherit,
    PipeRead(int),
    PipeWrite(int),
    FromFile(Seq<char>),
    ToFile(Seq<char>),
    AppendFile(Seq<char>),
}

impl View for StdioSpec {
    type V = StdioSpecV;

    open spec fn view(&self) -> StdioSpecV {
        match self {
            StdioSpec::Inherit => StdioSpecV::Inherit,
            StdioSpec::PipeRead(i) => StdioSpecV::PipeRead(*i as int),
            StdioSpec::PipeWrite(i) => StdioSpecV::PipeWrite(*i as int),
            StdioSpec::FromFile(p) => StdioSpecV::FromFile(p@),
            StdioSpec::ToFile(p) => StdioSpecV::ToFile(p@),
            StdioSpec::AppendFile(p) => StdioSpecV::AppendFile(p@),
        }
    }
}

/// One stage of a pipeline, ready to spawn: its expanded argument
/// vector, its expanded `NAME=VALUE` environment overrides, and its
/// stream wiring.
#[derive(Debug)]
pub struct StageSpawn {
    pub argv: Vec<Vec<char>>,
    pub assigns: Vec<Vec<char>>,
    pub stdin_spec: StdioSpec,
    pub stdout_spec: StdioSpec,
}

/// Spec-level image of a stage.
#[verifier::ext_equal]
pub struct StageSpawnV {
    pub argv: Seq<Seq<char>>,
    pub assigns: Seq<Seq<char>>,
    pub stdin_spec: StdioSpecV,
    pub stdout_spec: StdioSpecV,
}

impl View for StageSpawn {
    type V = StageSpawnV;

    open spec fn view(&self) -> StageSpawnV {
        StageSpawnV {
            argv: self.argv@.map_values(|a: Vec<char>| a@),
            assigns: self.assigns@.map_values(|a: Vec<char>| a@),
            stdin_spec: self.stdin_spec@,
            stdout_spec: self.stdout_spec@,
        }
    }
}

/// A launch plan for one pipeline: one stage per command, and the number
/// of pipes to create, which is one less than the number of stages.
#[derive(Debug)]
pub struct SpawnPlan {
    pub stages: Vec<StageSpawn>,
    pub n_pipes: usize,
}

/// The last input redirection of a command, which wins over earlier ones.
pub open spec fn last_in_redir(rs: Seq<RedirectionV>) -> Option<WordTokenV>
    decreases rs.len(),
{
    if rs.len() == 0 {
        None
    } else if rs.last().kind is In {
        Some(rs.last().target)
    } else {
        last_in_redir(rs.drop_last())
    }
}

/// The last output redirection of a command, which wins over earlier
/// ones.
pub open spec fn last_out_redir(rs: Seq<RedirectionV>) -> Option<RedirectionV>
    decreases rs.len(),
{
    if rs.len() == 0 {
        None
    } else if rs.last().kind is Out || rs.last().kind is Append {
        Some(rs.last())
    } else {
        last_out_redir(rs.drop_last())
    }
}

/// The wiring of stage `i` of `n`: redirections take precedence over
/// pipes, interior stages read and write the adjacent pipes, and the two
/// ends inherit the shell's streams when not redirected.
pub open spec fn spec_stdin_of(c: CommandV, i: int, env: Map<Seq<char>, Seq<char>>) -> StdioSpecV {
    match last_in_redir(c.redirs) {
        Some(w) => StdioSpecV::FromFile(spec_expand_word(w, env)),
        None => if i > 0 {
            StdioSpecV::PipeRead(i - 1)
        } else {
            StdioSpecV::Inherit
        },
    }
}

/// The output wiring of stage `i` of `n`; see `spec_stdin_of`.
pub open spec fn spec_stdout_of(c: CommandV, i: int, n: int, env: Map<Seq<char>, Seq<char>>) -> StdioSpecV {
    match last_out_redir(c.redirs) {
        Some(r) => if r.kind is Append {
            StdioSpecV::AppendFile(spec_expand_word(r.target, env))
        } else {
            StdioSpecV::ToFile(spec_expand_word(r.target, env))
        },
        None => if i < n - 1 {
            StdioSpecV::PipeWrite(i)
        } else {
            StdioSpecV::Inherit
        },
    }
}

/// The whole stage for command `i` of `n`: expanded argument vector and
/// stream wiring.
pub open spec fn spec_stage_of(c: CommandV, i: int, n: int, env: Map<Seq<char>, Seq<char>>) -> StageSpawnV {
    StageSpawnV {
        argv: c.words.map_values(|w: WordTokenV| spec_expand_word(w, env)),
        assigns: c.assigns.map_values(|w: WordTokenV| spec_expand_word(w, env)),
        stdin_spec: spec_stdin_of(c, i, env),
        stdout_spec: spec_stdout_of(c, i, n, env),
    }
}

/// Finds the winning input redirection and expands its target.
fn stdin_of(c: &Command, i: usize, env: &Env) -> (r: StdioSpec)
    ensures
        r@ == spec_stdin_of(c@, i as int, env@),
{
    let ghost rs = c@.redirs;
    proof {
        assert(c.redirs@.take(c.redirs@.len() as int) =~= c.redirs@);
        assert(rs.take(rs.len() as int) =~= rs);
    }
    let mut j = c.redirs.len();
    while j > 0
        invariant
            j <= c.redirs@.len(),
            rs == c@.redirs,
            rs.len() == c.redirs@.len(),
            last_in_redir(rs) == last_in_redir(rs.take(j as int)),
        decreases j,
    {
        proof {
            assert(rs.take(j as int).last() == rs[j - 1]);
            assert(rs.take(j as int).drop_last() =~= rs.take(j - 1));
            assert(rs[j - 1] == c.redirs@[j - 1]@);
        }
        j = j - 1;
        let rd = &c.redirs[j];
        if matches!(rd.kind, RedirKind::In) {
            return StdioSpec::FromFile(expand_word(&rd.target, env));
        }
    }
    proof {
        assert(rs.take(0) =~= Seq::<RedirectionV>::empty());
    }
    if i > 0 {
        StdioSpec::PipeRead(i - 1)
    } else {
        StdioSpec::Inherit
    }
}

/// Finds the winning output redirection and expands its target.
fn stdout_of(c: &Command, i: usize, n: usize, env: &Env) -> (r: StdioSpec)
    ensures
        r@ == spec_stdout_of(c@, i as int, n as int, env@),
{
    let ghost rs = c@.redirs;
    proof {
        assert(rs.take(rs.len() as int) =~= rs);
    }
    let mut j = c.redirs.len();
    while j > 0
        invariant
            j <= c.redirs@.len(),
            rs == c@.redirs,
            rs.len() == c.redirs@.len(),
            last_out_redir(rs) == last_out_redir(rs.take(j as int)),
        decreases j,
    {
        proof {
            assert(rs.take(j as int).last() == rs[j - 1]);
            assert(rs.take(j as int).drop_last() =~= rs.take(j - 1));
            assert(rs[j - 1] == c.redirs@[j - 1]@);
        }
        j = j - 1;
        let rd = &c.redirs[j];
        if matches!(rd.kind, RedirKind::Append) {
            return StdioSpec::AppendFile(expand_word(&rd.target, env));
        }
        if matches!(rd.kind, RedirKind::Out) {
            return StdioSpec::ToFile(expand_word(&rd.target, env));
        }
    }
    proof {
        assert(rs.take(0) =~= Seq::<RedirectionV>::empty());
    }
    if i < n && n - i > 1 {
        StdioSpec::PipeWrite(i)
    } else {
        StdioSpec::Inherit
    }
}

/// Plans the launch of one pipeline: expands each command's words with
/// the environment as it stands now, wires `N - 1` pipes between the `N`
/// stages, and lets redirections take precedence over pipe wiring.
pub fn plan_pipeline(p: &Pipeline, env: &Env) -> (r: SpawnPlan)
    ensures
        r.stages@.len() == p@.cmds.len(),
        p@.cmds.len() > 0 ==> r.n_pipes == p@.cmds.len() - 1,
        p@.cmds.len() == 0 ==> r.n_pipes == 0,
        forall|i: int|
            0 <= i < r.stages@.len() ==> (#[trigger] r.stages@[i])@ == spec_stage_of(
                p@.cmds[i],
                i,
                p@.cmds.len() as int,
                env@,
            ),
{
    let n = p.cmds.len();
    let mut stages: Vec<StageSpawn> = Vec::new();
    let mut i: usize = 0;
    while i < n
        invariant
            n == p.cmds@.len(),
            p@.cmds.len() == n,
            i <= n,
            stages@.len() == i,
            forall|m: int|
                0 <= m < i ==> (#[trigger] stages@[m])@ == spec_stage_of(
                    p@.cmds[m],
                    m,
                    n as int,
                    env@,
                ),
        decreases n - i,
    {
        let c = &p.cmds[i];
        let nw = c.words.len();
        let mut argv: Vec<Vec<char>> = Vec::new();
        let mut w: usize = 0;
        while w < nw
            invariant
                nw == c.words@.len(),
                w <= nw,
                argv@.len() == w,
                forall|m: int|
                    0 <= m < w ==> (#[trigger] argv@[m])@ == spec_expand_word(c@.words[m], env@),
            decreases nw - w,
        {
            argv.push(expand_word(&c.words[w], env));
            w = w + 1;
        }
        let na = c.assigns.len();
        let mut assigns: Vec<Vec<char>> = Vec::new();
        let mut a: usize = 0;
        while a < na
            invariant
                na == c.assigns@.len(),
                a <= na,
                assigns@.len() == a,
                forall|m: int|
                    0 <= m < a ==> (#[trigger] assigns@[m])@ == spec_expand_word(
                        c@.assigns[m],
                        env@,
                    ),
            decreases na - a,
        {
            assigns.push(expand_word(&c.assigns[a], env));
            a = a + 1;
        }
        let stage = StageSpawn {
            argv,
            assigns,
            stdin_spec: stdin_of(c, i, env),
            stdout_spec: stdout_of(c, i, n, env),
        };
        proof {
            assert(p@.cmds[i as int] == c@);
            assert(stage@.argv =~= c@.words.map_values(
                |wv: WordTokenV| spec_expand_word(wv, env@),
            ));
            assert(stage@.assigns =~= c@.assigns.map_values(
                |wv: WordTokenV| spec_expand_word(wv, env@),
            ));
            assert(stage@ =~~= spec_stage_of(p@.cmds[i as int], i as int, n as int, env@));
        }
        stages.push(stage);
        i = i + 1;
    }
    SpawnPlan { stages, n_pipes: if n > 0 { n - 1 } else { 0 } }
}

/// A failed spawn: the program that could not be started and the
/// system's reason, as text.
#[derive(Debug)]
pub struct SpawnError {
    pub program: Vec<char>,
    pub cause: Vec<char>,
}

/// What to do when spawning one stage fails: kill and reap every
/// already-spawned sibling, and report one spawn failure.
#[derive(Debug)]
pub struct CleanupPlan {
    pub kill_pids: Vec<i32>,
    pub error: SpawnError,
}

/// Aborts a partially launched pipeline: the kill list names every
/// already-spawned member, so that no process of the aborted pipeline
/// is left running, and exactly one spawn failure is reported.
pub fn abort_pipeline(spawned: &Vec<i32>, program: Vec<char>, cause: Vec<char>) -> (r: CleanupPlan)
    ensures
        r.kill_pids@ == spawned@,
        r.error.program@ == program@,
        r.error.cause@ == cause@,
{
    let mut kill_pids: Vec<i32> = Vec::new();
    let n = spawned.len();
    let mut i: usize = 0;
    while i < n
        invariant
            n == spawned@.len(),
            i <= n,
            kill_pids@ == spawned@.take(i as int),
        decreases n - i,
    {
        kill_pids.push(spawned[i]);
        i = i + 1;
        proof {
            assert(kill_pids@ =~= spawned@.take(i as int));
        }
    }
    proof {
        assert(spawned@.take(n as int) =~= spawned@);
    }
    CleanupPlan { kill_pids, error: SpawnError { program, cause } }
}

/// The exit status of a whole pipeline: the status of its last stage.
pub fn pipeline_status(statuses: &Vec<i32>) -> (r: i32)
    requires
        statuses@.len() > 0,
    ensures
        r == statuses@.last(),
{
    statuses[statuses.len() - 1]
}

/// The conventional exit status of one reaped child: its exit code, or
/// 128 plus the signal number for a signal-terminated child.
pub fn status_of_child(cs: crate::jobs::ChildStatus) -> (r: i32)
    requires
        cs matches crate::jobs::ChildStatus::Signaled(s) ==> 0 <= s < 128,
    ensures
        cs matches crate::jobs::ChildStatus::Exited(c) ==> r == c,
        cs matches crate::jobs::ChildStatus::Signaled(s) ==> r == 128 + s,
        cs is Stopped || cs is Continued ==> r == 0,
{
    match cs {
        crate::jobs::ChildStatus::Exited(c) => c,
        crate::jobs::ChildStatus::Signaled(s) => 128 + s,
        crate::jobs::ChildStatus::Stopped => 0,
        crate::jobs::ChildStatus::Continued => 0,
    }
}

/// Whether the next pipeline runs, given the separator before it and the
/// status of the last evaluated pipeline: after `&&` only on success,
/// after `||` only on failure, after `;` or `&` unconditionally.
pub open spec fn spec_runs_after(sep: Sep, prev_status: i32) -> bool {
    match sep {
        Sep::End => true,
        Sep::Semi => true,
        Sep::AndAnd => prev_status == 0,
        Sep::OrOr => prev_status != 0,
    }
}

/// The short-circuit law: after `&&` the next pipeline runs exactly when
/// the previous one succeeded; after `||` exactly when it failed; after
/// `;` or `&` it always runs.
pub fn runs_after(sep: Sep, prev_status: i32) -> (b: bool)
    ensures
        b == spec_runs_after(sep, prev_status),
        sep is AndAnd ==> (b <==> prev_status == 0),
        sep is OrOr ==> (b <==> prev_status != 0),
        sep is Semi ==> b,
{
    match sep {
        Sep::End => true,
        Sep::Semi => true,
        Sep::AndAnd => prev_status == 0,
        Sep::OrOr => prev_status != 0,
    }
}

/// The separators of a pipeline list.
pub open spec fn seps_of(list: Seq<Pipeline>) -> Seq<Sep> {
    list.map_values(|p: Pipeline| p.sep_after)
}

/// The index of the next pipeline to evaluate after pipeline `j` ended
/// with `st`: skipped pipelines are not evaluated, so the status that
/// decides stays the one of the last evaluated pipeline.
pub open spec fn spec_select_next(seps: Seq<Sep>, j: int, st: i32) -> Option<int>
    decreases seps.len() - j,
{
    if j < 0 || j + 1 >= seps.len() {
        None
    } else if spec_runs_after(seps[j], st) {
        Some(j + 1)
    } else {
        spec_select_next(seps, j + 1, st)
    }
}

/// Selects the next pipeline of the list to evaluate, after pipeline `j`
/// was evaluated with status `st`.
pub fn select_next(list: &Vec<Pipeline>, j: usize, st: i32) -> (r: Option<usize>)
    requires
        j < list@.len(),
    ensures
        match r {
            Some(x) => j < x < list@.len() && spec_select_next(seps_of(list@), j as int, st)
                == Some(x as int),
            None => spec_select_next(seps_of(list@), j as int, st) is None,
        },
{
    let n = list.len();
    let mut k = j;
    while k + 1 < n
        invariant
            j <= k,
            k < n,
            n == list@.len(),
            spec_select_next(seps_of(list@), j as int, st) == spec_select_next(
                seps_of(list@),
                k as int,
                st,
            ),
        decreases n - k,
    {
        if runs_after(list[k].sep_after, st) {
            proof {
                assert(seps_of(list@)[k as int] == list@[k as int].sep_after);
            }
            return Some(k + 1);
        }
        proof {
            assert(seps_of(list@)[k as int] == list@[k as int].sep_after);
        }
        k = k + 1;
    }
    None
}

} // verus!
