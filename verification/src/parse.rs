//! Parser: turns a token sequence into a command list. Grammar, from low
//! to high precedence: sequencing (`;`, `&`), logical `&&` / `||`
//! (left-associative, short-circuit at execution time), pipelines (`|`,
//! left-associative), and simple commands with trailing redirections.
//! A dangling operator at end of input, an empty pipeline segment, or a
//! redirection missing its target fails with a `SyntaxError` naming the
//! offending token position. The parser does no expansion and touches no
//! file system: it is pure over its token input.
//!
//! Like the tokenizer, it is specified as a fold of a pure step function
//! over the tokens, and the executable parser is proved equal to it.

use vstd::prelude::*;

use crate::expand::is_name_char_spec;
use crate::lex::Token;
use crate::lex::TokenV;
use crate::lex::WordToken;
use crate::lex::WordTokenV;
use crate::lex::view_toks;

verus! {

/// Kind of a redirection operator.
#[derive(Clone, Copy, PartialEq, Eq, Structural, Debug)]
pub enum RedirKind {
    /// `<`: open the target for reading.
    In,
    /// `>`: truncate or create the target for writing.
    Out,
    /// `>>`: append to or create the target for writing.
    Append,
}

/// One redirection of a command: kind and target word. The target path is
/// expanded and resolved at launch time, not at parse time, so that a
/// directory change earlier in the command list affects it.
#[derive(Debug)]
pub struct Redirection {
    pub kind: RedirKind,
    pub target: WordToken,
}

/// Spec-level image of a redirection.
#[verifier::ext_equal]
pub struct RedirectionV {
    pub kind: RedirKind,
    pub target: WordTokenV,
}

impl View for Redirection {
    type V = RedirectionV;

    open spec fn view(&self) -> RedirectionV {
        RedirectionV { kind: self.kind, target: self.target@ }
    }
}

/// A simple command: program name and arguments in order (the first word
/// is the program), its redirections in order, and the environment
/// overrides local to this invocation (`NAME=VALUE` words standing
/// before the program name).
#[derive(Debug)]
pub struct Command {
    pub words: Vec<WordToken>,
    pub redirs: Vec<Redirection>,
    pub assigns: Vec<WordToken>,
}

/// Spec-level image of a command.
#[verifier::ext_equal]
pub struct CommandV {
    pub words: Seq<WordTokenV>,
    pub redirs: Seq<RedirectionV>,
    pub assigns: Seq<WordTokenV>,
}

impl View for Command {
    type V = CommandV;

    open spec fn view(&self) -> CommandV {
        CommandV {
            words: self.words@.map_values(|w: WordToken| w@),
            redirs: self.redirs@.map_values(|r: Redirection| r@),
            assigns: self.assigns@.map_values(|w: WordToken| w@),
        }
    }
}

/// Whether a text is shaped like `NAME=VALUE`: name characters up to a
/// `=` that is not the first character.
pub open spec fn assign_shape_from(t: Seq<char>, i: int) -> bool
    decreases t.len() - i,
{
    if i < 0 || i >= t.len() {
        false
    } else if t[i] == '=' {
        i > 0
    } else if is_name_char_spec(t[i]) {
        assign_shape_from(t, i + 1)
    } else {
        false
    }
}

/// Whether a word is an environment override: unquoted and shaped like
/// `NAME=VALUE`. A quoted word is an ordinary argument.
pub open spec fn is_assign_word(w: WordTokenV) -> bool {
    w.quoting == crate::lex::Quoting::Unquoted && assign_shape_from(w.text, 0)
}

/// Executable counterpart of `is_assign_word`.
fn check_assign_word(w: &WordToken) -> (r: bool)
    ensures
        r == is_assign_word(w@),
{
    if !matches!(w.quoting, crate::lex::Quoting::Unquoted) {
        return false;
    }
    let n = w.text.len();
    let mut i: usize = 0;
    while i < n
        invariant
            n == w.text@.len(),
            i <= n,
            w@.quoting == crate::lex::Quoting::Unquoted,
            assign_shape_from(w.text@, 0) == assign_shape_from(w.text@, i as int),
        decreases n - i,
    {
        let c = w.text[i];
        if c == '=' {
            return i > 0;
        }
        if !crate::expand::is_name_char(c) {
            return false;
        }
        i = i + 1;
    }
    false
}

/// The separator following a pipeline: nothing, unconditional `;` (also
/// used for `&`, whose sequencing is unconditional too), or the
/// short-circuit operators.
#[derive(Clone, Copy, PartialEq, Eq, Structural, Debug)]
pub enum Sep {
    /// End of the command list: nothing follows.
    End,
    /// `;` or `&`: the next pipeline always runs.
    Semi,
    /// `&&`: the next pipeline runs only if this one succeeded.
    AndAnd,
    /// `||`: the next pipeline runs only if this one failed.
    OrOr,
}

/// A pipeline: commands connected by pipes in order, its run mode
/// (foreground or background), and the separator that followed it.
#[derive(Debug)]
pub struct Pipeline {
    pub cmds: Vec<Command>,
    pub background: bool,
    pub sep_after: Sep,
}

/// Spec-level image of a pipeline.
#[verifier::ext_equal]
pub struct PipelineV {
    pub cmds: Seq<CommandV>,
    pub background: bool,
    pub sep_after: Sep,
}

impl View for Pipeline {
    type V = PipelineV;

    open spec fn view(&self) -> PipelineV {
        PipelineV {
            cmds: self.cmds@.map_values(|c: Command| c@),
            background: self.background,
            sep_after: self.sep_after,
        }
    }
}

/// What the parser wanted where it found something else.
#[derive(Clone, Copy, PartialEq, Eq, Structural, Debug)]
pub enum Expected {
    /// A command was required (after `|`, `&&`, `||`, `;`, or at a
    /// position where a pipeline segment is empty).
    Command,
    /// A redirection operator was not followed by its target word.
    RedirTarget,
}

/// A syntax error: the index of the offending token (the token count for
/// end of input) and what was expected there.
#[derive(Clone, Copy, PartialEq, Eq, Structural, Debug)]
pub struct SyntaxError {
    pub pos: usize,
    pub expected: Expected,
}

/// The command images of a command sequence.
pub open spec fn view_cmds(cs: Seq<Command>) -> Seq<CommandV> {
    cs.map_values(|c: Command| c@)
}

/// The pipeline images of a pipeline sequence.
pub open spec fn view_pipes(ps: Seq<Pipeline>) -> Seq<PipelineV> {
    ps.map_values(|p: Pipeline| p@)
}

/// Parser state: pipelines finished, commands finished in the current
/// pipeline, the command being built, a redirection kind awaiting its
/// target, whether an operator demands one more command, the position,
/// and the first error met.
#[verifier::ext_equal]
pub struct PStV {
    pub done: Seq<PipelineV>,
    pub cmds: Seq<CommandV>,
    pub cur: Option<CommandV>,
    pub pending_redir: Option<RedirKind>,
    pub need_cmd: bool,
    pub pos: int,
    pub err: Option<SyntaxError>,
}

/// Parser state before any token.
pub open spec fn parse_init() -> PStV {
    PStV {
        done: Seq::empty(),
        cmds: Seq::empty(),
        cur: None,
        pending_redir: None,
        need_cmd: false,
        pos: 0,
        err: None,
    }
}

/// The command to extend: the one being built, or a fresh empty one.
pub open spec fn cur_of(st: PStV) -> CommandV {
    match st.cur {
        Some(c) => c,
        None => CommandV { words: Seq::empty(), redirs: Seq::empty(), assigns: Seq::empty() },
    }
}

/// Records an error at the current position; the first error is kept.
pub open spec fn parse_err(st: PStV, expected: Expected) -> PStV {
    PStV { err: Some(SyntaxError { pos: st.pos as usize, expected }), ..st }
}

/// Closes the current pipeline with the given mode and separator.
pub open spec fn close_pipeline(st: PStV, background: bool, sep_after: Sep, need_cmd: bool) -> PStV {
    let p = PipelineV { cmds: st.cmds.push(cur_of(st)), background, sep_after };
    PStV {
        done: st.done.push(p),
        cmds: Seq::empty(),
        cur: None,
        pending_redir: None,
        need_cmd,
        pos: st.pos,
        err: st.err,
    }
}

/// One step of the parser on one token.
pub open spec fn parse_step(st: PStV, t: TokenV) -> PStV {
    let next = if st.err is Some {
        st
    } else {
        match t {
            TokenV::Word(w) => {
                match st.pending_redir {
                    Some(k) => PStV {
                        cur: Some(
                            CommandV {
                                words: cur_of(st).words,
                                redirs: cur_of(st).redirs.push(RedirectionV { kind: k, target: w }),
                                assigns: cur_of(st).assigns,
                            },
                        ),
                        pending_redir: None,
                        need_cmd: false,
                        ..st
                    },
                    None => {
                        if cur_of(st).words.len() == 0 && is_assign_word(w) {
                            PStV {
                                cur: Some(
                                    CommandV {
                                        words: cur_of(st).words,
                                        redirs: cur_of(st).redirs,
                                        assigns: cur_of(st).assigns.push(w),
                                    },
                                ),
                                need_cmd: false,
                                ..st
                            }
                        } else {
                            PStV {
                                cur: Some(
                                    CommandV {
                                        words: cur_of(st).words.push(w),
                                        redirs: cur_of(st).redirs,
                                        assigns: cur_of(st).assigns,
                                    },
                                ),
                                need_cmd: false,
                                ..st
                            }
                        }
                    },
                }
            },
            TokenV::RedirIn => parse_redir(st, RedirKind::In),
            TokenV::RedirOut => parse_redir(st, RedirKind::Out),
            TokenV::RedirAppend => parse_redir(st, RedirKind::Append),
            TokenV::Pipe => {
                if st.pending_redir is Some {
                    parse_err(st, Expected::RedirTarget)
                } else if st.cur is None {
                    parse_err(st, Expected::Command)
                } else {
                    PStV {
                        cmds: st.cmds.push(cur_of(st)),
                        cur: None,
                        need_cmd: true,
                        ..st
                    }
                }
            },
            TokenV::AndAnd => parse_logical(st, Sep::AndAnd),
            TokenV::OrOr => parse_logical(st, Sep::OrOr),
            TokenV::Semi => parse_seq_sep(st, false),
            TokenV::Amp => parse_seq_sep(st, true),
        }
    };
    PStV { pos: st.pos + 1, ..next }
}

/// A redirection operator: remember its kind until the target word comes.
pub open spec fn parse_redir(st: PStV, k: RedirKind) -> PStV {
    if st.pending_redir is Some {
        parse_err(st, Expected::RedirTarget)
    } else {
        PStV { cur: Some(cur_of(st)), pending_redir: Some(k), need_cmd: false, ..st }
    }
}

/// `&&` or `||`: close the pipeline and demand one more command.
pub open spec fn parse_logical(st: PStV, sep: Sep) -> PStV {
    if st.pending_redir is Some {
        parse_err(st, Expected::RedirTarget)
    } else if st.cur is None {
        parse_err(st, Expected::Command)
    } else {
        close_pipeline(st, false, sep, true)
    }
}

/// `;` or `&`: close the pipeline; nothing more is owed after it.
pub open spec fn parse_seq_sep(st: PStV, background: bool) -> PStV {
    if st.pending_redir is Some {
        parse_err(st, Expected::RedirTarget)
    } else if st.cur is None {
        parse_err(st, Expected::Command)
    } else {
        close_pipeline(st, background, Sep::Semi, false)
    }
}

/// The parser state after all tokens: the step function folded over them.
pub open spec fn parse_fold(ts: Seq<TokenV>) -> PStV
    decreases ts.len(),
{
    if ts.len() == 0 {
        parse_init()
    } else {
        parse_step(parse_fold(ts.drop_last()), ts.last())
    }
}

/// Resolves the end of input: a pending redirection or a demanded command
/// is a dangling-operator error; an open command closes its pipeline.
pub open spec fn parse_finalize(st: PStV) -> Result<Seq<PipelineV>, SyntaxError> {
    if st.err is Some {
        Err(st.err->Some_0)
    } else if st.pending_redir is Some {
        Err(SyntaxError { pos: st.pos as usize, expected: Expected::RedirTarget })
    } else if st.cur is Some {
        Ok(close_pipeline(st, false, Sep::End, false).done)
    } else if st.need_cmd {
        Err(SyntaxError { pos: st.pos as usize, expected: Expected::Command })
    } else {
        Ok(st.done)
    }
}

/// What parsing a token sequence yields.
pub open spec fn spec_parse(ts: Seq<TokenV>) -> Result<Seq<PipelineV>, SyntaxError> {
    parse_finalize(parse_fold(ts))
}

/// The pipeline images of a parser result.
pub open spec fn view_parse_result(r: Result<Vec<Pipeline>, SyntaxError>) -> Result<
    Seq<PipelineV>,
    SyntaxError,
> {
    match r {
        Ok(ps) => Ok(view_pipes(ps@)),
        Err(e) => Err(e),
    }
}

/// Executable parser state.
struct PSt {
    done: Vec<Pipeline>,
    cmds: Vec<Command>,
    cur: Option<Command>,
    pending_redir: Option<RedirKind>,
    need_cmd: bool,
    pos: usize,
    err: Option<SyntaxError>,
}

impl View for PSt {
    type V = PStV;

    closed spec fn view(&self) -> PStV {
        PStV {
            done: view_pipes(self.done@),
            cmds: view_cmds(self.cmds@),
            cur: match self.cur {
                Some(c) => Some(c@),
                None => None,
            },
            pending_redir: self.pending_redir,
            need_cmd: self.need_cmd,
            pos: self.pos as int,
            err: self.err,
        }
    }
}

proof fn lemma_view_pipes_push(ps: Seq<Pipeline>, p: Pipeline)
    ensures
        view_pipes(ps.push(p)) == view_pipes(ps).push(p@),
{
    assert(view_pipes(ps.push(p)) =~= view_pipes(ps).push(p@));
}

proof fn lemma_view_cmds_push(cs: Seq<Command>, c: Command)
    ensures
        view_cmds(cs.push(c)) == view_cmds(cs).push(c@),
{
    assert(view_cmds(cs.push(c)) =~= view_cmds(cs).push(c@));
}

proof fn lemma_view_words_push(ws: Seq<WordToken>, w: WordToken)
    ensures
        ws.push(w).map_values(|x: WordToken| x@) == ws.map_values(|x: WordToken| x@).push(w@),
{
    assert(ws.push(w).map_values(|x: WordToken| x@) =~= ws.map_values(|x: WordToken| x@).push(
        w@,
    ));
}

proof fn lemma_view_redirs_push(rs: Seq<Redirection>, r: Redirection)
    ensures
        rs.push(r).map_values(|x: Redirection| x@) == rs.map_values(|x: Redirection| x@).push(r@),
{
    assert(rs.push(r).map_values(|x: Redirection| x@) =~= rs.map_values(|x: Redirection| x@).push(
        r@,
    ));
}

/// Executable counterpart of `cur_of`.
fn cur_take(cur: Option<Command>, Ghost(st): Ghost<PStV>) -> (r: Command)
    requires
        st.cur == match cur {
            Some(c) => Some(c@),
            None => None::<CommandV>,
        },
    ensures
        r@ == cur_of(st),
{
    match cur {
        Some(c) => c,
        None => Command { words: Vec::new(), redirs: Vec::new(), assigns: Vec::new() },
    }
}

/// Executable counterpart of `close_pipeline`.
fn close_pipeline_exec(st: PSt, background: bool, sep_after: Sep, need_cmd: bool) -> (r: PSt)
    ensures
        r@ == close_pipeline(st@, background, sep_after, need_cmd),
{
    let ghost stv = st@;
    let mut cmds = st.cmds;
    let mut done = st.done;
    let cur = cur_take(st.cur, Ghost(stv));
    proof {
        lemma_view_cmds_push(cmds@, cur);
    }
    cmds.push(cur);
    let p = Pipeline { cmds, background, sep_after };
    proof {
        lemma_view_pipes_push(done@, p);
    }
    done.push(p);
    PSt {
        done,
        cmds: Vec::new(),
        cur: None,
        pending_redir: None,
        need_cmd,
        pos: st.pos,
        err: st.err,
    }
}

/// Executable counterpart of `parse_redir`.
fn parse_redir_exec(st: PSt, k: RedirKind) -> (r: PSt)
    ensures
        r@ == parse_redir(st@, k),
{
    if st.pending_redir.is_some() {
        PSt { err: Some(SyntaxError { pos: st.pos, expected: Expected::RedirTarget }), ..st }
    } else {
        let ghost stv = st@;
        let done = st.done;
        let cmds = st.cmds;
        let cur = cur_take(st.cur, Ghost(stv));
        PSt {
            done,
            cmds,
            cur: Some(cur),
            pending_redir: Some(k),
            need_cmd: false,
            pos: st.pos,
            err: st.err,
        }
    }
}

/// Executable counterpart of `parse_step`, with the position bounded by
/// the token count so that it cannot overflow.
fn parse_step_exec(st: PSt, t: Token) -> (r: PSt)
    requires
        st@.pos < usize::MAX,
    ensures
        r@ == parse_step(st@, t@),
{
    let pos1 = st.pos + 1;
    let mut next = if st.err.is_some() {
        st
    } else {
        match t {
            Token::Word(w) => {
                let ghost stv = st@;
                let done = st.done;
                let cmds = st.cmds;
                let pending = st.pending_redir;
                let mut cur = cur_take(st.cur, Ghost(stv));
                match pending {
                    Some(k) => {
                        let rd = Redirection { kind: k, target: w };
                        proof {
                            lemma_view_redirs_push(cur.redirs@, rd);
                        }
                        cur.redirs.push(rd);
                        PSt {
                            done,
                            cmds,
                            cur: Some(cur),
                            pending_redir: None,
                            need_cmd: false,
                            pos: st.pos,
                            err: st.err,
                        }
                    },
                    None => {
                        if cur.words.len() == 0 && check_assign_word(&w) {
                            proof {
                                lemma_view_words_push(cur.assigns@, w);
                            }
                            cur.assigns.push(w);
                        } else {
                            proof {
                                lemma_view_words_push(cur.words@, w);
                            }
                            cur.words.push(w);
                        }
                        PSt {
                            done,
                            cmds,
                            cur: Some(cur),
                            pending_redir: None,
                            need_cmd: false,
                            pos: st.pos,
                            err: st.err,
                        }
                    },
                }
            },
            Token::RedirIn => parse_redir_exec(st, RedirKind::In),
            Token::RedirOut => parse_redir_exec(st, RedirKind::Out),
            Token::RedirAppend => parse_redir_exec(st, RedirKind::Append),
            Token::Pipe => {
                if st.pending_redir.is_some() {
                    PSt {
                        err: Some(SyntaxError { pos: st.pos, expected: Expected::RedirTarget }),
                        ..st
                    }
                } else if st.cur.is_none() {
                    PSt {
                        err: Some(SyntaxError { pos: st.pos, expected: Expected::Command }),
                        ..st
                    }
                } else {
                    let ghost stv = st@;
                    let done = st.done;
                    let mut cmds = st.cmds;
                    let cur = cur_take(st.cur, Ghost(stv));
                    proof {
                        lemma_view_cmds_push(cmds@, cur);
                    }
                    cmds.push(cur);
                    PSt {
                        done,
                        cmds,
                        cur: None,
                        pending_redir: None,
                        need_cmd: true,
                        pos: st.pos,
                        err: st.err,
                    }
                }
            },
            Token::AndAnd => parse_logical_exec(st, Sep::AndAnd),
            Token::OrOr => parse_logical_exec(st, Sep::OrOr),
            Token::Semi => parse_seq_sep_exec(st, false),
            Token::Amp => parse_seq_sep_exec(st, true),
        }
    };
    next.pos = pos1;
    next
}

/// Executable counterpart of `parse_logical`.
fn parse_logical_exec(st: PSt, sep: Sep) -> (r: PSt)
    ensures
        r@ == parse_logical(st@, sep),
{
    if st.pending_redir.is_some() {
        PSt { err: Some(SyntaxError { pos: st.pos, expected: Expected::RedirTarget }), ..st }
    } else if st.cur.is_none() {
        PSt { err: Some(SyntaxError { pos: st.pos, expected: Expected::Command }), ..st }
    } else {
        close_pipeline_exec(st, false, sep, true)
    }
}

/// Executable counterpart of `parse_seq_sep`.
fn parse_seq_sep_exec(st: PSt, background: bool) -> (r: PSt)
    ensures
        r@ == parse_seq_sep(st@, background),
{
    if st.pending_redir.is_some() {
        PSt { err: Some(SyntaxError { pos: st.pos, expected: Expected::RedirTarget }), ..st }
    } else if st.cur.is_none() {
        PSt { err: Some(SyntaxError { pos: st.pos, expected: Expected::Command }), ..st }
    } else {
        close_pipeline_exec(st, background, Sep::Semi, false)
    }
}

proof fn lemma_parse_fold_step(ts: Seq<TokenV>, i: int)
    requires
        0 <= i < ts.len(),
    ensures
        parse_fold(ts.take(i + 1)) == parse_step(parse_fold(ts.take(i)), ts[i]),
{
    let t = ts.take(i + 1);
    assert(t.drop_last() =~= ts.take(i));
    assert(t.last() == ts[i]);
}

proof fn lemma_parse_fold_pos(ts: Seq<TokenV>)
    ensures
        parse_fold(ts).pos == ts.len(),
    decreases ts.len(),
{
    if ts.len() > 0 {
        lemma_parse_fold_pos(ts.drop_last());
    }
}

/// Parses a token sequence into the pipelines of one command list.
pub fn parse(toks: Vec<Token>) -> (r: Result<Vec<Pipeline>, SyntaxError>)
    ensures
        view_parse_result(r) == spec_parse(view_toks(toks@)),
{
    let ghost toks0 = toks@;
    let ghost tv = view_toks(toks0);
    let n = toks.len();
    let mut rest = toks;
    let mut rev: Vec<Token> = Vec::new();
    while rest.len() > 0
        invariant
            n == toks0.len(),
            rest@.len() <= n,
            rest@ == toks0.take(rest@.len() as int),
            rev@ == toks0.skip(rest@.len() as int).reverse(),
        decreases rest.len(),
    {
        let ghost k = rest@.len() as int;
        let t = rest.pop().unwrap();
        rev.push(t);
        proof {
            assert(rest@ =~= toks0.take(k - 1));
            assert(rev@ =~= toks0.skip(k - 1).reverse());
        }
    }
    proof {
        assert(rev@ == toks0.skip(0).reverse());
    }
    let mut st = PSt {
        done: Vec::new(),
        cmds: Vec::new(),
        cur: None,
        pending_redir: None,
        need_cmd: false,
        pos: 0,
        err: None,
    };
    proof {
        assert(view_pipes(Seq::<Pipeline>::empty()) =~= Seq::<PipelineV>::empty());
        assert(view_cmds(Seq::<Command>::empty()) =~= Seq::<CommandV>::empty());
        assert(tv.take(0) =~= Seq::<TokenV>::empty());
        assert(st@ == parse_init());
    }
    let mut i: usize = 0;
    while i < n
        invariant
            n == toks0.len(),
            tv == view_toks(toks0),
            i <= n,
            rev@ == toks0.skip(i as int).reverse(),
            st@ == parse_fold(tv.take(i as int)),
        decreases n - i,
    {
        proof {
            lemma_parse_fold_pos(tv.take(i as int));
            assert(tv.take(i as int).len() == i);
            lemma_parse_fold_step(tv, i as int);
            assert(rev@.len() == n - i);
            assert(rev@.last() == toks0[i as int]);
        }
        let t = rev.pop().unwrap();
        proof {
            assert(rev@ =~= toks0.skip(i as int + 1).reverse());
            assert(t@ == tv[i as int]);
        }
        st = parse_step_exec(st, t);
        i = i + 1;
    }
    proof {
        assert(tv.take(n as int) =~= tv);
    }
    if st.err.is_some() {
        let e = st.err.unwrap();
        return Err(e);
    }
    if st.pending_redir.is_some() {
        return Err(SyntaxError { pos: st.pos, expected: Expected::RedirTarget });
    }
    if st.cur.is_some() {
        let f = close_pipeline_exec(st, false, Sep::End, false);
        return Ok(f.done);
    }
    if st.need_cmd {
        return Err(SyntaxError { pos: st.pos, expected: Expected::Command });
    }
    Ok(st.done)
}

} // verus!

