//! Core of a small interactive shell: a tokenizer honoring quoting and
//! escapes, a parser producing pipelines with redirections and separators,
//! an expander for environment variables and tildes, a job table, and the
//! pure decision logic that drives execution of a command list.

pub mod builtins;
pub mod env;
pub mod expand;
pub mod jobs;
pub mod launch;
pub mod lex;
pub mod parse;
pub mod state;

use vstd::prelude::*;

verus! {

/// Converts a string slice into its sequence of characters.
pub fn str_to_chars(s: &str) -> (r: Vec<char>)
    ensures
        r@ == s@,
{
    let n: usize = s.unicode_len();
    let mut r: Vec<char> = Vec::new();
    let mut i: usize = 0;
    while i < n
        invariant
            n == s@.len(),
            i <= n,
            r@ == s@.take(i as int),
        decreases n - i,
    {
        r.push(s.get_char(i));
        i = i + 1;
        proof {
            assert(r@ =~= s@.take(i as int));
        }
    }
    proof {
        assert(s@.take(n as int) =~= s@);
    }
    r
}

/// Why one input line could not be turned into a command list.
#[derive(Clone, Copy, PartialEq, Eq, Structural, Debug)]
pub enum LineError {
    /// The line ended inside an open quote; the caller should prompt for
    /// continuation or report a syntax error at end of input.
    UnterminatedQuote,
    /// The token sequence breaks the grammar.
    Syntax(parse::SyntaxError),
}

/// What reading one line yields: the pipelines of its command list, or
/// why it was refused.
pub open spec fn spec_run_cmdline(s: Seq<char>) -> Result<Seq<parse::PipelineV>, LineError> {
    match lex::spec_tokenize(s) {
        Err(_) => Err(LineError::UnterminatedQuote),
        Ok(ts) => match parse::spec_parse(ts) {
            Err(e) => Err(LineError::Syntax(e)),
            Ok(ps) => Ok(ps),
        },
    }
}

/// The session: the prompt to show and the mutable shell state. The
/// caller reads lines, turns each into a command list here, and drives
/// builtins, launch plans and job events through the state's methods.
pub struct Shell {
    pub prompt: String,
    pub state: state::ShellState,
}

impl Shell {
    /// A fresh session with the given prompt and an initial state.
    pub fn new(prompt: String) -> (r: Shell)
        ensures
            r.prompt@ == prompt@,
            r.state.wf(),
            r.state.cwd@.len() == 0,
            r.state.env@ == Map::<Seq<char>, Seq<char>>::empty(),
            r.state.jobs.jobs@.len() == 0,
            r.state.last_status == 0,
    {
        Shell { prompt, state: state::ShellState::new() }
    }

    /// Turns one line of input into the pipelines of its command list:
    /// tokenizes honoring quoting, then parses. The line is not run
    /// here: expansion and launch come pipeline by pipeline, so that an
    /// earlier directory change or export affects later stages.
    pub fn run_cmdline(&self, cmd_line: &str) -> (r: Result<Vec<parse::Pipeline>, LineError>)
        ensures
            match r {
                Ok(ps) => spec_run_cmdline(cmd_line@) == Ok::<_, LineError>(
                    parse::view_pipes(ps@),
                ),
                Err(e) => spec_run_cmdline(cmd_line@) == Err::<Seq<parse::PipelineV>, _>(e),
            },
    {
        match lex::tokenize(cmd_line) {
            Err(_) => Err(LineError::UnterminatedQuote),
            Ok(toks) => match parse::parse(toks) {
                Err(e) => Err(LineError::Syntax(e)),
                Ok(ps) => Ok(ps),
            },
        }
    }
}

} // verus!
