//! Tokenizer: turns one line of input into shell tokens, honoring single
//! quotes (fully literal), double quotes (literal but expandable), and
//! backslash escapes outside single quotes. Operators `| & ; < > && || >>`
//! are recognized only outside quotes. A line that ends inside an open
//! quote fails with `UnterminatedQuote`.
//!
//! The tokenizer is specified as a fold of a pure step function over the
//! characters of the line; the executable scanner is proved equal to it.

use vstd::prelude::*;

verus! {

/// Why tokenizing failed.
#[derive(Clone, Copy, PartialEq, Eq, Structural, Debug)]
pub enum TokenizeError {
    /// The input ended inside an open single or double quote.
    UnterminatedQuote,
}

/// Quoting metadata of a word: was the whole word single-quoted,
/// double-quoted, or neither.
#[derive(Clone, Copy, PartialEq, Eq, Structural, Debug)]
pub enum Quoting {
    Unquoted,
    Single,
    Double,
}

/// A word token: its text with the quote and escape marks removed, plus
/// quoting metadata that decides whether the expander may rewrite it.
#[derive(Debug)]
pub struct WordToken {
    pub text: Vec<char>,
    pub quoting: Quoting,
}

/// Spec-level image of a word token.
#[verifier::ext_equal]
pub struct WordTokenV {
    pub text: Seq<char>,
    pub quoting: Quoting,
}

impl View for WordToken {
    type V = WordTokenV;

    open spec fn view(&self) -> WordTokenV {
        WordTokenV { text: self.text@, quoting: self.quoting }
    }
}

impl WordTokenV {
    /// A single-quoted word suppresses all expansion.
    pub open spec fn permits_expansion(self) -> bool {
        self.quoting != Quoting::Single
    }
}

impl WordToken {
    /// Whether the expander may rewrite this word.
    pub fn permits_expansion(&self) -> (r: bool)
        ensures
            r == self@.permits_expansion(),
    {
        !matches!(self.quoting, Quoting::Single)
    }
}

/// One shell token.
#[derive(Debug)]
pub enum Token {
    Word(WordToken),
    Pipe,
    AndAnd,
    OrOr,
    Semi,
    Amp,
    RedirIn,
    RedirOut,
    RedirAppend,
}

/// Spec-level image of a token.
#[verifier::ext_equal]
pub enum TokenV {
    Word(WordTokenV),
    Pipe,
    AndAnd,
    OrOr,
    Semi,
    Amp,
    RedirIn,
    RedirOut,
    RedirAppend,
}

impl View for Token {
    type V = TokenV;

    open spec fn view(&self) -> TokenV {
        match self {
            Token::Word(w) => TokenV::Word(w@),
            Token::Pipe => TokenV::Pipe,
            Token::AndAnd => TokenV::AndAnd,
            Token::OrOr => TokenV::OrOr,
            Token::Semi => TokenV::Semi,
            Token::Amp => TokenV::Amp,
            Token::RedirIn => TokenV::RedirIn,
            Token::RedirOut => TokenV::RedirOut,
            Token::RedirAppend => TokenV::RedirAppend,
        }
    }
}

/// The token images of a token sequence.
pub open spec fn view_toks(ts: Seq<Token>) -> Seq<TokenV> {
    ts.map_values(|t: Token| t@)
}

/// Whitespace separates tokens outside quotes.
pub open spec fn is_space_char(c: char) -> bool {
    c == ' ' || c == '\t' || c == '\n' || c == '\r'
}

fn is_space(c: char) -> (r: bool)
    ensures
        r == is_space_char(c),
{
    c == ' ' || c == '\t' || c == '\n' || c == '\r'
}

/// Scanner mode: inside which quoting construct the scan stands, or which
/// operator character is pending a possible second character.
#[derive(Clone, Copy, PartialEq, Eq, Structural, Debug)]
pub enum LexMode {
    Normal,
    InSingle,
    InDouble,
    Escaped,
    EscapedInDouble,
    AfterAmp,
    AfterPipe,
    AfterGt,
}

/// Accumulator for the word being scanned: its text so far, and whether
/// every part of it so far came from single (resp. double) quotes.
#[verifier::ext_equal]
pub struct WordAccV {
    pub text: Seq<char>,
    pub only_single: bool,
    pub only_double: bool,
}

/// Scanner state: tokens emitted, the word in progress, and the mode.
#[verifier::ext_equal]
pub struct LexStV {
    pub toks: Seq<TokenV>,
    pub cur: Option<WordAccV>,
    pub mode: LexMode,
}

/// Quoting of a finished word from its accumulator flags.
pub open spec fn acc_quoting(a: WordAccV) -> Quoting {
    if a.only_single {
        Quoting::Single
    } else if a.only_double {
        Quoting::Double
    } else {
        Quoting::Unquoted
    }
}

/// The accumulator to extend: the word in progress, or a fresh empty one.
pub open spec fn acc_of(st: LexStV) -> WordAccV {
    match st.cur {
        Some(a) => a,
        None => WordAccV { text: Seq::empty(), only_single: true, only_double: true },
    }
}

/// Emits the word in progress, if any, as a `Word` token.
pub open spec fn flush_word(st: LexStV) -> LexStV {
    match st.cur {
        Some(a) => LexStV {
            toks: st.toks.push(TokenV::Word(WordTokenV { text: a.text, quoting: acc_quoting(a) })),
            cur: None,
            mode: st.mode,
        },
        None => st,
    }
}

/// Handles one character in `Normal` mode (no quote open, no operator
/// character pending).
pub open spec fn lex_normal(st: LexStV, c: char) -> LexStV {
    if is_space_char(c) {
        LexStV { mode: LexMode::Normal, ..flush_word(st) }
    } else if c == '|' {
        LexStV { mode: LexMode::AfterPipe, ..flush_word(st) }
    } else if c == '&' {
        LexStV { mode: LexMode::AfterAmp, ..flush_word(st) }
    } else if c == '>' {
        LexStV { mode: LexMode::AfterGt, ..flush_word(st) }
    } else if c == ';' {
        let f = flush_word(st);
        LexStV { toks: f.toks.push(TokenV::Semi), cur: None, mode: LexMode::Normal }
    } else if c == '<' {
        let f = flush_word(st);
        LexStV { toks: f.toks.push(TokenV::RedirIn), cur: None, mode: LexMode::Normal }
    } else if c == '\'' {
        let a = acc_of(st);
        LexStV {
            toks: st.toks,
            cur: Some(WordAccV { only_double: false, ..a }),
            mode: LexMode::InSingle,
        }
    } else if c == '"' {
        let a = acc_of(st);
        LexStV {
            toks: st.toks,
            cur: Some(WordAccV { only_single: false, ..a }),
            mode: LexMode::InDouble,
        }
    } else if c == '\\' {
        LexStV { mode: LexMode::Escaped, ..st }
    } else {
        let a = acc_of(st);
        LexStV {
            toks: st.toks,
            cur: Some(WordAccV { text: a.text.push(c), only_single: false, only_double: false }),
            mode: LexMode::Normal,
        }
    }
}

/// One step of the scanner on one character.
pub open spec fn lex_step(st: LexStV, c: char) -> LexStV {
    match st.mode {
        LexMode::Normal => lex_normal(st, c),
        LexMode::InSingle => {
            if c == '\'' {
                LexStV { mode: LexMode::Normal, ..st }
            } else {
                let a = acc_of(st);
                LexStV {
                    toks: st.toks,
                    cur: Some(WordAccV { text: a.text.push(c), ..a }),
                    mode: LexMode::InSingle,
                }
            }
        },
        LexMode::InDouble => {
            if c == '"' {
                LexStV { mode: LexMode::Normal, ..st }
            } else if c == '\\' {
                LexStV { mode: LexMode::EscapedInDouble, ..st }
            } else {
                let a = acc_of(st);
                LexStV {
                    toks: st.toks,
                    cur: Some(WordAccV { text: a.text.push(c), ..a }),
                    mode: LexMode::InDouble,
                }
            }
        },
        LexMode::Escaped => {
            let a = acc_of(st);
            LexStV {
                toks: st.toks,
                cur: Some(WordAccV { text: a.text.push(c), only_single: false, only_double: false }),
                mode: LexMode::Normal,
            }
        },
        LexMode::EscapedInDouble => {
            let a = acc_of(st);
            LexStV {
                toks: st.toks,
                cur: Some(WordAccV { text: a.text.push(c), ..a }),
                mode: LexMode::InDouble,
            }
        },
        LexMode::AfterAmp => {
            if c == '&' {
                LexStV { toks: st.toks.push(TokenV::AndAnd), cur: st.cur, mode: LexMode::Normal }
            } else {
                lex_normal(LexStV { toks: st.toks.push(TokenV::Amp), cur: st.cur, mode: LexMode::Normal }, c)
            }
        },
        LexMode::AfterPipe => {
            if c == '|' {
                LexStV { toks: st.toks.push(TokenV::OrOr), cur: st.cur, mode: LexMode::Normal }
            } else {
                lex_normal(LexStV { toks: st.toks.push(TokenV::Pipe), cur: st.cur, mode: LexMode::Normal }, c)
            }
        },
        LexMode::AfterGt => {
            if c == '>' {
                LexStV { toks: st.toks.push(TokenV::RedirAppend), cur: st.cur, mode: LexMode::Normal }
            } else {
                lex_normal(LexStV { toks: st.toks.push(TokenV::RedirOut), cur: st.cur, mode: LexMode::Normal }, c)
            }
        },
    }
}

/// Scanner state before any character.
pub open spec fn lex_init() -> LexStV {
    LexStV { toks: Seq::empty(), cur: None, mode: LexMode::Normal }
}

/// The scanner state after the whole line: the step function folded over
/// the characters.
pub open spec fn lex_fold(s: Seq<char>) -> LexStV
    decreases s.len(),
{
    if s.len() == 0 {
        lex_init()
    } else {
        lex_step(lex_fold(s.drop_last()), s.last())
    }
}

/// Resolves the end of input: an open quote fails; a pending operator
/// character or word is emitted; a trailing backslash stands for itself.
pub open spec fn lex_finalize(st: LexStV) -> Result<Seq<TokenV>, TokenizeError> {
    match st.mode {
        LexMode::InSingle => Err(TokenizeError::UnterminatedQuote),
        LexMode::InDouble => Err(TokenizeError::UnterminatedQuote),
        LexMode::EscapedInDouble => Err(TokenizeError::UnterminatedQuote),
        LexMode::Escaped => {
            let a = acc_of(st);
            Ok(flush_word(LexStV {
                toks: st.toks,
                cur: Some(WordAccV { text: a.text.push('\\'), only_single: false, only_double: false }),
                mode: LexMode::Normal,
            }).toks)
        },
        LexMode::AfterAmp => Ok(st.toks.push(TokenV::Amp)),
        LexMode::AfterPipe => Ok(st.toks.push(TokenV::Pipe)),
        LexMode::AfterGt => Ok(st.toks.push(TokenV::RedirOut)),
        LexMode::Normal => Ok(flush_word(st).toks),
    }
}

/// What tokenizing a line yields.
pub open spec fn spec_tokenize(s: Seq<char>) -> Result<Seq<TokenV>, TokenizeError> {
    lex_finalize(lex_fold(s))
}

/// The token images of a tokenizer result.
pub open spec fn view_tok_result(r: Result<Vec<Token>, TokenizeError>) -> Result<
    Seq<TokenV>,
    TokenizeError,
> {
    match r {
        Ok(ts) => Ok(view_toks(ts@)),
        Err(e) => Err(e),
    }
}

/// Executable word accumulator.
struct WordAcc {
    text: Vec<char>,
    only_single: bool,
    only_double: bool,
}

impl View for WordAcc {
    type V = WordAccV;

    closed spec fn view(&self) -> WordAccV {
        WordAccV { text: self.text@, only_single: self.only_single, only_double: self.only_double }
    }
}

/// Executable scanner state.
struct LexSt {
    toks: Vec<Token>,
    cur: Option<WordAcc>,
    mode: LexMode,
}

impl View for LexSt {
    type V = LexStV;

    closed spec fn view(&self) -> LexStV {
        LexStV {
            toks: view_toks(self.toks@),
            cur: match self.cur {
                Some(a) => Some(a@),
                None => None,
            },
            mode: self.mode,
        }
    }
}

proof fn lemma_view_toks_push(ts: Seq<Token>, t: Token)
    ensures
        view_toks(ts.push(t)) == view_toks(ts).push(t@),
{
    assert(view_toks(ts.push(t)) =~= view_toks(ts).push(t@));
}

/// Executable counterpart of `acc_of`.
fn acc_take(cur: Option<WordAcc>, Ghost(st): Ghost<LexStV>) -> (r: WordAcc)
    requires
        st.cur == match cur {
            Some(a) => Some(a@),
            None => None::<WordAccV>,
        },
    ensures
        r@ == acc_of(st),
{
    match cur {
        Some(a) => a,
        None => WordAcc { text: Vec::new(), only_single: true, only_double: true },
    }
}

/// Executable counterpart of `flush_word`.
fn flush_word_exec(st: LexSt) -> (r: LexSt)
    ensures
        r@ == flush_word(st@),
{
    match st.cur {
        Some(a) => {
            let quoting = if a.only_single {
                Quoting::Single
            } else if a.only_double {
                Quoting::Double
            } else {
                Quoting::Unquoted
            };
            let mut toks = st.toks;
            let w = Token::Word(WordToken { text: a.text, quoting });
            proof {
                lemma_view_toks_push(toks@, w);
            }
            toks.push(w);
            LexSt { toks, cur: None, mode: st.mode }
        },
        None => st,
    }
}

/// Pushes a plain (word-free) token.
fn push_tok(st: LexSt, t: Token, mode: LexMode) -> (r: LexSt)
    requires
        !(t is Word),
    ensures
        r@ == (LexStV { toks: st@.toks.push(t@), cur: st@.cur, mode }),
{
    let mut toks = st.toks;
    proof {
        lemma_view_toks_push(toks@, t);
    }
    toks.push(t);
    LexSt { toks, cur: st.cur, mode }
}

/// Executable counterpart of `lex_normal`.
fn lex_normal_exec(st: LexSt, c: char) -> (r: LexSt)
    requires
        st@.mode == LexMode::Normal,
    ensures
        r@ == lex_normal(st@, c),
{
    if is_space(c) {
        let f = flush_word_exec(st);
        LexSt { mode: LexMode::Normal, ..f }
    } else if c == '|' {
        let f = flush_word_exec(st);
        LexSt { mode: LexMode::AfterPipe, ..f }
    } else if c == '&' {
        let f = flush_word_exec(st);
        LexSt { mode: LexMode::AfterAmp, ..f }
    } else if c == '>' {
        let f = flush_word_exec(st);
        LexSt { mode: LexMode::AfterGt, ..f }
    } else if c == ';' {
        let f = flush_word_exec(st);
        push_tok(f, Token::Semi, LexMode::Normal)
    } else if c == '<' {
        let f = flush_word_exec(st);
        push_tok(f, Token::RedirIn, LexMode::Normal)
    } else if c == '\'' {
        let ghost stv = st@;
        let toks = st.toks;
        let a = acc_take(st.cur, Ghost(stv));
        LexSt {
            toks,
            cur: Some(WordAcc { only_double: false, ..a }),
            mode: LexMode::InSingle,
        }
    } else if c == '"' {
        let ghost stv = st@;
        let toks = st.toks;
        let a = acc_take(st.cur, Ghost(stv));
        LexSt {
            toks,
            cur: Some(WordAcc { only_single: false, ..a }),
            mode: LexMode::InDouble,
        }
    } else if c == '\\' {
        LexSt { mode: LexMode::Escaped, ..st }
    } else {
        let ghost stv = st@;
        let toks = st.toks;
        let mut a = acc_take(st.cur, Ghost(stv));
        a.text.push(c);
        LexSt {
            toks,
            cur: Some(WordAcc { text: a.text, only_single: false, only_double: false }),
            mode: LexMode::Normal,
        }
    }
}

/// Appends one literal character to the word in progress.
fn append_char(st: LexSt, c: char, clear_flags: bool, mode: LexMode) -> (r: LexSt)
    ensures
        clear_flags ==> r@ == (LexStV {
            toks: st@.toks,
            cur: Some(
                WordAccV {
                    text: acc_of(st@).text.push(c),
                    only_single: false,
                    only_double: false,
                },
            ),
            mode,
        }),
        !clear_flags ==> r@ == (LexStV {
            toks: st@.toks,
            cur: Some(WordAccV { text: acc_of(st@).text.push(c), ..acc_of(st@) }),
            mode,
        }),
{
    let ghost stv = st@;
    let toks = st.toks;
    let mut a = acc_take(st.cur, Ghost(stv));
    a.text.push(c);
    if clear_flags {
        a.only_single = false;
        a.only_double = false;
    }
    LexSt { toks, cur: Some(a), mode }
}

/// Executable counterpart of `lex_step`.
fn lex_step_exec(st: LexSt, c: char) -> (r: LexSt)
    ensures
        r@ == lex_step(st@, c),
{
    match st.mode {
        LexMode::Normal => lex_normal_exec(st, c),
        LexMode::InSingle => {
            if c == '\'' {
                LexSt { mode: LexMode::Normal, ..st }
            } else {
                append_char(st, c, false, LexMode::InSingle)
            }
        },
        LexMode::InDouble => {
            if c == '"' {
                LexSt { mode: LexMode::Normal, ..st }
            } else if c == '\\' {
                LexSt { mode: LexMode::EscapedInDouble, ..st }
            } else {
                append_char(st, c, false, LexMode::InDouble)
            }
        },
        LexMode::Escaped => append_char(st, c, true, LexMode::Normal),
        LexMode::EscapedInDouble => append_char(st, c, false, LexMode::InDouble),
        LexMode::AfterAmp => {
            if c == '&' {
                push_tok(st, Token::AndAnd, LexMode::Normal)
            } else {
                let f = push_tok(st, Token::Amp, LexMode::Normal);
                lex_normal_exec(f, c)
            }
        },
        LexMode::AfterPipe => {
            if c == '|' {
                push_tok(st, Token::OrOr, LexMode::Normal)
            } else {
                let f = push_tok(st, Token::Pipe, LexMode::Normal);
                lex_normal_exec(f, c)
            }
        },
        LexMode::AfterGt => {
            if c == '>' {
                push_tok(st, Token::RedirAppend, LexMode::Normal)
            } else {
                let f = push_tok(st, Token::RedirOut, LexMode::Normal);
                lex_normal_exec(f, c)
            }
        },
    }
}

proof fn lemma_lex_fold_step(s: Seq<char>, i: int)
    requires
        0 <= i < s.len(),
    ensures
        lex_fold(s.take(i + 1)) == lex_step(lex_fold(s.take(i)), s[i]),
{
    let t = s.take(i + 1);
    assert(t.drop_last() =~= s.take(i));
    assert(t.last() == s[i]);
}

/// Turns one line of raw input into tokens.
///
/// Whitespace outside quotes separates tokens; single quotes embed literal
/// text; double quotes embed text that still permits expansion; a backslash
/// outside single quotes escapes the next character; `| & ; < > && || >>`
/// are operators outside quotes. Fails with `UnterminatedQuote` exactly
/// when the line ends inside an open quote.
pub fn tokenize(line: &str) -> (r: Result<Vec<Token>, TokenizeError>)
    ensures
        view_tok_result(r) == spec_tokenize(line@),
{
    let chars = crate::str_to_chars(line);
    let n = chars.len();
    let mut st = LexSt { toks: Vec::new(), cur: None, mode: LexMode::Normal };
    proof {
        assert(view_toks(Seq::<Token>::empty()) =~= Seq::<TokenV>::empty());
        assert(line@.take(0) =~= Seq::<char>::empty());
    }
    let mut i: usize = 0;
    while i < n
        invariant
            n == chars@.len(),
            chars@ == line@,
            i <= n,
            st@ == lex_fold(line@.take(i as int)),
        decreases n - i,
    {
        proof {
            lemma_lex_fold_step(line@, i as int);
        }
        let c = chars[i];
        st = lex_step_exec(st, c);
        i = i + 1;
    }
    proof {
        assert(line@.take(n as int) =~= line@);
    }
    match st.mode {
        LexMode::InSingle => Err(TokenizeError::UnterminatedQuote),
        LexMode::InDouble => Err(TokenizeError::UnterminatedQuote),
        LexMode::EscapedInDouble => Err(TokenizeError::UnterminatedQuote),
        LexMode::Escaped => {
            let f = append_char(st, '\\', true, LexMode::Normal);
            let f = flush_word_exec(f);
            Ok(f.toks)
        },
        LexMode::AfterAmp => {
            let f = push_tok(st, Token::Amp, LexMode::Normal);
            Ok(f.toks)
        },
        LexMode::AfterPipe => {
            let f = push_tok(st, Token::Pipe, LexMode::Normal);
            Ok(f.toks)
        },
        LexMode::AfterGt => {
            let f = push_tok(st, Token::RedirOut, LexMode::Normal);
            Ok(f.toks)
        },
        LexMode::Normal => {
            let f = flush_word_exec(st);
            Ok(f.toks)
        },
    }
}

/// Whether the scan of `s` ends inside an open quote (a quote was opened
/// and never closed, counting escapes outside single quotes).
pub open spec fn ends_inside_open_quote(s: Seq<char>) -> bool {
    let m = lex_fold(s).mode;
    m == LexMode::InSingle || m == LexMode::InDouble || m == LexMode::EscapedInDouble
}

/// Tokenizing fails, and fails with `UnterminatedQuote`, exactly on the
/// inputs that end inside an open quote.
pub proof fn lemma_unterminated_quote(s: Seq<char>)
    ensures
        ends_inside_open_quote(s) <==> spec_tokenize(s) == Err::<Seq<TokenV>, TokenizeError>(
            TokenizeError::UnterminatedQuote,
        ),
        ends_inside_open_quote(s) <==> spec_tokenize(s) is Err,
{
}

proof fn lemma_single_quote_body(t: Seq<char>)
    requires
        forall|i: int| 0 <= i < t.len() ==> t[i] != '\'',
    ensures
        lex_fold(seq!['\''] + t) == (LexStV {
            toks: Seq::empty(),
            cur: Some(WordAccV { text: t, only_single: true, only_double: false }),
            mode: LexMode::InSingle,
        }),
    decreases t.len(),
{
    let s = seq!['\''] + t;
    if t.len() == 0 {
        assert(s =~= seq!['\'']);
        assert(s.len() == 1);
        assert(s.last() == '\'');
        assert(s.drop_last() =~= Seq::<char>::empty());
        assert(lex_fold(s.drop_last()) == lex_init());
        assert(lex_fold(s) == lex_step(lex_init(), '\''));
        assert(lex_fold(s) =~~= LexStV {
            toks: Seq::empty(),
            cur: Some(WordAccV { text: t, only_single: true, only_double: false }),
            mode: LexMode::InSingle,
        });
    } else {
        let t0 = t.drop_last();
        let c = t.last();
        lemma_single_quote_body(t0);
        assert(s.drop_last() =~= seq!['\''] + t0);
        assert(s.last() == c);
        assert(c != '\'');
        assert(lex_fold(s) == lex_step(lex_fold(seq!['\''] + t0), c));
        assert(t0.push(c) =~= t);
        assert(lex_fold(s) =~~= LexStV {
            toks: Seq::empty(),
            cur: Some(WordAccV { text: t, only_single: true, only_double: false }),
            mode: LexMode::InSingle,
        });
    }
}

/// Any well-formed single-quoted text tokenizes to exactly one `Word`
/// token carrying the enclosed text literally, marked single-quoted, so
/// that no expansion applies to it, regardless of its contents.
pub proof fn lemma_single_quoted_word(t: Seq<char>)
    requires
        forall|i: int| 0 <= i < t.len() ==> t[i] != '\'',
    ensures
        spec_tokenize(seq!['\''] + t + seq!['\'']) == Ok::<Seq<TokenV>, TokenizeError>(
            seq![TokenV::Word(WordTokenV { text: t, quoting: Quoting::Single })],
        ),
{
    let s = seq!['\''] + t + seq!['\''];
    lemma_single_quote_body(t);
    assert(s.drop_last() =~= seq!['\''] + t);
    assert(s.last() == '\'');
    assert(lex_fold(s) == lex_step(lex_fold(seq!['\''] + t), '\''));
    let st = lex_fold(s);
    assert(st.mode == LexMode::Normal);
    assert(st.cur == Some(WordAccV { text: t, only_single: true, only_double: false }));
    assert(spec_tokenize(s) == Ok::<Seq<TokenV>, TokenizeError>(flush_word(st).toks));
    assert(flush_word(st).toks =~~= seq![
        TokenV::Word(WordTokenV { text: t, quoting: Quoting::Single }),
    ]);
}

} // verus!
