//! Expander: resolves `$NAME` and `${NAME}` references and a leading `~`
//! on parsed words, producing the final argument text. An undefined
//! variable expands to the empty string, as conventional shell semantics
//! ask, so expansion never fails. A single-quoted word is returned
//! unchanged. A leading `~` (alone or before `/`) becomes the value of
//! `HOME` when it is bound, and stays literal when it is not; `~user`
//! lookup is out of scope.
//!
//! Like the tokenizer, the `$` scan is specified as a fold of a pure step
//! function over the characters, and the executable scan is proved equal.

use vstd::prelude::*;

use crate::env::Env;
use crate::lex::WordToken;
use crate::lex::WordTokenV;

verus! {

/// Name characters: letters, digits and underscore.
pub open spec fn is_name_char_spec(c: char) -> bool {
    ('a' as u32 <= c as u32 && c as u32 <= 'z' as u32) || ('A' as u32 <= c as u32 && c as u32
        <= 'Z' as u32) || ('0' as u32 <= c as u32 && c as u32 <= '9' as u32) || c == '_'
}

pub fn is_name_char(c: char) -> (r: bool)
    ensures
        r == is_name_char_spec(c),
{
    let u: u32 = c as u32;
    ('a' as u32 <= u && u <= 'z' as u32) || ('A' as u32 <= u && u <= 'Z' as u32) || ('0' as u32 <= u
        && u <= '9' as u32) || c == '_'
}

/// What a variable reference expands to: its value, or nothing.
pub open spec fn lookup(env: Map<Seq<char>, Seq<char>>, name: Seq<char>) -> Seq<char> {
    if env.contains_key(name) {
        env[name]
    } else {
        Seq::empty()
    }
}

/// Scanner mode of the `$` scan: plain copying, just after `$`, inside a
/// bare `$NAME`, or inside `${NAME}`.
#[verifier::ext_equal]
pub enum EModeV {
    Plain,
    Dollar,
    Name(Seq<char>),
    Brace(Seq<char>),
}

/// Scanner state of the `$` scan: the output so far and the mode.
#[verifier::ext_equal]
pub struct ExpStV {
    pub out: Seq<char>,
    pub mode: EModeV,
}

/// Handles one character in `Plain` mode.
pub open spec fn plain_step(out: Seq<char>, c: char) -> ExpStV {
    if c == '$' {
        ExpStV { out, mode: EModeV::Dollar }
    } else {
        ExpStV { out: out.push(c), mode: EModeV::Plain }
    }
}

/// One step of the `$` scan on one character.
pub open spec fn exp_step(st: ExpStV, c: char, env: Map<Seq<char>, Seq<char>>) -> ExpStV {
    match st.mode {
        EModeV::Plain => plain_step(st.out, c),
        EModeV::Dollar => {
            if c == '{' {
                ExpStV { out: st.out, mode: EModeV::Brace(Seq::empty()) }
            } else if is_name_char_spec(c) {
                ExpStV { out: st.out, mode: EModeV::Name(seq![c]) }
            } else {
                plain_step(st.out.push('$'), c)
            }
        },
        EModeV::Name(acc) => {
            if is_name_char_spec(c) {
                ExpStV { out: st.out, mode: EModeV::Name(acc.push(c)) }
            } else {
                plain_step(st.out + lookup(env, acc), c)
            }
        },
        EModeV::Brace(acc) => {
            if c == '}' {
                ExpStV { out: st.out + lookup(env, acc), mode: EModeV::Plain }
            } else {
                ExpStV { out: st.out, mode: EModeV::Brace(acc.push(c)) }
            }
        },
    }
}

/// The `$`-scan state after the whole text: the step function folded over
/// the characters.
pub open spec fn exp_fold(t: Seq<char>, env: Map<Seq<char>, Seq<char>>) -> ExpStV
    decreases t.len(),
{
    if t.len() == 0 {
        ExpStV { out: Seq::empty(), mode: EModeV::Plain }
    } else {
        exp_step(exp_fold(t.drop_last(), env), t.last(), env)
    }
}

/// Resolves the end of the text: a pending name is looked up; an
/// unfinished `${` stays literal; a trailing `$` stays literal.
pub open spec fn exp_finalize(st: ExpStV, env: Map<Seq<char>, Seq<char>>) -> Seq<char> {
    match st.mode {
        EModeV::Plain => st.out,
        EModeV::Dollar => st.out.push('$'),
        EModeV::Name(acc) => st.out + lookup(env, acc),
        EModeV::Brace(acc) => st.out + seq!['$', '{'] + acc,
    }
}

/// What the `$` scan of a text yields.
pub open spec fn spec_dollars(t: Seq<char>, env: Map<Seq<char>, Seq<char>>) -> Seq<char> {
    exp_finalize(exp_fold(t, env), env)
}

/// The name of the home-directory variable.
pub open spec fn home_name() -> Seq<char> {
    seq!['H', 'O', 'M', 'E']
}

/// Whether a text begins with a `~` that is subject to tilde expansion:
/// alone, or before a `/`.
pub open spec fn has_leading_tilde(t: Seq<char>) -> bool {
    t.len() > 0 && t[0] == '~' && (t.len() == 1 || t[1] == '/')
}

/// What expanding a text yields: tilde expansion on a leading `~`, then
/// the `$` scan on the rest.
pub open spec fn spec_expand_text(t: Seq<char>, env: Map<Seq<char>, Seq<char>>) -> Seq<char> {
    if has_leading_tilde(t) {
        if env.contains_key(home_name()) {
            env[home_name()] + spec_dollars(t.skip(1), env)
        } else {
            seq!['~'] + spec_dollars(t.skip(1), env)
        }
    } else {
        spec_dollars(t, env)
    }
}

/// What expanding a word yields: its text unchanged when the word was
/// single-quoted, its expanded text otherwise.
pub open spec fn spec_expand_word(w: WordTokenV, env: Map<Seq<char>, Seq<char>>) -> Seq<char> {
    if w.permits_expansion() {
        spec_expand_text(w.text, env)
    } else {
        w.text
    }
}

/// Copies a character slice into a fresh vector.
pub fn chars_copy(s: &[char]) -> (r: Vec<char>)
    ensures
        r@ == s@,
{
    let mut r: Vec<char> = Vec::new();
    let n = s.len();
    let mut i: usize = 0;
    while i < n
        invariant
            n == s@.len(),
            i <= n,
            r@ == s@.take(i as int),
        decreases n - i,
    {
        r.push(s[i]);
        i = i + 1;
        proof {
            assert(r@ =~= s@.take(i as int));
        }
    }
    proof {
        assert(s@.take(n as int) =~= s@);
    }
    r
}

/// Appends a character slice to a vector.
fn append_chars(out: &mut Vec<char>, s: &[char])
    ensures
        final(out)@ == old(out)@ + s@,
{
    let n = s.len();
    let mut i: usize = 0;
    while i < n
        invariant
            n == s@.len(),
            i <= n,
            out@ == old(out)@ + s@.take(i as int),
        decreases n - i,
    {
        out.push(s[i]);
        i = i + 1;
        proof {
            assert(out@ =~= old(out)@ + s@.take(i as int));
        }
    }
    proof {
        assert(old(out)@ + s@.take(n as int) =~= old(out)@ + s@);
    }
}

/// Appends what a variable reference expands to.
fn append_lookup(out: &mut Vec<char>, env: &Env, name: &[char])
    ensures
        final(out)@ == old(out)@ + lookup(env@, name@),
{
    match env.get(name) {
        Some(v) => append_chars(out, v.as_slice()),
        None => {
            proof {
                assert(old(out)@ + lookup(env@, name@) =~= old(out)@);
            }
        },
    }
}

/// Executable scanner mode.
enum EMode {
    Plain,
    Dollar,
    Name(Vec<char>),
    Brace(Vec<char>),
}

impl View for EMode {
    type V = EModeV;

    closed spec fn view(&self) -> EModeV {
        match self {
            EMode::Plain => EModeV::Plain,
            EMode::Dollar => EModeV::Dollar,
            EMode::Name(acc) => EModeV::Name(acc@),
            EMode::Brace(acc) => EModeV::Brace(acc@),
        }
    }
}

/// Executable counterpart of `exp_step`: the output is kept below `pre`
/// plus the spec state's output, the mode beside it.
fn exp_step_exec(
    out: &mut Vec<char>,
    mode: EMode,
    c: char,
    env: &Env,
    Ghost(pre): Ghost<Seq<char>>,
    Ghost(stv): Ghost<ExpStV>,
) -> (m2: EMode)
    requires
        old(out)@ == pre + stv.out,
        mode@ == stv.mode,
    ensures
        final(out)@ == pre + exp_step(stv, c, env@).out,
        m2@ == exp_step(stv, c, env@).mode,
{
    match mode {
        EMode::Plain => {
            let m2 = exp_plain_exec(out, c);
            proof {
                assert((pre + stv.out).push(c) =~= pre + stv.out.push(c));
            }
            m2
        },
        EMode::Dollar => {
            if c == '{' {
                EMode::Brace(Vec::new())
            } else if is_name_char(c) {
                let mut acc: Vec<char> = Vec::new();
                acc.push(c);
                proof {
                    assert(acc@ =~= seq![c]);
                }
                EMode::Name(acc)
            } else {
                out.push('$');
                proof {
                    assert(out@ =~= pre + stv.out.push('$'));
                }
                let m2 = exp_plain_exec(out, c);
                proof {
                    assert((pre + stv.out.push('$')).push(c) =~= pre + stv.out.push('$').push(c));
                }
                m2
            }
        },
        EMode::Name(acc) => {
            if is_name_char(c) {
                let mut acc2 = acc;
                acc2.push(c);
                EMode::Name(acc2)
            } else {
                append_lookup(out, env, acc.as_slice());
                proof {
                    assert(out@ =~= pre + (stv.out + lookup(env@, acc@)));
                }
                let m2 = exp_plain_exec(out, c);
                proof {
                    assert((pre + (stv.out + lookup(env@, acc@))).push(c) =~= pre + (stv.out
                        + lookup(env@, acc@)).push(c));
                }
                m2
            }
        },
        EMode::Brace(acc) => {
            if c == '}' {
                append_lookup(out, env, acc.as_slice());
                proof {
                    assert(out@ =~= pre + (stv.out + lookup(env@, acc@)));
                }
                EMode::Plain
            } else {
                let mut acc2 = acc;
                acc2.push(c);
                EMode::Brace(acc2)
            }
        },
    }
}

/// Executable counterpart of `plain_step`, given output `pre + o`.
fn exp_plain_exec(out: &mut Vec<char>, c: char) -> (m2: EMode)
    ensures
        c == '$' ==> final(out)@ == old(out)@ && m2@ == EModeV::Dollar,
        c != '$' ==> final(out)@ == old(out)@.push(c) && m2@ == EModeV::Plain,
{
    if c == '$' {
        EMode::Dollar
    } else {
        out.push(c);
        EMode::Plain
    }
}

proof fn lemma_exp_fold_step(t: Seq<char>, i: int, env: Map<Seq<char>, Seq<char>>)
    requires
        0 <= i < t.len(),
    ensures
        exp_fold(t.take(i + 1), env) == exp_step(exp_fold(t.take(i), env), t[i], env),
{
    let s = t.take(i + 1);
    assert(s.drop_last() =~= t.take(i));
    assert(s.last() == t[i]);
}

/// Expands one word: tilde expansion on a leading unquoted `~`, then
/// `$NAME` / `${NAME}` resolution, unless the word was single-quoted.
pub fn expand_word(w: &WordToken, env: &Env) -> (r: Vec<char>)
    ensures
        r@ == spec_expand_word(w@, env@),
{
    if !w.permits_expansion() {
        return chars_copy(w.text.as_slice());
    }
    let t = &w.text;
    let n = t.len();
    let mut out: Vec<char> = Vec::new();
    let mut start: usize = 0;
    let tilde = n > 0 && t[0] == '~' && (n == 1 || t[1] == '/');
    let ghost pre: Seq<char>;
    if tilde {
        let mut home: Vec<char> = Vec::new();
        home.push('H');
        home.push('O');
        home.push('M');
        home.push('E');
        proof {
            assert(home@ =~= home_name());
        }
        match env.get(home.as_slice()) {
            Some(v) => append_chars(&mut out, v.as_slice()),
            None => out.push('~'),
        }
        start = 1;
        proof {
            pre = out@;
            if env@.contains_key(home_name()) {
                assert(pre == Seq::<char>::empty() + env@[home_name()]);
                assert(pre =~= env@[home_name()]);
            } else {
                assert(pre =~= seq!['~']);
            }
        }
    } else {
        proof {
            pre = Seq::<char>::empty();
        }
    }
    let ghost sub = t@.skip(start as int);
    let mut mode = EMode::Plain;
    let mut i: usize = start;
    proof {
        assert(sub.take(0) =~= Seq::<char>::empty());
        assert(out@ =~= pre + exp_fold(sub.take(0), env@).out);
    }
    while i < n
        invariant
            n == t@.len(),
            start <= i <= n,
            sub == t@.skip(start as int),
            out@ == pre + exp_fold(sub.take(i - start), env@).out,
            mode@ == exp_fold(sub.take(i - start), env@).mode,
        decreases n - i,
    {
        proof {
            lemma_exp_fold_step(sub, i - start, env@);
            assert(sub[i - start] == t@[i as int]);
        }
        let c = t[i];
        mode = exp_step_exec(
            &mut out,
            mode,
            c,
            env,
            Ghost(pre),
            Ghost(exp_fold(sub.take(i - start), env@)),
        );
        i = i + 1;
    }
    proof {
        assert(sub.take(n - start) =~= sub);
    }
    match mode {
        EMode::Plain => {},
        EMode::Dollar => {
            out.push('$');
            proof {
                assert(out@ =~= pre + exp_fold(sub, env@).out.push('$'));
            }
        },
        EMode::Name(acc) => {
            append_lookup(&mut out, env, acc.as_slice());
            proof {
                assert(out@ =~= pre + (exp_fold(sub, env@).out + lookup(env@, acc@)));
            }
        },
        EMode::Brace(acc) => {
            out.push('$');
            out.push('{');
            append_chars(&mut out, acc.as_slice());
            proof {
                assert(out@ =~= pre + (exp_fold(sub, env@).out + seq!['$', '{'] + acc@));
            }
        },
    }
    proof {
        assert(out@ == pre + exp_finalize(exp_fold(sub, env@), env@));
        if tilde {
            assert(has_leading_tilde(t@));
            assert(out@ == spec_expand_text(t@, env@));
        } else {
            assert(!has_leading_tilde(t@));
            assert(sub =~= t@);
            assert(out@ =~= spec_dollars(t@, env@));
        }
    }
    out
}

proof fn lemma_no_dollar_fold(t: Seq<char>, env: Map<Seq<char>, Seq<char>>)
    requires
        forall|i: int| 0 <= i < t.len() ==> t[i] != '$',
    ensures
        exp_fold(t, env) == (ExpStV { out: t, mode: EModeV::Plain }),
    decreases t.len(),
{
    if t.len() == 0 {
        assert(exp_fold(t, env) =~~= ExpStV { out: t, mode: EModeV::Plain });
    } else {
        lemma_no_dollar_fold(t.drop_last(), env);
        assert(t.drop_last().push(t.last()) =~= t);
        assert(exp_fold(t, env) =~~= ExpStV { out: t, mode: EModeV::Plain });
    }
}

/// Expanding a word that contains no `$` and has no leading `~` returns
/// its text unchanged, whatever its quoting.
pub proof fn lemma_expand_unchanged(w: WordTokenV, env: Map<Seq<char>, Seq<char>>)
    requires
        forall|i: int| 0 <= i < w.text.len() ==> w.text[i] != '$',
        w.text.len() == 0 || w.text[0] != '~',
    ensures
        spec_expand_word(w, env) == w.text,
{
    if w.permits_expansion() {
        assert(!has_leading_tilde(w.text));
        lemma_no_dollar_fold(w.text, env);
    }
}

} // verus!
