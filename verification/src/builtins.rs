//! Builtin dispatcher: recognizes the commands that must run inside the
//! shell's own process — `cd`, `exit`, `jobs`, `export` — and the pure
//! decisions behind each. Builtins are checked before the executor is
//! asked to spawn anything, and they mutate `ShellState` directly.

use vstd::prelude::*;

use crate::env::Env;
use crate::env::chars_eq;
use crate::expand::home_name;
use crate::state::ShellState;

verus! {

/// A command that runs in-process.
#[derive(Clone, Copy, PartialEq, Eq, Structural, Debug)]
pub enum Builtin {
    Cd,
    Exit,
    Jobs,
    Export,
}

/// The name of the directory-change builtin.
pub open spec fn cd_name() -> Seq<char> {
    seq!['c', 'd']
}

/// The name of the session-ending builtin.
pub open spec fn exit_name() -> Seq<char> {
    seq!['e', 'x', 'i', 't']
}

/// The name of the job-listing builtin.
pub open spec fn jobs_name() -> Seq<char> {
    seq!['j', 'o', 'b', 's']
}

/// The name of the variable-exporting builtin.
pub open spec fn export_name() -> Seq<char> {
    seq!['e', 'x', 'p', 'o', 'r', 't']
}

/// Recognizes a builtin by the expanded program name; `None` exactly for
/// the names that fall through to the executor.
pub fn recognize_builtin(name: &[char]) -> (r: Option<Builtin>)
    ensures
        r == Some(Builtin::Cd) <==> name@ == cd_name(),
        r == Some(Builtin::Exit) <==> name@ == exit_name(),
        r == Some(Builtin::Jobs) <==> name@ == jobs_name(),
        r == Some(Builtin::Export) <==> name@ == export_name(),
        r is None <==> (name@ != cd_name() && name@ != exit_name() && name@ != jobs_name()
            && name@ != export_name()),
{
    let mut w: Vec<char> = Vec::new();
    w.push('c');
    w.push('d');
    proof {
        assert(w@ =~= cd_name());
    }
    if chars_eq(name, w.as_slice()) {
        return Some(Builtin::Cd);
    }
    let mut w: Vec<char> = Vec::new();
    w.push('e');
    w.push('x');
    w.push('i');
    w.push('t');
    proof {
        assert(w@ =~= exit_name());
    }
    if chars_eq(name, w.as_slice()) {
        return Some(Builtin::Exit);
    }
    let mut w: Vec<char> = Vec::new();
    w.push('j');
    w.push('o');
    w.push('b');
    w.push('s');
    proof {
        assert(w@ =~= jobs_name());
    }
    if chars_eq(name, w.as_slice()) {
        return Some(Builtin::Jobs);
    }
    let mut w: Vec<char> = Vec::new();
    w.push('e');
    w.push('x');
    w.push('p');
    w.push('o');
    w.push('r');
    w.push('t');
    proof {
        assert(w@ =~= export_name());
    }
    if chars_eq(name, w.as_slice()) {
        return Some(Builtin::Export);
    }
    None
}

/// The target of `cd`: its argument when one is given, else the value of
/// `HOME`, else nothing.
pub fn cd_target(argv: &Vec<Vec<char>>, env: &Env) -> (r: Option<Vec<char>>)
    ensures
        argv@.len() >= 2 ==> (r matches Some(p) && p@ == argv@[1]@),
        argv@.len() < 2 && env@.contains_key(home_name()) ==> (r matches Some(p) && p@
            == env@[home_name()]),
        argv@.len() < 2 && !env@.contains_key(home_name()) ==> r is None,
{
    if argv.len() >= 2 {
        return Some(crate::expand::chars_copy(argv[1].as_slice()));
    }
    let mut w: Vec<char> = Vec::new();
    w.push('H');
    w.push('O');
    w.push('M');
    w.push('E');
    proof {
        assert(w@ =~= home_name());
    }
    match env.get(w.as_slice()) {
        Some(v) => Some(crate::expand::chars_copy(v.as_slice())),
        None => None,
    }
}

/// The position of the first `=` in a text, from position `i` on.
pub open spec fn first_eq_from(t: Seq<char>, i: int) -> Option<int>
    decreases t.len() - i,
{
    if i < 0 || i >= t.len() {
        None
    } else if t[i] == '=' {
        Some(i)
    } else {
        first_eq_from(t, i + 1)
    }
}

/// Finds the first `=` of a text.
fn find_eq(t: &Vec<char>) -> (r: Option<usize>)
    ensures
        match r {
            Some(i) => i < t@.len() && first_eq_from(t@, 0) == Some(i as int),
            None => first_eq_from(t@, 0) is None,
        },
{
    let n = t.len();
    let mut i: usize = 0;
    while i < n
        invariant
            n == t@.len(),
            i <= n,
            first_eq_from(t@, 0) == first_eq_from(t@, i as int),
        decreases n - i,
    {
        if t[i] == '=' {
            return Some(i);
        }
        i = i + 1;
    }
    None
}

/// Whether an `export` argument is a well-formed `NAME=VALUE` assignment:
/// it holds a `=` that is not its first character.
pub open spec fn is_assignment(t: Seq<char>) -> bool {
    first_eq_from(t, 0) matches Some(i) && i > 0
}

/// Applies `export NAME=VALUE`: binds `NAME` to `VALUE` in the exported
/// environment. An argument without a `=` after a nonempty name is
/// refused and changes nothing.
pub fn apply_export(state: &mut ShellState, arg: &Vec<char>) -> (ok: bool)
    ensures
        ok <==> is_assignment(arg@),
        ok ==> {
            let i = first_eq_from(arg@, 0)->Some_0;
            final(state).env@ == old(state).env@.insert(arg@.take(i), arg@.skip(i + 1))
        },
        !ok ==> final(state).env@ == old(state).env@,
        final(state).cwd == old(state).cwd,
        final(state).jobs == old(state).jobs,
        final(state).fg_pgid == old(state).fg_pgid,
        final(state).last_status == old(state).last_status,
{
    match find_eq(arg) {
        Some(i) => {
            if i == 0 {
                return false;
            }
            let mut name: Vec<char> = Vec::new();
            let mut k: usize = 0;
            while k < i
                invariant
                    i < arg@.len(),
                    k <= i,
                    name@ == arg@.take(k as int),
                decreases i - k,
            {
                name.push(arg[k]);
                k = k + 1;
                proof {
                    assert(name@ =~= arg@.take(k as int));
                }
            }
            let n = arg.len();
            let mut value: Vec<char> = Vec::new();
            let mut k: usize = i + 1;
            while k < n
                invariant
                    n == arg@.len(),
                    i + 1 <= k <= n,
                    value@ == arg@.subrange(i + 1, k as int),
                decreases n - k,
            {
                value.push(arg[k]);
                k = k + 1;
                proof {
                    assert(value@ =~= arg@.subrange(i + 1, k as int));
                }
            }
            proof {
                assert(value@ =~= arg@.skip(i + 1));
            }
            state.env.set(name, value);
            true
        },
        None => false,
    }
}

/// Ten to the `n`th, for digit-value bounds.
pub open spec fn ten_pow(n: nat) -> int
    decreases n,
{
    if n == 0 {
        1
    } else {
        10 * ten_pow((n - 1) as nat)
    }
}

/// Whether a character is a decimal digit.
pub open spec fn is_digit(c: char) -> bool {
    '0' as u32 <= c as u32 && c as u32 <= '9' as u32
}

/// Whether a text is all decimal digits.
pub open spec fn all_digits(t: Seq<char>) -> bool {
    forall|i: int| 0 <= i < t.len() ==> is_digit(#[trigger] t[i])
}

/// The number a digit text denotes.
pub open spec fn digits_val(t: Seq<char>) -> int
    decreases t.len(),
{
    if t.len() == 0 {
        0
    } else {
        digits_val(t.drop_last()) * 10 + (t.last() as u32 - '0' as u32)
    }
}

proof fn lemma_digits_val_bound(t: Seq<char>)
    requires
        all_digits(t),
    ensures
        0 <= digits_val(t) < ten_pow(t.len()),
    decreases t.len(),
{
    if t.len() > 0 {
        assert(all_digits(t.drop_last())) by {
            assert(forall|i: int| 0 <= i < t.len() - 1 ==> t.drop_last()[i] == #[trigger] t[i]);
        }
        lemma_digits_val_bound(t.drop_last());
        assert(is_digit(t.last()));
    }
}

proof fn lemma_ten_pow_pos(n: nat)
    ensures
        ten_pow(n) >= 1,
    decreases n,
{
    if n > 0 {
        lemma_ten_pow_pos((n - 1) as nat);
    }
}

proof fn lemma_ten_pow_le(a: nat, b: nat)
    requires
        a <= b,
    ensures
        ten_pow(a) <= ten_pow(b),
        ten_pow(a) >= 1,
    decreases b,
{
    lemma_ten_pow_pos(a);
    if b > 0 && a < b {
        lemma_ten_pow_le(a, (b - 1) as nat);
        lemma_ten_pow_pos((b - 1) as nat);
    }
}

/// Parses a status operand: up to nine decimal digits. Anything else —
/// empty, signed, non-digit, or longer — is refused.
pub fn parse_status(t: &Vec<char>) -> (r: Option<i32>)
    ensures
        (all_digits(t@) && 1 <= t@.len() <= 9) ==> r == Some(digits_val(t@) as i32),
        !(all_digits(t@) && 1 <= t@.len() <= 9) ==> r is None,
{
    let n = t.len();
    if n == 0 || n > 9 {
        return None;
    }
    let mut acc: i32 = 0;
    let mut i: usize = 0;
    while i < n
        invariant
            n == t@.len(),
            n <= 9,
            i <= n,
            all_digits(t@.take(i as int)),
            acc == digits_val(t@.take(i as int)),
            0 <= acc < ten_pow(i as nat),
        decreases n - i,
    {
        let c = t[i];
        let u: u32 = c as u32;
        if !('0' as u32 <= u && u <= '9' as u32) {
            return None;
        }
        let d: u32 = u - '0' as u32;
        proof {
            lemma_ten_pow_le(i as nat + 1, 9);
            assert(ten_pow(9) == 1000000000) by {
                assert(ten_pow(0) == 1);
                assert(ten_pow(1) == 10);
                assert(ten_pow(2) == 100);
                assert(ten_pow(3) == 1000);
                assert(ten_pow(4) == 10000);
                assert(ten_pow(5) == 100000);
                assert(ten_pow(6) == 1000000);
                assert(ten_pow(7) == 10000000);
                assert(ten_pow(8) == 100000000);
            }
            assert(acc * 10 + d < ten_pow(i as nat + 1));
        }
        acc = acc * 10 + (d as i32);
        i = i + 1;
        proof {
            assert(t@.take(i as int).drop_last() =~= t@.take(i - 1));
            assert(t@.take(i as int).last() == t@[i - 1]);
            assert(all_digits(t@.take(i as int))) by {
                assert(forall|m: int|
                    0 <= m < i ==> t@.take(i as int)[m] == #[trigger] t@.take(i - 1 + 1)[m]);
            }
        }
    }
    proof {
        assert(t@.take(n as int) =~= t@);
    }
    Some(acc)
}

/// The status `exit` ends the session with: its operand when one is
/// given and well-formed, the last pipeline's status when none is given,
/// and 255 for a malformed operand.
pub fn exit_status(argv: &Vec<Vec<char>>, last_status: i32) -> (r: i32)
    ensures
        argv@.len() < 2 ==> r == last_status,
        argv@.len() >= 2 && (all_digits(argv@[1]@) && 1 <= argv@[1]@.len() <= 9) ==> r
            == digits_val(argv@[1]@) as i32,
        argv@.len() >= 2 && !(all_digits(argv@[1]@) && 1 <= argv@[1]@.len() <= 9) ==> r == 255,
{
    if argv.len() < 2 {
        return last_status;
    }
    match parse_status(&argv[1]) {
        Some(v) => v,
        None => 255,
    }
}

} // verus!
