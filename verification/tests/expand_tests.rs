use gash::env::Env;
use gash::expand::expand_word;
use gash::lex::{Quoting, WordToken};

fn cs(s: &str) -> Vec<char> {
    s.chars().collect()
}

fn env_with(pairs: &[(&str, &str)]) -> Env {
    let mut e = Env::new();
    for (k, v) in pairs {
        e.set(cs(k), cs(v));
    }
    e
}

fn word(s: &str, q: Quoting) -> WordToken {
    WordToken { text: cs(s), quoting: q }
}

#[test]
fn dollar_name_resolves() {
    let env = env_with(&[("USER", "ada")]);
    assert_eq!(expand_word(&word("hi-$USER!", Quoting::Unquoted), &env), cs("hi-ada!"));
}

#[test]
fn braced_name_resolves() {
    let env = env_with(&[("USER", "ada")]);
    assert_eq!(expand_word(&word("${USER}x", Quoting::Unquoted), &env), cs("adax"));
}

#[test]
fn undefined_variable_is_empty() {
    let env = Env::new();
    assert_eq!(expand_word(&word("a$NOPEb", Quoting::Unquoted), &env), cs("a"));
    assert_eq!(expand_word(&word("a${NOPE}b", Quoting::Unquoted), &env), cs("ab"));
}

#[test]
fn word_without_dollar_or_tilde_is_unchanged() {
    let env = env_with(&[("HOME", "/home/ada")]);
    assert_eq!(expand_word(&word("plain/path.txt", Quoting::Unquoted), &env), cs("plain/path.txt"));
}

#[test]
fn single_quoted_word_is_untouched() {
    let env = env_with(&[("HOME", "/home/ada")]);
    assert_eq!(expand_word(&word("$HOME", Quoting::Single), &env), cs("$HOME"));
    assert_eq!(expand_word(&word("~/x", Quoting::Single), &env), cs("~/x"));
}

#[test]
fn double_quoted_word_expands() {
    let env = env_with(&[("HOME", "/home/ada")]);
    assert_eq!(expand_word(&word("$HOME", Quoting::Double), &env), cs("/home/ada"));
}

#[test]
fn leading_tilde_becomes_home() {
    let env = env_with(&[("HOME", "/home/ada")]);
    assert_eq!(expand_word(&word("~", Quoting::Unquoted), &env), cs("/home/ada"));
    assert_eq!(expand_word(&word("~/docs", Quoting::Unquoted), &env), cs("/home/ada/docs"));
}

#[test]
fn tilde_without_home_stays_literal() {
    let env = Env::new();
    assert_eq!(expand_word(&word("~/docs", Quoting::Unquoted), &env), cs("~/docs"));
}

#[test]
fn interior_tilde_is_literal() {
    let env = env_with(&[("HOME", "/home/ada")]);
    assert_eq!(expand_word(&word("a~b", Quoting::Unquoted), &env), cs("a~b"));
    assert_eq!(expand_word(&word("~user", Quoting::Unquoted), &env), cs("~user"));
}

#[test]
fn trailing_dollar_is_literal() {
    let env = Env::new();
    assert_eq!(expand_word(&word("price$", Quoting::Unquoted), &env), cs("price$"));
}

#[test]
fn unclosed_brace_stays_literal() {
    let env = env_with(&[("A", "x")]);
    assert_eq!(expand_word(&word("${A", Quoting::Unquoted), &env), cs("${A"));
}

#[test]
fn adjacent_variables_resolve() {
    let env = env_with(&[("A", "x"), ("B", "y")]);
    assert_eq!(expand_word(&word("$A$B", Quoting::Unquoted), &env), cs("xy"));
}

#[test]
fn env_lookup_and_shadowing() {
    let mut e = Env::new();
    e.set(cs("K"), cs("one"));
    e.set(cs("K"), cs("two"));
    assert_eq!(e.get(&cs("K")).unwrap(), &cs("two"));
    assert!(e.get(&cs("missing")).is_none());
}
