use gash::lex::{tokenize, Quoting, Token, TokenizeError};

fn cs(s: &str) -> Vec<char> {
    s.chars().collect()
}

fn word_texts(toks: &[Token]) -> Vec<Vec<char>> {
    let mut r = Vec::new();
    for t in toks {
        if let Token::Word(w) = t {
            r.push(w.text.clone());
        }
    }
    r
}

#[test]
fn splits_on_whitespace() {
    let toks = tokenize("echo  hello\tworld").unwrap();
    assert_eq!(toks.len(), 3);
    assert_eq!(word_texts(&toks), vec![cs("echo"), cs("hello"), cs("world")]);
}

#[test]
fn single_quotes_are_literal() {
    let toks = tokenize("'$HOME'").unwrap();
    assert_eq!(toks.len(), 1);
    match &toks[0] {
        Token::Word(w) => {
            assert_eq!(w.text, cs("$HOME"));
            assert_eq!(w.quoting, Quoting::Single);
            assert!(!w.permits_expansion());
        }
        _ => panic!("expected a word"),
    }
}

#[test]
fn single_quotes_keep_spaces_and_operators() {
    let toks = tokenize("'a | b; c'").unwrap();
    assert_eq!(toks.len(), 1);
    match &toks[0] {
        Token::Word(w) => assert_eq!(w.text, cs("a | b; c")),
        _ => panic!("expected a word"),
    }
}

#[test]
fn double_quotes_keep_spaces_but_permit_expansion() {
    let toks = tokenize("\"hello world\"").unwrap();
    assert_eq!(toks.len(), 1);
    match &toks[0] {
        Token::Word(w) => {
            assert_eq!(w.text, cs("hello world"));
            assert_eq!(w.quoting, Quoting::Double);
            assert!(w.permits_expansion());
        }
        _ => panic!("expected a word"),
    }
}

#[test]
fn unterminated_single_quote_fails() {
    assert!(matches!(tokenize("echo 'oops"), Err(TokenizeError::UnterminatedQuote)));
}

#[test]
fn unterminated_double_quote_fails() {
    assert!(matches!(tokenize("echo \"oops"), Err(TokenizeError::UnterminatedQuote)));
}

#[test]
fn escape_before_quote_keeps_it_open() {
    assert!(matches!(tokenize("\"a\\\""), Err(TokenizeError::UnterminatedQuote)));
}

#[test]
fn backslash_escapes_space() {
    let toks = tokenize("a\\ b").unwrap();
    assert_eq!(toks.len(), 1);
    assert_eq!(word_texts(&toks), vec![cs("a b")]);
}

#[test]
fn backslash_escapes_dollar_and_quote() {
    let toks = tokenize("\\$HOME \\'x").unwrap();
    assert_eq!(word_texts(&toks), vec![cs("$HOME"), cs("'x")]);
}

#[test]
fn operators_split_words() {
    let toks = tokenize("a|b&&c||d;e&f<g>h>>i").unwrap();
    let mut kinds = Vec::new();
    for t in &toks {
        kinds.push(match t {
            Token::Word(_) => "w",
            Token::Pipe => "|",
            Token::AndAnd => "&&",
            Token::OrOr => "||",
            Token::Semi => ";",
            Token::Amp => "&",
            Token::RedirIn => "<",
            Token::RedirOut => ">",
            Token::RedirAppend => ">>",
        });
    }
    assert_eq!(
        kinds,
        vec!["w", "|", "w", "&&", "w", "||", "w", ";", "w", "&", "w", "<", "w", ">", "w", ">>", "w"]
    );
}

#[test]
fn trailing_single_amp_and_pipe_tokens() {
    let toks = tokenize("sleep 1 &").unwrap();
    assert!(matches!(toks.last().unwrap(), Token::Amp));
    let toks = tokenize("a |").unwrap();
    assert!(matches!(toks.last().unwrap(), Token::Pipe));
}

#[test]
fn empty_quotes_make_an_empty_word() {
    let toks = tokenize("''").unwrap();
    assert_eq!(toks.len(), 1);
    match &toks[0] {
        Token::Word(w) => {
            assert_eq!(w.text, cs(""));
            assert_eq!(w.quoting, Quoting::Single);
        }
        _ => panic!("expected a word"),
    }
}

#[test]
fn mixed_quoting_concatenates_into_one_word() {
    let toks = tokenize("a'b c'd").unwrap();
    assert_eq!(toks.len(), 1);
    match &toks[0] {
        Token::Word(w) => {
            assert_eq!(w.text, cs("ab cd"));
            assert_eq!(w.quoting, Quoting::Unquoted);
        }
        _ => panic!("expected a word"),
    }
}

#[test]
fn empty_line_has_no_tokens() {
    assert_eq!(tokenize("").unwrap().len(), 0);
    assert_eq!(tokenize("   \t ").unwrap().len(), 0);
}

#[test]
fn trailing_backslash_is_literal() {
    let toks = tokenize("a\\").unwrap();
    assert_eq!(word_texts(&toks), vec![cs("a\\")]);
}
