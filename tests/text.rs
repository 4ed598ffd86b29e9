use sql_dump::cursor::trimmed_str;
use sql_dump::lexer::{tokenize, TokenKind};
use sql_dump::masker::decimal_of;
use sql_dump::text::{chars_of, string_of};

#[test]
fn trims_backticks_at_both_ends() {
    assert_eq!(trimmed_str("`users`"), "users");
    assert_eq!(trimmed_str("``a`b``"), "a`b");
    assert_eq!(trimmed_str("```"), "");
    assert_eq!(trimmed_str("plain"), "plain");
}

#[test]
fn tokens_of_a_statement() {
    let ts = tokenize(&chars_of("INSERT INTO `t` VALUES ('a''b', 12.5); -- note\n# other\n/* c */x")).unwrap();
    let kinds: Vec<TokenKind> = ts.iter().map(|t| t.kind).collect();
    assert_eq!(
        kinds,
        vec![
            TokenKind::Word,
            TokenKind::Word,
            TokenKind::Quoted,
            TokenKind::Word,
            TokenKind::Symbol,
            TokenKind::Str,
            TokenKind::Symbol,
            TokenKind::Number,
            TokenKind::Symbol,
            TokenKind::Symbol,
            TokenKind::Word
        ]
    );
    assert_eq!(string_of(&ts[2].text), "t");
    assert_eq!(string_of(&ts[5].text), "a''b");
    assert_eq!(string_of(&ts[7].text), "12.5");
    assert_eq!(ts[2].position, 12);
}

#[test]
fn decimal_digits() {
    assert_eq!(decimal_of(0), "0");
    assert_eq!(decimal_of(1234), "1234");
    assert_eq!(decimal_of(u64::MAX), "18446744073709551615");
}

#[test]
fn chars_round_trip() {
    let c = chars_of("héllo");
    assert_eq!(c.len(), 5);
    assert_eq!(string_of(&c), "héllo");
}
