use javars::lexer::{keyword_or_ident, lex, unescape, Tok, Token};

fn tokens(src: &str) -> Vec<Token> {
    match lex(src) {
        Ok(v) => v,
        Err(m) => panic!("{m}"),
    }
}

fn kinds(src: &str) -> Vec<Tok> {
    tokens(src).iter().map(|t| t.kind).collect()
}

fn error(src: &str) -> String {
    match lex(src) {
        Ok(_) => panic!("lexed: {src}"),
        Err(m) => m,
    }
}

#[test]
fn a_blank_text_is_its_end() {
    assert_eq!(kinds(""), vec![Tok::Eof]);
    assert_eq!(kinds(" \t\r\n\n "), vec![Tok::Eof]);
}

#[test]
fn the_end_is_marked_once() {
    let ks = kinds("class A { int x = 1; }");
    assert_eq!(ks.iter().filter(|k| **k == Tok::Eof).count(), 1);
    assert_eq!(ks.last(), Some(&Tok::Eof));
}

#[test]
fn numbers_in_every_base() {
    let value = |s: &str| {
        let t = &tokens(s)[0];
        (t.kind, t.value)
    };
    assert_eq!(value("42"), (Tok::Int, 42));
    assert_eq!(value("1_000_000"), (Tok::Int, 1_000_000));
    assert_eq!(value("0xff"), (Tok::Int, 255));
    assert_eq!(value("0b101"), (Tok::Int, 5));
    assert_eq!(value("017"), (Tok::Int, 15));
    assert_eq!(value("9000000000L"), (Tok::Long, 9_000_000_000));
    assert_eq!(value("0xFFFFFFFF"), (Tok::Int, -1));
}

#[test]
fn floating_literals_keep_their_text() {
    let text = |s: &str| {
        let t = &tokens(s)[0];
        (t.kind, t.text.clone())
    };
    assert_eq!(text("1.5"), (Tok::Float, "1.5".to_string()));
    assert_eq!(text("1.5f"), (Tok::Float32, "1.5".to_string()));
    assert_eq!(text("2d"), (Tok::Float, "2".to_string()));
    assert_eq!(text("1e3"), (Tok::Float, "1e3".to_string()));
}

#[test]
fn texts_and_characters_with_escapes() {
    let t = tokens("\"a\\tb\\\"\" 'x' '\\n'");
    assert_eq!((t[0].kind, t[0].text.as_str()), (Tok::Str, "a\tb\""));
    assert_eq!((t[1].kind, t[1].value), (Tok::Char, 'x' as i64));
    assert_eq!((t[2].kind, t[2].value), (Tok::Char, 10));
    assert_eq!(unescape('n'), '\n');
    assert_eq!(unescape('t'), '\t');
    assert_eq!(unescape('\\'), '\\');
}

#[test]
fn the_longest_operator_wins() {
    assert_eq!(
        kinds("a >>>= b >>> c >> d > e"),
        vec![
            Tok::Ident,
            Tok::UshrAssign,
            Tok::Ident,
            Tok::Ushr,
            Tok::Ident,
            Tok::Shr,
            Tok::Ident,
            Tok::Gt,
            Tok::Ident,
            Tok::Eof
        ]
    );
    assert_eq!(
        kinds("-> :: ++ -- && || == != <= >="),
        vec![
            Tok::Arrow,
            Tok::ColonColon,
            Tok::PlusPlus,
            Tok::MinusMinus,
            Tok::AndAnd,
            Tok::OrOr,
            Tok::EqEq,
            Tok::NotEq,
            Tok::Le,
            Tok::Ge,
            Tok::Eof
        ]
    );
}

#[test]
fn closers_of_type_arguments() {
    assert_eq!(Tok::Gt.generic_closers(), 1);
    assert_eq!(Tok::Shr.generic_closers(), 2);
    assert_eq!(Tok::Ushr.generic_closers(), 3);
    assert_eq!(Tok::Lt.generic_closers(), 0);
}

#[test]
fn comments_are_skipped_and_lines_counted() {
    let t = tokens("// one\na /* two\nthree */ b\n\"x\ny\" c");
    let lines: Vec<u32> = t.iter().map(|t| t.line).collect();
    assert_eq!(lines, vec![2, 3, 5, 5, 5]);
    assert_eq!(kinds("a /* open"), vec![Tok::Ident, Tok::Eof]);
}

#[test]
fn words_that_are_reserved_and_others() {
    assert_eq!(keyword_or_ident("class"), Tok::Class);
    assert_eq!(keyword_or_ident("switch"), Tok::Switch);
    assert_eq!(keyword_or_ident("record"), Tok::Ident);
    assert_eq!(tokens("_a$1")[0].text, "_a$1");
}

#[test]
fn texts_that_are_not_closed() {
    assert!(error("\"abc").contains("unterminated string literal"));
    assert!(error("'a").contains("unterminated char literal"));
    assert!(error("'\\é'").contains("unterminated char literal"));
    assert!(error("\n'\\é'").contains("line 2"));
    assert_eq!(tokens("'\u{e9}'")[0].value, 233);
    assert_eq!(tokens("'\\\u{7f}'")[0].value, 127);
    assert!(error("int x = #;").contains("unexpected character `#`"));
    assert!(error("a\nb\n\"").contains("3"));
}
