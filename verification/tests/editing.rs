use javars::lexer::{keyword_or_ident, Tok};
use javars::lsp::{
    completions, compute_diagnostics, corpus, hover, parse_error_line, word_under, DocumentEvent,
    Documents, SuggestionKind,
};

#[test]
fn every_word_can_be_completed() {
    let words = corpus();
    let items = completions();
    assert_eq!(words.len(), 38);
    assert_eq!(items.len(), words.len());
    assert_eq!(items[0].label, "class");
    assert_eq!(items[0].kind, SuggestionKind::Keyword);
    assert_eq!(
        items[0].detail,
        "declare a class; javars runs the `main` of the entry class"
    );
    for (w, i) in words.iter().zip(items.iter()) {
        assert_eq!(w.0, i.label);
        let kind = match w.1 {
            "Keyword" | "Exception" => SuggestionKind::Keyword,
            "Type" => SuggestionKind::Class,
            _ => SuggestionKind::Method,
        };
        assert_eq!(i.kind, kind);
    }
}

#[test]
fn the_keywords_are_the_reserved_words() {
    for (name, chapter, _, _) in corpus() {
        assert_eq!(chapter == "Keyword", keyword_or_ident(name) != Tok::Ident, "{name}");
    }
    assert_eq!(corpus().iter().filter(|w| w.1 == "Keyword").count(), 18);
    assert!(corpus().iter().any(|w| w.0 == "throws" && w.1 == "Exception"));
}

#[test]
fn the_word_under_the_cursor() {
    let text = "int n = 42;\r\n  while (go_1$) { }\nlast";
    assert_eq!(word_under(text, 0, 0).as_deref(), Some("int"));
    assert_eq!(word_under(text, 0, 3).as_deref(), Some("int"));
    assert_eq!(word_under(text, 0, 7), None);
    assert_eq!(word_under(text, 0, 99), None);
    assert_eq!(word_under(text, 1, 4).as_deref(), Some("while"));
    assert_eq!(word_under(text, 1, 10).as_deref(), Some("go_1$"));
    assert_eq!(word_under(text, 2, 99).as_deref(), Some("last"));
    assert_eq!(word_under(text, 3, 0), None);
    assert_eq!(word_under("a\n", 1, 0), None);
}

#[test]
fn hovering_a_word_explains_it() {
    assert_eq!(
        hover(Some("int n;"), 0, 1),
        "**`int`** — _Type_\n\n32-bit integer local declaration\n\n```java\nint n = 42;\n```"
    );
    let banner = "**javars** — Java on the fusevm bytecode VM + Cranelift JIT.";
    assert_eq!(hover(Some("nobody"), 0, 1), banner);
    assert_eq!(hover(Some("   "), 0, 1), banner);
    assert_eq!(hover(None, 0, 0), banner);
}

#[test]
fn an_error_names_its_line() {
    assert_eq!(parse_error_line("javars: expected x on line 12"), 12);
    assert_eq!(parse_error_line("javars: bad (line 7)"), 7);
    assert_eq!(parse_error_line("on line 3 and on line 4"), 4);
    assert_eq!(parse_error_line("(line 5) then on line 6"), 6);
    assert_eq!(parse_error_line("nothing"), 1);
    assert_eq!(parse_error_line("on line x"), 1);
    assert_eq!(parse_error_line("on line 99999999999"), 1);
    assert_eq!(parse_error_line("on line abc 8"), 8);
}

#[test]
fn a_syntax_error_is_one_problem() {
    assert!(compute_diagnostics("").is_none());
    assert!(compute_diagnostics(" \u{3000}\n\t").is_none());
    let blank: String = (0..=0x3100u32)
        .filter_map(char::from_u32)
        .filter(|c| compute_diagnostics(&c.to_string()).is_none())
        .collect();
    assert_eq!(
        blank,
        "\t\n\u{b}\u{c}\r \u{85}\u{a0}\u{1680}\u{2000}\u{2001}\u{2002}\u{2003}\u{2004}\u{2005}\
         \u{2006}\u{2007}\u{2008}\u{2009}\u{200a}\u{2028}\u{2029}\u{202f}\u{205f}\u{3000}"
    );
    assert!(compute_diagnostics(
        "public class Main { public static void main(String[] args) { } }"
    )
    .is_none());
    match compute_diagnostics("class A {\n  int x = ;\n}") {
        Some(p) => {
            assert_eq!((p.line, p.start, p.end), (1, 0, 200));
            assert_eq!(p.message, "javars: unexpected token Semi in expression on line 2");
        }
        None => panic!("no problem"),
    }
}

fn told(docs: &mut Documents, e: DocumentEvent) -> Option<(String, String)> {
    docs.update(e)
}

#[test]
fn documents_hold_their_last_text() {
    let mut docs = Documents::new();
    assert_eq!(docs.text("a"), None);
    let shown = told(
        &mut docs,
        DocumentEvent::Opened { uri: "a".to_string(), text: "one".to_string() },
    );
    assert_eq!(shown, Some(("a".to_string(), "one".to_string())));
    told(
        &mut docs,
        DocumentEvent::Opened { uri: "b".to_string(), text: "other".to_string() },
    );
    let shown = told(
        &mut docs,
        DocumentEvent::Changed {
            uri: "a".to_string(),
            texts: vec!["two".to_string(), "three".to_string()],
        },
    );
    assert_eq!(shown, Some(("a".to_string(), "three".to_string())));
    assert_eq!(docs.text("a"), Some("three"));
    assert_eq!(docs.text("b"), Some("other"));
    let none = told(
        &mut docs,
        DocumentEvent::Changed { uri: "a".to_string(), texts: Vec::new() },
    );
    assert_eq!(none, None);
    assert_eq!(docs.text("a"), Some("three"));
    let shown = told(&mut docs, DocumentEvent::Closed { uri: "a".to_string() });
    assert_eq!(shown, Some(("a".to_string(), String::new())));
    assert_eq!(docs.text("a"), None);
    assert_eq!(docs.text("b"), Some("other"));
}
