use javars::regex::{compile, compile_whole, expand, flip_case, translate, Pattern};

fn pattern(p: &str) -> Pattern {
    match compile(p) {
        Ok(x) => x,
        Err(m) => panic!("{m}"),
    }
}

fn replaced(p: &str, text: &str, with: &str) -> String {
    match pattern(p).replace(text, with, false) {
        Ok(t) => t,
        Err(m) => panic!("{m}"),
    }
}

#[test]
fn only_a_line_terminator_is_passed_over_at_the_end() {
    assert_eq!(replaced("a\\Z", "a\u{b}", "X"), "a\u{b}");
    assert_eq!(replaced("a\\Z", "a\u{c}", "X"), "a\u{c}");
    assert_eq!(replaced("a\\Z", "a\n", "X"), "X\n");
    assert_eq!(replaced("a\\Z", "a\r\n", "X"), "X\r\n");
    assert_eq!(replaced("a\\Z", "a", "X"), "X");
    assert_eq!(replaced("a$", "a\u{b}", "X"), "a\u{b}");
}

#[test]
fn a_limit_only_cuts_a_split() {
    let p = pattern(",");
    let fields = |t: &str, n: i64| p.split(t, n).unwrap_or_else(|m| panic!("{m}"));
    assert_eq!(fields("a,b,,", -1), ["a", "b", "", ""]);
    assert_eq!(fields("a,b,,", -7), ["a", "b", "", ""]);
    assert_eq!(fields("a,b,,", 0), ["a", "b"]);
    assert_eq!(fields("a,b,,", 1), ["a,b,,"]);
    assert_eq!(fields("a,b,,", 2), ["a", "b,,"]);
    assert_eq!(fields("a,b,,", 4), ["a", "b", "", ""]);
    assert_eq!(fields("a,b,,", 9), ["a", "b", "", ""]);
    assert_eq!(fields("ab", 0), ["ab"]);
    assert_eq!(fields("", 0), [""]);
}

#[test]
fn positions_count_characters() {
    assert_eq!(replaced("\u{e9}+", "a\u{e9}\u{e9}\u{1f600}b", "-"), "a-\u{1f600}b");
    assert_eq!(replaced("", "\u{1f600}a", "."), ".\u{1f600}.a.");
    assert_eq!(replaced("(?<=a)b", "abab", "X"), "aXaX");
    assert_eq!(replaced("(?<=(a))b", "abab", "$1"), "aaaa");
}

#[test]
fn classes_are_those_of_ascii() {
    // An Arabic digit is no digit here.
    assert_eq!(replaced("\\d", "a1\u{0661}", "#"), "a#\u{0661}");
    assert_eq!(replaced("\\w", "aé_", "#"), "#é#");
    assert_eq!(replaced("\\s", "a b\u{a0}", "#"), "a#b\u{a0}");
}

#[test]
fn folding_is_that_of_ascii() {
    assert_eq!(replaced("(?i)abc", "ABC abc", "#"), "# #");
    assert_eq!(flip_case('a'), 'A');
    assert_eq!(flip_case('Z'), 'z');
    assert_eq!(flip_case('1'), '1');
}

#[test]
fn references_and_looking_around() {
    assert_eq!(replaced("(.)\\1", "aabbc", "<$1>"), "<a><b>c");
    assert_eq!(replaced("(?<=a)b", "abcb", "#"), "a#cb");
    assert_eq!(replaced("(?<n>x)y", "xy", "${n}"), "x");
}

#[test]
fn a_whole_match_takes_everything() {
    let whole = |p: &str, t: &str| match compile_whole(p) {
        Ok(x) => matches!(x.matches_whole(t), Ok(true)),
        Err(m) => panic!("{m}"),
    };
    assert!(whole("a+", "aaa"));
    assert!(!whole("a+", "aab"));
    assert!(whole("a|ab", "ab"));
}

#[test]
fn splitting_by_a_pattern() {
    let split = |p: &str, t: &str, n: i64| match pattern(p).split(t, n) {
        Ok(v) => v,
        Err(m) => panic!("{m}"),
    };
    assert_eq!(split("\\s*,\\s*", "a , b,c", 0), vec!["a", "b", "c"]);
    assert_eq!(split("", "abc", 0), vec!["a", "b", "c"]);
    assert_eq!(split("x", "", 0), vec![""]);
    assert_eq!(split(",", ",a", 0), vec!["", "a"]);
}

#[test]
fn what_has_no_counterpart_is_refused_by_name() {
    for p in ["a*+", "(?>a)", "\\p{InGreek}"] {
        match translate(p) {
            Ok(t) => panic!("{p} became {t}"),
            Err(m) => assert!(m.contains("supports no equivalent of"), "{m}"),
        }
    }
    assert!(compile("(").is_err());
}

#[test]
fn a_replacement_is_expanded() {
    let text: Vec<char> = "abc".chars().collect();
    let groups = vec![Some((0, 3)), Some((1, 2)), None];
    let names = vec![None, Some("mid".to_string()), None];
    let go = |r: &str| expand(r, &text, &groups, &names);
    assert_eq!(go("[$0]").ok().as_deref(), Some("[abc]"));
    assert_eq!(go("<$1$2>").ok().as_deref(), Some("<b>"));
    assert_eq!(go("\\$1").ok().as_deref(), Some("$1"));
    assert_eq!(go("${mid}").ok().as_deref(), Some("b"));
    assert!(go("$9").is_err());
    assert!(go("${none}").is_err());
    assert!(go("$").is_err());
}

#[test]
fn a_group_that_took_no_part_is_empty() {
    assert_eq!(replaced("(?<x>a)|b", "ab", "[${x}]"), "[a][]");
    assert_eq!(replaced("(a)|b", "ab", "[$1]"), "[a][]");
    match pattern("(?<x>a)|b").replace("b", "${y}", false) {
        Err(m) => assert_eq!(m, "No group with name {y}"),
        Ok(t) => panic!("gave {t}"),
    }
}

#[test]
fn quoted_text_is_taken_as_it_is() {
    assert_eq!(replaced("\\Qa.b\\E", "a.b axb", "#"), "# axb");
}
