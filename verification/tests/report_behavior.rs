use regexp_tester::matcher::compile;
use regexp_tester::report::report;

const EMPH_ON: &str = "\u{1b}[1;32m";
const EMPH_OFF: &str = "\u{1b}[0m";
const OK_MARK: &str = "  \u{1b}[32m\u{2713}\u{1b}[0m Found ";
const FAIL_MARK: &str = "  \u{1b}[31m\u{2717}\u{1b}[0m Found ";

fn emph(s: &str) -> String {
    format!("{}{}{}", EMPH_ON, s, EMPH_OFF)
}

#[test]
fn one_match_without_captures() {
    let p = compile("a+").unwrap();
    let r = report(&p, "baaab", false);
    assert_eq!(r.count, 1);
    assert_eq!(r.summary, format!("{}1 match:", OK_MARK));
    assert_eq!(r.entries.len(), 1);
    assert_eq!(r.entries[0].rendered, format!("      b{}b", emph("aaa")));
    assert!(r.entries[0].captures.is_empty());
}

#[test]
fn unmatched_optional_group_prints_nothing() {
    let p = compile("(a)(b)?").unwrap();
    let r = report(&p, "a", true);
    assert_eq!(r.count, 1);
    assert_eq!(r.entries.len(), 1);
    let caps = &r.entries[0].captures;
    assert_eq!(caps.len(), 1);
    assert_eq!(caps[0].index, 1);
    assert_eq!(caps[0].text, "a");
    assert_eq!(caps[0].line, "        1) a");
}

#[test]
fn no_match_renders_no_entries() {
    let p = compile("x").unwrap();
    let r = report(&p, "hello", false);
    assert_eq!(r.count, 0);
    assert_eq!(r.summary, format!("{}0 matches", FAIL_MARK));
    assert!(r.entries.is_empty());
}

#[test]
fn invalid_pattern_is_rejected_with_a_diagnostic() {
    let e = match compile("(") {
        Err(e) => e,
        Ok(_) => panic!("an unbalanced group must not compile"),
    };
    assert!(!e.message.is_empty());
    let also = compile("(");
    assert!(also.is_err());
}

#[test]
fn valid_pattern_compiles() {
    assert!(compile("(a)(b)?c*").is_ok());
}

#[test]
fn report_is_idempotent() {
    let p = compile("l+").unwrap();
    let r1 = report(&p, "hello", true);
    let r2 = report(&p, "hello", true);
    assert_eq!(r1.count, r2.count);
    assert_eq!(r1.summary, r2.summary);
    assert_eq!(r1.entries.len(), r2.entries.len());
    for (e1, e2) in r1.entries.iter().zip(r2.entries.iter()) {
        assert_eq!(e1.rendered, e2.rendered);
        assert_eq!(e1.captures.len(), e2.captures.len());
        for (c1, c2) in e1.captures.iter().zip(e2.captures.iter()) {
            assert_eq!(c1.index, c2.index);
            assert_eq!(c1.text, c2.text);
            assert_eq!(c1.line, c2.line);
        }
    }
}

#[test]
fn empty_matches_terminate_and_stay_bounded() {
    let p = compile("a*").unwrap();
    let r = report(&p, "bb", false);
    assert_eq!(r.count, 3);
    assert!(r.entries.len() <= "bb".chars().count() + 1);
    assert_eq!(r.entries.len(), r.count);
}

#[test]
fn empty_match_text_is_emphasized_everywhere() {
    let p = compile("a*").unwrap();
    let r = report(&p, "b", false);
    assert_eq!(r.count, 2);
    let expected = format!("      {}b{}", emph(""), emph(""));
    for entry in &r.entries {
        assert_eq!(entry.rendered, expected);
    }
}

#[test]
fn summary_count_matches_entries_and_uses_plural() {
    let p = compile("a").unwrap();
    let r = report(&p, "aaaaaaaaaaa", false);
    assert_eq!(r.count, 11);
    assert_eq!(r.summary, format!("{}11 matches:", OK_MARK));
    assert_eq!(r.entries.len(), 11);
}

#[test]
fn coincidental_occurrences_are_emphasized_too() {
    // emphasis is applied by substring replacement: the `b` matched at the
    // start and the coincidental `b` at the end are both emphasized
    let p = compile("^b").unwrap();
    let r = report(&p, "bab", false);
    assert_eq!(r.count, 1);
    assert_eq!(r.entries[0].rendered, format!("      {}a{}", emph("b"), emph("b")));
}

#[test]
fn later_groups_keep_their_indices() {
    let p = compile("(a)(x)?(b)").unwrap();
    let r = report(&p, "ab", true);
    assert_eq!(r.count, 1);
    let caps = &r.entries[0].captures;
    assert_eq!(caps.len(), 2);
    assert_eq!(caps[0].index, 1);
    assert_eq!(caps[0].text, "a");
    assert_eq!(caps[1].index, 3);
    assert_eq!(caps[1].text, "b");
    assert_eq!(caps[1].line, "        3) b");
}

#[test]
fn each_match_gets_its_own_captures() {
    let p = compile("(a)(b)?").unwrap();
    let r = report(&p, "ab a", true);
    assert_eq!(r.count, 2);
    let first = &r.entries[0].captures;
    assert_eq!(first.len(), 2);
    assert_eq!(first[0].line, "        1) a");
    assert_eq!(first[1].line, "        2) b");
    let second = &r.entries[1].captures;
    assert_eq!(second.len(), 1);
    assert_eq!(second[0].line, "        1) a");
}

#[test]
fn captures_are_suppressed_when_not_requested() {
    let p = compile("(a)(b)?").unwrap();
    let r = report(&p, "ab a", false);
    assert_eq!(r.count, 2);
    assert!(r.entries[0].captures.is_empty());
    assert!(r.entries[1].captures.is_empty());
}
