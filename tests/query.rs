use wiki::matcher::{compile, FilterRequest, Matcher};
use wiki::text::split_words;

fn request(tags: &str, keywords: &str, checkbox_only: bool, anchor_only: bool) -> Matcher {
    compile(&FilterRequest::new(tags, keywords, checkbox_only, anchor_only))
}

#[test]
fn empty_request_accepts_every_line() {
    let m = request("", "", false, false);
    assert!(m.matches(""));
    assert!(m.matches("anything at all"));
    assert!(m.matches("- [ ] _work_ [a](b)"));
}

#[test]
fn tag_matches_exact_and_prefixed_body() {
    let m = request("foo", "", false, false);
    assert!(m.matches("_foo_"));
    assert!(m.matches("_foobar_"));
    assert!(!m.matches("foo"));
    assert!(!m.matches("_barfoo_"));
    assert!(!m.matches("_foo"));
    assert!(!m.matches("_fo_o_"));
}

#[test]
fn tag_is_case_sensitive() {
    let m = request("work", "", false, false);
    assert!(m.matches("call _work_ today"));
    assert!(!m.matches("call _Work_ today"));
}

#[test]
fn keyword_is_case_insensitive_substring() {
    let m = request("", "invoice", false, false);
    assert!(m.matches("pay the INVOICE"));
    assert!(m.matches("invoices"));
    assert!(!m.matches("invoic"));
    let upper = request("", "Invoice", false, false);
    assert!(upper.matches("an invoice"));
}

#[test]
fn tag_and_keyword_are_conjunctive() {
    let m = request("work", "invoice", false, false);
    assert!(m.matches("- [ ] call _work_ about invoice"));
    assert!(m.matches("invoice first, then _work_"));
    assert!(!m.matches("- [ ] call _work_ about bills"));
    assert!(!m.matches("invoice without tag"));
    let urgent = request("work", "urgent", false, false);
    assert!(!urgent.matches("- [ ] call _work_ about invoice"));
}

#[test]
fn several_tags_are_all_required() {
    let m = request("work home", "", false, false);
    assert!(m.matches("_work_ and _home_"));
    assert!(!m.matches("_work_ only"));
}

#[test]
fn checkbox_is_anchored_at_line_start() {
    let m = request("", "", true, false);
    assert!(!m.matches("call _work_ about invoice"));
    assert!(m.matches("- [ ] call _work_ about invoice"));
    assert!(!m.matches("  - [ ] indented"));
    assert!(!m.matches("- [x] done"));
}

#[test]
fn anchor_requires_link_shape() {
    let m = request("", "", false, true);
    assert!(m.matches("see [docs](http://example.com)"));
    assert!(!m.matches("see docs at http://example.com"));
    assert!(m.matches("[](x)"));
    assert!(m.matches("[a]()"));
    assert!(!m.matches("[a] (b)"));
    assert!(!m.matches("](x) [a"));
}

#[test]
fn all_conditions_combined() {
    let m = request("work", "invoice", true, true);
    assert!(m.matches("- [ ] _work_ invoice [pdf](a.pdf)"));
    assert!(!m.matches("- [ ] _work_ invoice"));
    assert!(!m.matches("_work_ invoice [pdf](a.pdf)"));
}

#[test]
fn any_tag_matcher_lists_tagged_lines() {
    let m = Matcher::any_tag();
    assert!(m.matches("a _tag_ here"));
    assert!(m.matches("__"));
    assert!(!m.matches("one _ underscore"));
    assert!(!m.matches("no tags"));
}

#[test]
fn split_words_drops_empty_pieces() {
    assert_eq!(split_words("a  b c"), vec!["a".to_string(), "b".to_string(), "c".to_string()]);
    assert_eq!(split_words(""), Vec::<String>::new());
    assert_eq!(split_words("  "), Vec::<String>::new());
    assert_eq!(split_words(" work "), vec!["work".to_string()]);
}

#[test]
fn request_keeps_words_and_flags() {
    let r = FilterRequest::new("a b", "c", true, false);
    assert_eq!(r.tags, vec!["a".to_string(), "b".to_string()]);
    assert_eq!(r.keywords, vec!["c".to_string()]);
    assert!(r.checkbox_only);
    assert!(!r.anchor_only);
}
