use wiki::commands::{go, home, memo, notes, todo};
use wiki::matcher::{compile, FilterRequest, Matcher};
use wiki::report::{is_document, line_label, pad, render_record, report_line, report_tag_line};
use wiki::Cfg;

fn cfg() -> Cfg {
    Cfg { path: "/w/".to_string(), editor: "vim".to_string() }
}

#[test]
fn pad_fills_to_width() {
    assert_eq!(pad("7".to_string(), 4), Ok("7   ".to_string()));
    assert_eq!(pad("abcd".to_string(), 4), Ok("abcd".to_string()));
    assert_eq!(pad("abcde".to_string(), 4), Err("abcde".to_string()));
    assert_eq!(pad("".to_string(), 2), Ok("  ".to_string()));
}

#[test]
fn line_label_pads_decimal() {
    assert_eq!(line_label(0), "0   ");
    assert_eq!(line_label(42), "42  ");
    assert_eq!(line_label(12345), "12345");
}

#[test]
fn record_has_path_label_and_text() {
    assert_eq!(render_record("a.md", 3, "x _y_"), "a.md:3   : x _y_");
}

#[test]
fn report_line_only_on_match() {
    let m = compile(&FilterRequest::new("work", "", false, false));
    assert_eq!(report_line(&m, "n/a.md", 0, "_work_ x"), Some("n/a.md:0   : _work_ x".to_string()));
    assert_eq!(report_line(&m, "n/a.md", 1, "nothing"), None);
}

#[test]
fn rescanning_gives_identical_records() {
    let m = compile(&FilterRequest::new("", "todo", false, false));
    let lines = ["a TODO", "b", "todo c"];
    let run = |m: &Matcher| -> Vec<String> {
        lines.iter().enumerate().filter_map(|(i, l)| report_line(m, "f.md", i, l)).collect()
    };
    let first = run(&m);
    assert_eq!(first, run(&m));
    assert_eq!(first.len(), 2);
}

#[test]
fn tag_listing_returns_raw_line() {
    let m = Matcher::any_tag();
    assert_eq!(report_tag_line(&m, "x _t_ y"), Some("x _t_ y".to_string()));
    assert_eq!(report_tag_line(&m, "plain"), None);
}

#[test]
fn scanner_keeps_markdown_files_only() {
    let entries = [
        ("a.md", true, Some("md")),
        ("b.txt", true, Some("txt")),
        ("sub", false, None),
        ("sub/c.md", true, Some("md")),
        ("d.MD", true, Some("MD")),
        ("e", true, None),
    ];
    let kept: Vec<&str> = entries.iter().filter(|e| is_document(e.1, e.2)).map(|e| e.0).collect();
    assert_eq!(kept, vec!["a.md", "sub/c.md"]);
}

#[test]
fn editor_commands() {
    let c = cfg();
    assert_eq!(todo(&c), "cd /w/ && vim todo.md");
    assert_eq!(notes(&c), "cd /w/notes && vim .");
    assert_eq!(home(&c), "cd /w/ && vim index.md");
    assert_eq!(go("x.md", "12", &c), "cd /w/ && vim +12 x.md");
    assert_eq!(memo(None, &c), "cd /w/ && vim memo.md");
    assert_eq!(
        memo(Some("## [01-02-2024]"), &c),
        "echo \"## [01-02-2024]\" >> /w/memo.md && cd /w/ && vim memo.md"
    );
}

#[test]
fn default_config_uses_vim() {
    let c = Cfg::with_home("/home/u".to_string());
    assert_eq!(c.path, "/home/u");
    assert_eq!(c.editor, "vim");
}
