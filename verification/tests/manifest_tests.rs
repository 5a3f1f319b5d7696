use crashtest_harness::manifest::{parse_line, CrashtestList, Directive, StepError, StepEvent};

fn child_keyword() -> String {
    format!("{}{}", "incl", "ude")
}

fn drive(list: &mut CrashtestList, children: &[(&str, Vec<&str>)]) -> Vec<String> {
    let mut urls: Vec<String> = Vec::new();
    let mut skipped: Vec<String> = Vec::new();
    loop {
        match list.next() {
            Ok(StepEvent::Url(u)) => urls.push(u),
            Ok(StepEvent::Child(u)) => {
                let (_, lines) = children
                    .iter()
                    .find(|(name, _)| *name == u)
                    .unwrap_or_else(|| panic!("unexpected child manifest {}", u));
                list.supply_child(lines.iter().map(|l| l.to_string()).collect());
            }
            Ok(StepEvent::SkippedLine(l)) => skipped.push(l),
            Ok(StepEvent::Progress) => {}
            Ok(StepEvent::Done) => break,
            Err(StepError::Unresolvable(l)) => panic!("unresolvable line {}", l),
        }
    }
    urls
}

#[test]
fn load_line_parses() {
    match parse_line("load x.html") {
        Directive::Load(p) => assert_eq!(p, "x.html"),
        _ => panic!("expected a load directive"),
    }
}

#[test]
fn child_line_parses() {
    let line = format!("{} sub.list", child_keyword());
    match parse_line(&line) {
        Directive::Child(p) => assert_eq!(p, "sub.list"),
        _ => panic!("expected a child-manifest directive"),
    }
}

#[test]
fn comment_stripping_is_textual() {
    let with_comment = parse_line("load x.html # comment");
    let without = parse_line("load x.html");
    match (with_comment, without) {
        (Directive::Load(a), Directive::Load(b)) => assert_eq!(a, b),
        _ => panic!("expected two load directives"),
    }
}

#[test]
fn comment_only_line_yields_nothing() {
    assert!(matches!(parse_line("# just a comment"), Directive::Blank));
    assert!(matches!(parse_line("   # indented comment"), Directive::Blank));
}

#[test]
fn blank_lines_yield_nothing() {
    assert!(matches!(parse_line(""), Directive::Blank));
    assert!(matches!(parse_line("   \t "), Directive::Blank));
}

#[test]
fn malformed_lines_are_flagged() {
    assert!(matches!(parse_line("load"), Directive::Malformed));
    assert!(matches!(parse_line("load a.html extra"), Directive::Malformed));
    assert!(matches!(parse_line("frobnicate x.html"), Directive::Malformed));
}

#[test]
fn repeated_spaces_separate_tokens() {
    match parse_line("load   x.html") {
        Directive::Load(p) => assert_eq!(p, "x.html"),
        _ => panic!("expected a load directive"),
    }
}

#[test]
fn flat_manifest_in_file_order() {
    let lines = vec![
        "load a.html".to_string(),
        "".to_string(),
        "# comment".to_string(),
        "load b.html".to_string(),
        "load sub/c.html".to_string(),
    ];
    let mut list = CrashtestList::new("file:///tests/root.list".to_string(), lines);
    let urls = drive(&mut list, &[]);
    assert_eq!(
        urls,
        vec![
            "file:///tests/a.html".to_string(),
            "file:///tests/b.html".to_string(),
            "file:///tests/sub/c.html".to_string(),
        ]
    );
}

#[test]
fn nested_manifest_depth_first_order() {
    let kw = child_keyword();
    let lines = vec![
        "load a.html".to_string(),
        format!("{} child.list", kw),
        "load b.html".to_string(),
    ];
    let mut list = CrashtestList::new("file:///tests/root.list".to_string(), lines);
    let urls = drive(&mut list, &[("file:///tests/child.list", vec!["load c.html"])]);
    assert_eq!(
        urls,
        vec![
            "file:///tests/a.html".to_string(),
            "file:///tests/c.html".to_string(),
            "file:///tests/b.html".to_string(),
        ]
    );
}

#[test]
fn doubly_nested_manifests_drain_innermost_first() {
    let kw = child_keyword();
    let lines = vec![format!("{} mid.list", kw), "load last.html".to_string()];
    let mut list = CrashtestList::new("file:///t/root.list".to_string(), lines);
    let mid = format!("{} inner.list", kw);
    let urls = drive(
        &mut list,
        &[
            ("file:///t/mid.list", vec![mid.as_str(), "load mid.html"]),
            ("file:///t/inner.list", vec!["load inner.html"]),
        ],
    );
    assert_eq!(
        urls,
        vec![
            "file:///t/inner.html".to_string(),
            "file:///t/mid.html".to_string(),
            "file:///t/last.html".to_string(),
        ]
    );
}

#[test]
fn unresolvable_reference_is_fatal() {
    let lines = vec!["load x.html".to_string()];
    let mut list = CrashtestList::new("not a url at all".to_string(), lines);
    loop {
        match list.next() {
            Ok(StepEvent::Progress) => {}
            Err(StepError::Unresolvable(l)) => {
                assert_eq!(l, "load x.html");
                return;
            }
            other => panic!("expected resolution to fail, got {:?}", other.is_ok()),
        }
    }
}

#[test]
fn malformed_lines_are_skipped_not_fatal() {
    let lines = vec![
        "load a.html".to_string(),
        "bogus directive here".to_string(),
        "load b.html".to_string(),
    ];
    let mut list = CrashtestList::new("file:///tests/root.list".to_string(), lines);
    let urls = drive(&mut list, &[]);
    assert_eq!(
        urls,
        vec!["file:///tests/a.html".to_string(), "file:///tests/b.html".to_string()]
    );
}
