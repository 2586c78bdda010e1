use lint_report::{CodeCount, Elapsed, FileEntry, Json, Results, Span, Violation};

fn violation(rule: &str, line: usize, column: usize) -> Violation {
    Violation {
        rule: rule.to_string(),
        suggestion: format!("fix {}", rule),
        span: Span { line, column },
        line: "let x = 1;".to_string(),
    }
}

fn file(path: &str, violations: Vec<Violation>) -> FileEntry {
    FileEntry { path: path.to_string(), violations }
}

fn paths(results: &Results) -> Vec<&str> {
    results.files.iter().map(|file| file.path.as_str()).collect()
}

#[test]
fn export_of_two_files_one_clean_holds_only_the_other() {
    let results = Results {
        files: vec![file("a.rs", vec![violation("E1", 3, 7), violation("E1", 10, 1)]), file("b.rs", vec![])],
        codes_count: vec![CodeCount { code: "E1".to_string(), count: 2 }],
        total_files_count: 2,
        duration: Some(Elapsed::from_millis(150)),
    };
    let out = Json::output(results);
    assert_eq!(
        out,
        Results {
            files: vec![file("a.rs", vec![violation("E1", 3, 7), violation("E1", 10, 1)])],
            codes_count: vec![CodeCount { code: "E1".to_string(), count: 2 }],
            total_files_count: 2,
            duration: Some(Elapsed::from_millis(150)),
        }
    );
    assert_eq!(paths(&out), vec!["a.rs"]);
}

#[test]
fn export_of_an_empty_snapshot_is_empty() {
    let out = Json::output(Results {
        files: vec![],
        codes_count: vec![],
        total_files_count: 0,
        duration: None,
    });
    assert!(out.files.is_empty());
    assert!(out.codes_count.is_empty());
    assert_eq!(out.total_files_count, 0);
    assert_eq!(out.duration, None);
}

#[test]
fn export_keeps_exactly_the_files_with_violations_in_order() {
    let results = Results {
        files: vec![
            file("clean_first.rs", vec![]),
            file("z.rs", vec![violation("E2", 1, 1)]),
            file("clean_middle.rs", vec![]),
            file("a.rs", vec![violation("E1", 2, 2), violation("E2", 4, 4)]),
            file("clean_last.rs", vec![]),
        ],
        codes_count: vec![
            CodeCount { code: "E1".to_string(), count: 1 },
            CodeCount { code: "E2".to_string(), count: 2 },
        ],
        total_files_count: 5,
        duration: None,
    };
    let out = Json::output(results);
    assert_eq!(paths(&out), vec!["z.rs", "a.rs"]);
    assert!(out.files.iter().all(|file| !file.violations.is_empty()));
    assert_eq!(out.files[1].violations, vec![violation("E1", 2, 2), violation("E2", 4, 4)]);
    assert_eq!(out.total_files_count, 5);
    assert_eq!(out.codes_count.len(), 2);
    assert_eq!(out.codes_count[1], CodeCount { code: "E2".to_string(), count: 2 });
}

#[test]
fn export_of_a_snapshot_without_clean_files_is_the_snapshot() {
    let results = Results {
        files: vec![file("a.rs", vec![violation("E1", 1, 1)]), file("b.rs", vec![violation("E1", 2, 1)])],
        codes_count: vec![CodeCount { code: "E1".to_string(), count: 2 }],
        total_files_count: 2,
        duration: Elapsed::new(3, 4),
    };
    let copy = results.clone();
    assert_eq!(Json::output(results), copy);
}

#[test]
fn export_of_only_clean_files_has_no_files() {
    let results = Results {
        files: vec![file("a.rs", vec![]), file("b.rs", vec![])],
        codes_count: vec![],
        total_files_count: 2,
        duration: None,
    };
    assert!(Json::output(results).files.is_empty());
}
