use lint_report::decimal::to_decimal;
use lint_report::{CodeCount, Elapsed, FileEntry, Results, RuleRegistry, Span, Violation};

fn violation(rule: &str, line: usize, column: usize) -> Violation {
    Violation {
        rule: rule.to_string(),
        suggestion: "s".to_string(),
        span: Span { line, column },
        line: "l".to_string(),
    }
}

#[test]
fn spans_start_at_one() {
    assert_eq!(Span::new(1, 1), Some(Span { line: 1, column: 1 }));
    assert_eq!(Span::new(12, 80), Some(Span { line: 12, column: 80 }));
    assert_eq!(Span::new(0, 1), None);
    assert_eq!(Span::new(1, 0), None);
    assert_eq!(Span::new(0, 0), None);
}

#[test]
fn elapsed_times_keep_their_nanoseconds_below_a_second() {
    let elapsed = Elapsed::new(2, 999_999_999).unwrap();
    assert_eq!(elapsed.secs(), 2);
    assert_eq!(elapsed.subsec_nanos(), 999_999_999);
    assert_eq!(Elapsed::new(2, 1_000_000_000), None);
    assert_eq!(Elapsed::new(0, u32::MAX), None);
}

#[test]
fn elapsed_times_from_milliseconds() {
    let elapsed = Elapsed::from_millis(150);
    assert_eq!((elapsed.secs(), elapsed.subsec_nanos()), (0, 150_000_000));
    let elapsed = Elapsed::from_millis(61_005);
    assert_eq!((elapsed.secs(), elapsed.subsec_nanos()), (61, 5_000_000));
    let elapsed = Elapsed::from_millis(u64::MAX);
    assert_eq!((elapsed.secs(), elapsed.subsec_nanos()), (u64::MAX / 1000, 615_000_000));
    assert_eq!(Elapsed::from_millis(0), Elapsed::new(0, 0).unwrap());
}

#[test]
fn a_new_snapshot_is_empty() {
    let results = Results::new(7);
    assert_eq!(
        results,
        Results { files: vec![], codes_count: vec![], total_files_count: 7, duration: None }
    );
}

#[test]
fn files_are_recorded_once_each_in_order() {
    let mut results = Results::new(3);
    assert!(results.insert_file("b.rs".to_string(), vec![violation("E1", 1, 2)]));
    assert!(results.insert_file("a.rs".to_string(), vec![]));
    assert!(!results.insert_file("b.rs".to_string(), vec![]));
    assert!(!results.insert_file("c.rs".to_string(), vec![violation("E1", 1, 1), violation("E2", 0, 5)]));
    assert!(!results.insert_file("c.rs".to_string(), vec![violation("E1", 4, 0)]));
    assert_eq!(
        results.files,
        vec![
            FileEntry { path: "b.rs".to_string(), violations: vec![violation("E1", 1, 2)] },
            FileEntry { path: "a.rs".to_string(), violations: vec![] },
        ]
    );
    assert_eq!(results.total_files_count, 3);
    assert!(results.codes_count.is_empty());
}

#[test]
fn tallies_are_recorded_once_each_in_order() {
    let mut results = Results::new(0);
    assert!(results.insert_count("E2".to_string(), 4));
    assert!(results.insert_count("E1".to_string(), 0));
    assert!(!results.insert_count("E2".to_string(), 9));
    assert_eq!(
        results.codes_count,
        vec![
            CodeCount { code: "E2".to_string(), count: 4 },
            CodeCount { code: "E1".to_string(), count: 0 },
        ]
    );
    assert!(results.files.is_empty());
}

#[test]
fn clones_are_equal() {
    let mut results = Results::new(2);
    results.insert_file("a.rs".to_string(), vec![violation("E1", 1, 2), violation("E2", 3, 4)]);
    results.insert_file("b.rs".to_string(), vec![]);
    results.insert_count("E1".to_string(), 1);
    results.insert_count("E2".to_string(), 1);
    results.duration = Some(Elapsed::from_millis(12));
    let copy = results.clone();
    assert_eq!(copy, results);
    assert_eq!(copy.files[0].violations[1], violation("E2", 3, 4));
}

#[test]
fn registry_describes_what_was_registered() {
    let mut rules = RuleRegistry::new();
    assert_eq!(rules.describe("E1"), None);
    rules.register("E1".to_string(), "first".to_string());
    rules.register("E2".to_string(), "second".to_string());
    assert_eq!(rules.describe("E1"), Some("first"));
    assert_eq!(rules.describe("E2"), Some("second"));
    assert_eq!(rules.describe("e1"), None);
    assert_eq!(rules.describe(""), None);
}

#[test]
fn registry_keeps_the_last_description_of_a_code() {
    let mut rules = RuleRegistry::new();
    rules.register("E1".to_string(), "first".to_string());
    rules.register("E2".to_string(), "second".to_string());
    rules.register("E1".to_string(), "again".to_string());
    assert_eq!(rules.describe("E1"), Some("again"));
    assert_eq!(rules.describe("E2"), Some("second"));
}

#[test]
fn registry_tells_whether_it_describes_every_tally() {
    let mut rules = RuleRegistry::new();
    let counts = vec![
        CodeCount { code: "E1".to_string(), count: 1 },
        CodeCount { code: "E2".to_string(), count: 2 },
    ];
    assert!(rules.describes_all(&vec![]));
    assert!(!rules.describes_all(&counts));
    rules.register("E1".to_string(), "first".to_string());
    assert!(!rules.describes_all(&counts));
    rules.register("E2".to_string(), "second".to_string());
    assert!(rules.describes_all(&counts));
}

#[test]
fn numbers_are_written_in_decimal() {
    assert_eq!(to_decimal(0), "0");
    assert_eq!(to_decimal(7), "7");
    assert_eq!(to_decimal(10), "10");
    assert_eq!(to_decimal(150), "150");
    assert_eq!(to_decimal(9_876_543_210), "9876543210");
    assert_eq!(to_decimal(usize::MAX), usize::MAX.to_string());
}
