use lint_report::format::Format;

#[test]
fn parses_the_two_tokens() {
    assert_eq!(Format::from_str("text"), Ok(Format::text));
    assert_eq!(Format::from_str("json"), Ok(Format::json));
}

#[test]
fn rejects_other_tokens() {
    assert_eq!(Format::from_str("Text"), Err(()));
    assert_eq!(Format::from_str("JSON"), Err(()));
    assert_eq!(Format::from_str(""), Err(()));
    assert_eq!(Format::from_str("yaml"), Err(()));
    assert_eq!(Format::from_str("text "), Err(()));
}

#[test]
fn parses_through_the_standard_trait() {
    assert_eq!("json".parse::<Format>(), Ok(Format::json));
    assert_eq!("jsonl".parse::<Format>(), Err(()));
}
