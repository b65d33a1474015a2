use wake_word::keywords::Keywords;

#[test]
fn test_from_str_valid_keyword() {
    assert_eq!(Keywords::from_str("position"), Ok(Keywords::Position));
}

#[test]
fn test_from_str_invalid_keyword() {
    assert_eq!(Keywords::from_str("invalid"), Err(()));
}

#[test]
fn test_to_str() {
    assert_eq!(Keywords::Position.to_str(), "position");
}

#[test]
fn test_options() {
    assert_eq!(Keywords::options(), vec!["position"]);
}

#[test]
fn test_to_str_then_from_str_round_trips() {
    let kw = Keywords::Position;
    assert_eq!(Keywords::from_str(kw.to_str()), Ok(kw));
}

#[test]
fn test_from_str_rejects_empty() {
    assert_eq!(Keywords::from_str(""), Err(()));
}
