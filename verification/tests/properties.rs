use dotenv_lib::{process_dot_env, serialize_env, EnvError};

/// the same input always yields the same mapping or the same error
#[test]
fn parse_is_deterministic() {
    let contents = "A=1\nB='two words'\n# note\n".to_string();
    let first = process_dot_env(contents.clone()).expect("error processing env file");
    let second = process_dot_env(contents).expect("error processing env file");
    assert_eq!(first.len(), second.len());
    assert_eq!(first.get("A").unwrap(), second.get("A").unwrap());
    assert_eq!(first.get("B").unwrap(), second.get("B").unwrap());

    let bad = "=oops\n".to_string();
    let e1 = process_dot_env(bad.clone());
    let e2 = process_dot_env(bad);
    assert!(matches!(e1, Err(EnvError::MissingKey { line: 1 })));
    assert!(matches!(e2, Err(EnvError::MissingKey { line: 1 })));
}

/// one entry per distinct key; the last occurrence of a repeated key wins
#[test]
fn last_occurrence_of_a_key_wins() {
    let contents = "A=1\nB=2\nA=3\n".to_string();
    let test_map = process_dot_env(contents).expect("error processing env file");
    assert_eq!(test_map.len(), 2);
    assert_eq!(test_map.get("A").unwrap(), "3");
    assert_eq!(test_map.get("B").unwrap(), "2");
}

/// quoted values keep `=`, `#`, whitespace, newlines and the opposite quote
#[test]
fn quoted_values_keep_special_characters() {
    let contents = "S='a=b #c \"d\ne'\nD=\"f=g #h 'i\nj\"\n".to_string();
    let test_map = process_dot_env(contents).expect("error processing env file");
    assert_eq!(test_map.get("S").unwrap(), "a=b #c \"d\ne");
    assert_eq!(test_map.get("D").unwrap(), "f=g #h 'i\nj");
}

/// blank lines and pure-comment lines produce no entries and no error
#[test]
fn blank_and_comment_lines_are_silent() {
    let contents = "\n\n# first comment\n\n# second = comment # again\n\n".to_string();
    let test_map = process_dot_env(contents).expect("error processing env file");
    assert_eq!(test_map.len(), 0);
}

/// everything inside a comment is discarded, quote marks included
#[test]
fn comments_discard_quotes_and_assignments() {
    let contents = "# don't mind = \"this\"\nA=1\n".to_string();
    let test_map = process_dot_env(contents).expect("error processing env file");
    assert_eq!(test_map.len(), 1);
    assert_eq!(test_map.get("A").unwrap(), "1");
}

/// an empty input yields an empty mapping
#[test]
fn empty_input_yields_empty_mapping() {
    let test_map = process_dot_env(String::new()).expect("error processing env file");
    assert_eq!(test_map.len(), 0);
}

/// an unclosed quote reports the line it was opened on, not the line of Eof
#[test]
fn unclosed_quote_reports_opening_line() {
    let contents = "FIRST=1\nK='a\nb\nc".to_string();
    let test_map = process_dot_env(contents);
    match test_map {
        Err(EnvError::UnclosedValue { line }) => {
            assert_eq!(line, 2);
        }
        _ => panic!("Did not return correct error"),
    }
}

/// a bare key with no assignment operator yields FoundOnlyKey
#[test]
fn bare_key_yields_found_only_key() {
    let contents = "KEY\n".to_string();
    let test_map = process_dot_env(contents);
    match test_map {
        Err(EnvError::FoundOnlyKey { line }) => {
            assert_eq!(line, 1);
        }
        _ => panic!("Did not return correct error"),
    }
}

/// a second assignment operator outside quotes is rejected
#[test]
fn double_assignment_is_rejected() {
    let contents = "KEY==VAL\n".to_string();
    let test_map = process_dot_env(contents);
    match test_map {
        Err(EnvError::ExpectedValueButFoundAssignment { line, character }) => {
            assert_eq!(line, 1);
            assert_eq!(character, 5);
        }
        _ => panic!("Did not return correct error"),
    }
}

/// scenario: a pair followed by a comment line
#[test]
fn pair_then_comment_line() {
    let contents = "KEY=VALUE\n# comment\n".to_string();
    let test_map = process_dot_env(contents).expect("error processing env file");
    assert_eq!(test_map.len(), 1);
    assert_eq!(test_map.get("KEY").unwrap(), "VALUE");
}

/// scenario: a key with an assignment and no value
#[test]
fn key_without_value() {
    let test_map = process_dot_env("KEY=\n".to_string());
    assert!(matches!(test_map, Err(EnvError::MissingValue { line: 1 })));
}

/// scenario: a value with no key
#[test]
fn value_without_key() {
    let test_map = process_dot_env("=VAL\n".to_string());
    assert!(matches!(test_map, Err(EnvError::MissingKey { line: 1 })));
}

/// scenario: a single-quoted value full of special characters
#[test]
fn single_quoted_value_with_specials() {
    let contents = "HELLO='v a l # \n val\"=val'\n".to_string();
    let test_map = process_dot_env(contents).expect("error processing env file");
    assert_eq!(test_map.len(), 1);
    assert_eq!(test_map.get("HELLO").unwrap(), "v a l # \n val\"=val");
}

/// scenario: a single quote opened and never closed before Eof
#[test]
fn unclosed_single_quote_at_eof() {
    let test_map = process_dot_env("KEY='VAL\n".to_string());
    assert!(matches!(test_map, Err(EnvError::UnclosedValue { line: 1 })));
}

/// serializing a mapping of plain keys and values and parsing the text
/// again reconstructs the mapping
#[test]
fn serialize_then_parse_round_trips() {
    let contents = "Hello=World\nNICE_TO=meet_you\n".to_string();
    let test_map = process_dot_env(contents).expect("error processing env file");
    let text = serialize_env(&test_map);
    let reparsed = process_dot_env(text).expect("error reparsing serialized env");
    assert_eq!(reparsed.len(), test_map.len());
    assert_eq!(reparsed.get("Hello").unwrap(), "World");
    assert_eq!(reparsed.get("NICE_TO").unwrap(), "meet_you");
}

/// the serializer writes one KEY=VALUE line per entry, raw, no quoting
#[test]
fn serialize_writes_raw_lines() {
    let test_map = process_dot_env("Hello=World\n".to_string()).expect("error processing env file");
    let text = serialize_env(&test_map);
    assert_eq!(text, "Hello=World\n");
}

/// values with characters the serializer does not quote are not guaranteed
/// to round-trip: the parse of the raw text fails instead
#[test]
fn round_trip_fails_on_unquoted_specials() {
    let contents = "K='a b'\n".to_string();
    let test_map = process_dot_env(contents).expect("error processing env file");
    assert_eq!(test_map.get("K").unwrap(), "a b");
    let text = serialize_env(&test_map);
    assert_eq!(text, "K=a b\n");
    let reparsed = process_dot_env(text);
    assert!(matches!(reparsed, Err(EnvError::UnexpectedToken { .. })));
}
