use dotenv_lib::{process_dot_env, EnvError};

/// note the lack of a value at line 1 character 5
#[test]
fn expect_missing_value_err() {
    let contents = "KEY=\n# comment\n".to_string();
    let test_map = process_dot_env(contents);

    match test_map {
        Err(EnvError::MissingValue { line }) => {
            assert_eq!(line, 1);
        }
        _ => panic!("Did not return correct error"),
    }
}

/// note the lack of a key at line one character 1
#[test]
fn expect_missing_key_err() {
    let contents = "=VAL\n# comment\n".to_string();
    let test_map = process_dot_env(contents);

    match test_map {
        Err(EnvError::MissingKey { line }) => {
            assert_eq!(line, 1);
        }
        _ => panic!("Did not return correct error"),
    }
}

/// NOTE the whitespace after the new line
#[test]
fn expect_unexpected_token_err() {
    let contents = "KEY=VAL\n # comment\n".to_string();
    let test_map = process_dot_env(contents);

    match test_map {
        Err(EnvError::UnexpectedToken {
            line, character, ..
        }) => {
            assert_eq!(line, 2);
            assert_eq!(character, 1);
        }
        _ => panic!("Did not return correct error"),
    }
}

/// expect an error that the single quote is never closed
#[test]
fn expect_unclosed_single_quote_err() {
    let contents = "KEY='VAL\n # comment\n".to_string();
    let test_map = process_dot_env(contents);

    match test_map {
        Err(EnvError::UnclosedValue { line, .. }) => {
            assert_eq!(line, 1);
        }
        _ => panic!("Did not return correct error"),
    }
}

/// expect an error that the value is missing
#[test]
fn expect_empty_val_single_quote_err() {
    let contents = "KEY='' # same line comment \n # new line comment\n".to_string();
    let test_map = process_dot_env(contents);

    match test_map {
        Err(EnvError::MissingValue { line, .. }) => {
            assert_eq!(line, 1);
        }
        _ => panic!("Did not return correct error"),
    }
}

/// keys cannot have single or double quotes, only numbers, letters, and underscores,
/// and must begin with a letter
#[test]
fn expect_unexpected_value_in_key_single_quote_err() {
    let contents = "'KEY'='value' # same line comment \n".to_string();
    let test_map = process_dot_env(contents);
    match test_map {
        Err(EnvError::UnexpectedToken { line, .. }) => {
            assert_eq!(line, 1);
        }
        _ => panic!("Did not return correct error"),
    }
}

/// do not expect an error parsing special characters in a quoted value
#[test]
fn read_single_quoted_value_with_special_chars() {
    let contents = "HELLO='v a l # \n val\"=val'\n\n".to_string();
    let test_map = process_dot_env(contents).expect("error processing env file");
    assert_eq!(test_map.get("HELLO").unwrap(), "v a l # \n val\"=val")
}

/// do not expect an error parsing special characters in a quoted value
#[test]
fn read_double_quoted_value_with_special_chars() {
    let contents = "HELLO=\"v a l' # \n val\"\n\nK2=V2\n".to_string();
    let test_map = process_dot_env(contents).expect("error processing env file");
    assert_eq!(test_map.get("HELLO").unwrap(), "v a l' # \n val");
    assert_eq!(test_map.get("K2").unwrap(), "V2");
}

/// expect an error that the value is missing
#[test]
fn expect_empty_val_double_quote_err() {
    let contents = "KEY=\"\" # same line comment \n # new line comment\n".to_string();
    let test_map = process_dot_env(contents);

    match test_map {
        Err(EnvError::MissingValue { line, .. }) => {
            assert_eq!(line, 1);
        }
        _ => panic!("Did not return correct error"),
    }
}

/// keys cannot have single or double quotes, only numbers, letters, and underscores,
/// and must begin with a letter
#[test]
fn expect_unexpected_value_in_key_double_quote_err() {
    let contents = "\"KEY\"='value' # same line comment \n".to_string();
    let test_map = process_dot_env(contents);
    match test_map {
        Err(EnvError::UnexpectedToken { line, .. }) => {
            assert_eq!(line, 1);
        }
        _ => panic!("Did not return correct error"),
    }
}

/// expect an error that the single quote is never closed
#[test]
fn expect_unclosed_double_quote_err() {
    let contents = "KEY=\"VAL\n # comment\n".to_string();
    let test_map = process_dot_env(contents);

    match test_map {
        Err(EnvError::UnclosedValue { line, .. }) => {
            assert_eq!(line, 1);
        }
        _ => panic!("Did not return correct error"),
    }
}

/// expect an error that the single quote is never closed
#[test]
fn expect_unencountered_double_quote_err() {
    let contents = "KEY=VAL\" some text\n # comment\n".to_string();
    let test_map = process_dot_env(contents);

    match test_map {
        Err(EnvError::UnexpectedToken { line, .. }) => {
            assert_eq!(line, 1);
        }
        _ => panic!("Did not return correct error"),
    }
}
