use dotenv_lib::{
    is_env_file_name, lex_dot_env, parse_dot_env, EnvError, EnvMap, FindEnvError,
};

/// the mapping starts empty and grows by one entry per distinct key
#[test]
fn env_map_insert_and_get() {
    let mut map = EnvMap::new();
    assert_eq!(map.len(), 0);
    assert!(map.get("A").is_none());
    map.insert("A".to_string(), "1".to_string());
    map.insert("B".to_string(), "2".to_string());
    assert_eq!(map.len(), 2);
    assert_eq!(map.get("A").unwrap(), "1");
    assert_eq!(map.get("B").unwrap(), "2");
    map.insert("A".to_string(), "3".to_string());
    assert_eq!(map.len(), 2);
    assert_eq!(map.get("A").unwrap(), "3");
}

/// entries can be walked in storage order
#[test]
fn env_map_walk_entries() {
    let mut map = EnvMap::new();
    map.insert("x".to_string(), "1".to_string());
    map.insert("y".to_string(), "2".to_string());
    let mut seen = Vec::new();
    for i in 0..map.len() {
        seen.push(format!("{}={}", map.key_at(i), map.val_at(i)));
    }
    assert_eq!(seen, vec!["x=1".to_string(), "y=2".to_string()]);
}

/// lexing then parsing equals processing in one call
#[test]
fn lex_then_parse() {
    let tokens = lex_dot_env("A=1\n".to_string());
    let map = parse_dot_env(tokens).expect("error parsing tokens");
    assert_eq!(map.get("A").unwrap(), "1");
}

/// only names ending in `.env` count as env files
#[test]
fn env_file_name_suffix() {
    assert!(is_env_file_name(".env"));
    assert!(is_env_file_name("Test.env"));
    assert!(is_env_file_name("a.b.env"));
    assert!(!is_env_file_name("env"));
    assert!(!is_env_file_name(".envrc"));
    assert!(!is_env_file_name("Test.ENV"));
    assert!(!is_env_file_name(""));
}

/// each parse error formats to one descriptive line
#[test]
fn error_messages_are_exact() {
    assert_eq!(
        EnvError::MissingValue { line: 12 }.message(),
        "Value missing on line 12"
    );
    assert_eq!(
        EnvError::MissingKey { line: 3 }.message(),
        "Key missing on line 3"
    );
    assert_eq!(
        EnvError::FoundOnlyKey { line: 7 }.message(),
        "Only found key on line 7, expected assignment operator and value"
    );
    assert_eq!(
        EnvError::UnclosedValue { line: 205 }.message(),
        "Key or value was not closed from line 205"
    );
    assert_eq!(
        EnvError::UnexpectedToken {
            expected: "key or comment symbol".to_string(),
            found: " ".to_string(),
            line: 2,
            character: 1,
        }
        .message(),
        "Unexpected token: expected key or comment symbol but found ' ' at line 2, character 1"
    );
    assert_eq!(
        EnvError::ExpectedValueButFoundAssignment { line: 1, character: 5 }.message(),
        "Expected value but found assignment operator at line 1, character 5"
    );
    assert_eq!(
        EnvError::MissingAssignmentOperator {
            key: "K".to_string(),
            line: 4,
            character: 2,
        }
        .message(),
        "Missing assignment operator for key 'K' on line 4, character 2"
    );
}

/// the discovery error wraps a parse error, an I/O error or a miss
#[test]
fn find_env_error_messages() {
    let env_err = FindEnvError::Env(EnvError::MissingValue { line: 1 });
    assert_eq!(env_err.message(), "Env parsing error: Value missing on line 1");

    let not_found = FindEnvError::NotFound("no env file".to_string());
    assert_eq!(not_found.message(), "FindEnv error: no env file");

    let io_err = FindEnvError::from(std::io::Error::new(
        std::io::ErrorKind::Other,
        "disk trouble",
    ));
    assert!(matches!(io_err, FindEnvError::Io(_)));
    assert!(io_err.message().starts_with("I/O Error: "));

    let wrapped = FindEnvError::from(EnvError::MissingKey { line: 2 });
    assert!(matches!(wrapped, FindEnvError::Env(_)));
}
