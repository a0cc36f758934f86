use dotenv_lib::{lex_dot_env, EnvToken};

/// reads a simple vec of tokens that should not error
#[test]
fn simple_lex_dot_env() {
    let contents = "KEY=VAL\n# comment\n".to_string();
    let tokens = lex_dot_env(contents);
    let expected_tokens = vec![
        EnvToken::Character('K'),
        EnvToken::Character('E'),
        EnvToken::Character('Y'),
        EnvToken::AssignmentOperator,
        EnvToken::Character('V'),
        EnvToken::Character('A'),
        EnvToken::Character('L'),
        EnvToken::NewLine,
        EnvToken::Comment,
        EnvToken::Whitespace,
        EnvToken::Character('c'),
        EnvToken::Character('o'),
        EnvToken::Character('m'),
        EnvToken::Character('m'),
        EnvToken::Character('e'),
        EnvToken::Character('n'),
        EnvToken::Character('t'),
        EnvToken::NewLine,
        EnvToken::Eof,
    ];

    assert_eq!(format!("{:?}", tokens), format!("{:?}", expected_tokens))
}

/// reads a simple vec of tokens that should not error
#[test]
fn simple_single_quoted_lex_dot_env() {
    let contents = "KEY='VAL'\n# comment\n".to_string();
    let tokens = lex_dot_env(contents);
    let expected_tokens = vec![
        EnvToken::Character('K'),
        EnvToken::Character('E'),
        EnvToken::Character('Y'),
        EnvToken::AssignmentOperator,
        EnvToken::SingleQuoteMark,
        EnvToken::Character('V'),
        EnvToken::Character('A'),
        EnvToken::Character('L'),
        EnvToken::SingleQuoteMark,
        EnvToken::NewLine,
        EnvToken::Comment,
        EnvToken::Whitespace,
        EnvToken::Character('c'),
        EnvToken::Character('o'),
        EnvToken::Character('m'),
        EnvToken::Character('m'),
        EnvToken::Character('e'),
        EnvToken::Character('n'),
        EnvToken::Character('t'),
        EnvToken::NewLine,
        EnvToken::Eof,
    ];

    assert_eq!(format!("{:?}", tokens), format!("{:?}", expected_tokens))
}
