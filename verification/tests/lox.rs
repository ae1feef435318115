use rlox::diagnostic::{Diagnostic, LexicalError};
use rlox::lox::Lox;
use rlox::token_type::TokenType;

#[test]
fn error_reports_line_and_message() {
    assert_eq!(Lox::error(3, "Unterminated string.".to_string()), "[line 3] Error: Unterminated string.");
    assert_eq!(Lox::error(0, String::new()), "[line 0] Error: ");
    assert_eq!(Lox::error(120, "x".to_string()), "[line 120] Error: x");
}

#[test]
fn report_names_the_location() {
    assert_eq!(
        Lox::report(7, " at end".to_string(), "Expect expression.".to_string()),
        "[line 7] Error at end: Expect expression."
    );
}

#[test]
fn messages_of_the_lexical_errors() {
    assert_eq!(LexicalError::UnterminatedString.message(), "Unterminated string.");
    assert_eq!(LexicalError::UnterminatedComment.message(), "Unterminated comment.");
    assert_eq!(LexicalError::UnexpectedCharacter('@').message(), "Unexpected character: @");
}

#[test]
fn a_new_interpreter_has_no_error() {
    assert!(!Lox::new().had_error());
}

#[test]
fn run_scans_and_remembers_errors() {
    let mut lox = Lox::new();
    let (tokens, found) = lox.run("print 1;".to_string());
    assert_eq!(tokens.len(), 4);
    assert_eq!(tokens[0].token_type, TokenType::Print);
    assert!(found.is_empty());
    assert!(!lox.had_error());
    let (tokens, found) = lox.run("print @;".to_string());
    assert_eq!(tokens.len(), 3);
    assert_eq!(found, vec![Diagnostic { line: 0, error: LexicalError::UnexpectedCharacter('@') }]);
    assert!(lox.had_error());
    let (_, found) = lox.run("1".to_string());
    assert!(found.is_empty());
    assert!(lox.had_error());
    lox.clear_error();
    assert!(!lox.had_error());
}

#[test]
fn reports_word_every_diagnostic_in_order() {
    let mut lox = Lox::new();
    let (_, found) = lox.run("@\n\"open\n/* open".to_string());
    assert_eq!(
        Lox::reports(&found),
        vec![
            "[line 0] Error: Unexpected character: @".to_string(),
            "[line 1] Error: Unterminated string.".to_string(),
        ]
    );
    let (_, found) = lox.run("1\n2\n/* open\n".to_string());
    assert_eq!(Lox::reports(&found), vec!["[line 2] Error: Unterminated comment.".to_string()]);
    assert_eq!(Lox::reports(&Vec::new()), Vec::<String>::new());
}
