use rlox::diagnostic::{Diagnostic, LexicalError};
use rlox::number::Decimal;
use rlox::scanner::{scan, Scanner};
use rlox::token::Token;
use rlox::token_type::TokenType;

fn kinds(source: &str) -> Vec<TokenType> {
    let (tokens, _) = scan(source.to_string());
    tokens.into_iter().map(|t| t.token_type).collect()
}

fn diagnostics(source: &str) -> Vec<Diagnostic> {
    scan(source.to_string()).1
}

fn number(text: &str) -> TokenType {
    TokenType::Number(Decimal::parse(text).unwrap())
}

fn eof_count(tokens: &[Token]) -> usize {
    tokens.iter().filter(|t| t.token_type == TokenType::Eof).count()
}

#[test]
fn every_scan_ends_with_one_end_of_input() {
    let sources = [
        "",
        " ",
        "var x = 1;",
        "\"open",
        "/* open",
        "@#^",
        "a\nb\nc",
        "1.5.2",
        "// only a comment",
        "((((",
        "\n\n\n",
        "héllo wörld",
    ];
    for source in sources {
        let (tokens, _) = scan(source.to_string());
        assert!(!tokens.is_empty());
        assert_eq!(tokens.last().unwrap().token_type, TokenType::Eof);
        assert_eq!(tokens.last().unwrap().lexeme, None);
        assert_eq!(eof_count(&tokens), 1);
    }
}

#[test]
fn every_other_token_has_a_lexeme_from_the_source() {
    let source = "var answer = (4 + 38.0) / 1; // done\nprint \"ok\";";
    let (tokens, found) = scan(source.to_string());
    assert!(found.is_empty());
    for token in &tokens[..tokens.len() - 1] {
        let lexeme = token.lexeme.as_ref().unwrap();
        assert!(!lexeme.is_empty());
        assert!(source.contains(lexeme.as_str()));
    }
}

#[test]
fn blank_sources_yield_only_end_of_input() {
    let sources = [
        "",
        " ",
        " \t\r\n",
        "// a comment",
        "// a comment\n",
        "/* a block */",
        "/* a /* nested */ block */",
        "  /* one */ // two\n\t/* three\nlines\n*/\n",
        "/**/",
        "//",
    ];
    for source in sources {
        let (tokens, found) = scan(source.to_string());
        assert_eq!(tokens.len(), 1);
        assert_eq!(tokens[0].token_type, TokenType::Eof);
        assert_eq!(tokens[0].lexeme, None);
        assert!(found.is_empty());
    }
}

#[test]
fn end_of_input_carries_the_final_line() {
    let (tokens, _) = scan("".to_string());
    assert_eq!(tokens[0].line, 0);
    let (tokens, _) = scan("a\nb\n\nc".to_string());
    assert_eq!(tokens.last().unwrap().line, 3);
    let (tokens, _) = scan("\n".to_string());
    assert_eq!(tokens.last().unwrap().line, 1);
}

#[test]
fn number_literal_keeps_its_value_and_its_text() {
    let (tokens, found) = scan("3.0".to_string());
    assert!(found.is_empty());
    assert_eq!(tokens.len(), 2);
    match &tokens[0].token_type {
        TokenType::Number(value) => {
            let parsed: f64 = value.to_string().parse().unwrap();
            assert_eq!(parsed, 3.0);
            assert_eq!(value.to_string(), "3");
        }
        other => panic!("expected a number, found {:?}", other),
    }
    assert_eq!(tokens[0].lexeme, Some("3.0".to_string()));
}

#[test]
fn number_literals_of_many_shapes() {
    let cases: [(&str, f64, &str); 8] = [
        ("0", 0.0, "0"),
        ("7", 7.0, "7"),
        ("42", 42.0, "42"),
        ("3.14", 3.14, "3.14"),
        ("0.5", 0.5, "0.5"),
        ("007", 7.0, "7"),
        ("1.50", 1.5, "1.5"),
        ("000.000", 0.0, "0"),
    ];
    for (source, expected, canonical) in cases {
        let (tokens, found) = scan(source.to_string());
        assert!(found.is_empty());
        assert_eq!(tokens.len(), 2);
        assert_eq!(tokens[0].lexeme, Some(source.to_string()));
        match &tokens[0].token_type {
            TokenType::Number(value) => {
                assert_eq!(value.to_string(), canonical);
                let parsed: f64 = value.to_string().parse().unwrap();
                assert_eq!(parsed, expected);
                let direct: f64 = source.parse().unwrap();
                assert_eq!(parsed, direct);
            }
            other => panic!("expected a number, found {:?}", other),
        }
    }
}

#[test]
fn a_point_without_a_digit_behind_it_is_no_part_of_the_number() {
    assert_eq!(kinds("3."), vec![number("3"), TokenType::Dot, TokenType::Eof]);
    let (tokens, _) = scan("3.".to_string());
    assert_eq!(tokens[0].lexeme, Some("3".to_string()));
    assert_eq!(tokens[1].lexeme, Some(".".to_string()));
    assert_eq!(
        kinds("1.a"),
        vec![number("1"), TokenType::Dot, TokenType::Identifier("a".to_string()), TokenType::Eof]
    );
    assert_eq!(kinds(".5"), vec![TokenType::Dot, number("5"), TokenType::Eof]);
    assert_eq!(
        kinds("1.2.3"),
        vec![number("1.2"), TokenType::Dot, number("3"), TokenType::Eof]
    );
}

#[test]
fn nested_comment_is_consumed_whole() {
    let (tokens, found) = scan("/* a /* b */ c */".to_string());
    assert_eq!(tokens.len(), 1);
    assert_eq!(tokens[0].token_type, TokenType::Eof);
    assert!(found.is_empty());
}

#[test]
fn unbalanced_comment_is_reported_once() {
    let (tokens, found) = scan("/* a /* b */".to_string());
    assert_eq!(tokens.len(), 1);
    assert_eq!(tokens[0].token_type, TokenType::Eof);
    assert_eq!(found, vec![Diagnostic { line: 0, error: LexicalError::UnterminatedComment }]);
}

#[test]
fn comment_nesting_counts_openers_and_closers() {
    assert_eq!(kinds("/* /* /* */ */ */ 1"), vec![number("1"), TokenType::Eof]);
    assert_eq!(
        kinds("/* a */ b */"),
        vec![
            TokenType::Identifier("b".to_string()),
            TokenType::Star,
            TokenType::Slash,
            TokenType::Eof
        ]
    );
    assert_eq!(kinds("/*/ 1"), vec![TokenType::Eof]);
    assert_eq!(diagnostics("/*/ 1").len(), 1);
    assert_eq!(kinds("/**/1"), vec![number("1"), TokenType::Eof]);
    assert_eq!(kinds("/* * / */1"), vec![number("1"), TokenType::Eof]);
}

#[test]
fn unterminated_comment_is_reported_where_it_starts() {
    let found = diagnostics("a\nb /* c\nd\n");
    assert_eq!(found, vec![Diagnostic { line: 1, error: LexicalError::UnterminatedComment }]);
}

#[test]
fn line_comment_ends_at_the_line_feed() {
    let (tokens, found) = scan("a // b c d\ne".to_string());
    assert!(found.is_empty());
    assert_eq!(tokens.len(), 3);
    assert_eq!(tokens[0].token_type, TokenType::Identifier("a".to_string()));
    assert_eq!(tokens[0].line, 0);
    assert_eq!(tokens[1].token_type, TokenType::Identifier("e".to_string()));
    assert_eq!(tokens[1].line, 1);
    assert_eq!(tokens[2].line, 1);
}

#[test]
fn quoted_word_is_one_string_token() {
    let (tokens, found) = scan("\"hello\"".to_string());
    assert!(found.is_empty());
    assert_eq!(tokens.len(), 2);
    assert_eq!(tokens[0].token_type, TokenType::LoxString("hello".to_string()));
    assert_eq!(tokens[0].lexeme, Some("\"hello\"".to_string()));
    assert_eq!(tokens[1].token_type, TokenType::Eof);
}

#[test]
fn unterminated_string_is_reported_once() {
    let (tokens, found) = scan("\"unterminated".to_string());
    assert_eq!(tokens.len(), 1);
    assert_eq!(tokens[0].token_type, TokenType::Eof);
    assert_eq!(found, vec![Diagnostic { line: 0, error: LexicalError::UnterminatedString }]);
}

#[test]
fn strings_may_be_empty_and_may_span_lines() {
    assert_eq!(kinds("\"\""), vec![TokenType::LoxString(String::new()), TokenType::Eof]);
    let (tokens, found) = scan("\"a\nb\" c".to_string());
    assert!(found.is_empty());
    assert_eq!(tokens[0].token_type, TokenType::LoxString("a\nb".to_string()));
    assert_eq!(tokens[0].line, 1);
    assert_eq!(tokens[1].token_type, TokenType::Identifier("c".to_string()));
    assert_eq!(tokens[1].line, 1);
}

#[test]
fn string_body_is_taken_verbatim() {
    assert_eq!(
        kinds("\"// no comment /* here */ 1 + 2\""),
        vec![TokenType::LoxString("// no comment /* here */ 1 + 2".to_string()), TokenType::Eof]
    );
    assert_eq!(
        kinds("\"a\\\" b"),
        vec![
            TokenType::LoxString("a\\".to_string()),
            TokenType::Identifier("b".to_string()),
            TokenType::Eof
        ]
    );
}

#[test]
fn unterminated_string_is_reported_where_it_starts() {
    let (tokens, found) = scan("x\n\"abc\ndef\n".to_string());
    assert_eq!(found, vec![Diagnostic { line: 1, error: LexicalError::UnterminatedString }]);
    assert_eq!(tokens.len(), 2);
    assert_eq!(tokens[1].token_type, TokenType::Eof);
    assert_eq!(tokens[1].line, 3);
}

#[test]
fn reserved_word_is_not_an_identifier() {
    let (tokens, _) = scan("var".to_string());
    assert_eq!(tokens.len(), 2);
    assert_eq!(tokens[0].token_type, TokenType::Var);
    assert_eq!(tokens[0].lexeme, Some("var".to_string()));
    let (tokens, _) = scan("variable".to_string());
    assert_eq!(tokens.len(), 2);
    assert_eq!(tokens[0].token_type, TokenType::Identifier("variable".to_string()));
}

#[test]
fn every_reserved_word_scans_to_its_kind() {
    let source = "and class else false fun for if nil or print return super this true var while";
    assert_eq!(
        kinds(source),
        vec![
            TokenType::And,
            TokenType::Class,
            TokenType::Else,
            TokenType::False,
            TokenType::Fun,
            TokenType::For,
            TokenType::If,
            TokenType::Nil,
            TokenType::Or,
            TokenType::Print,
            TokenType::Return,
            TokenType::Super,
            TokenType::This,
            TokenType::True,
            TokenType::Var,
            TokenType::While,
            TokenType::Eof,
        ]
    );
}

#[test]
fn identifiers_take_letters_digits_and_underscores() {
    assert_eq!(
        kinds("_a1 b_2 C3_ _ Var vars"),
        vec![
            TokenType::Identifier("_a1".to_string()),
            TokenType::Identifier("b_2".to_string()),
            TokenType::Identifier("C3_".to_string()),
            TokenType::Identifier("_".to_string()),
            TokenType::Identifier("Var".to_string()),
            TokenType::Identifier("vars".to_string()),
            TokenType::Eof,
        ]
    );
    assert_eq!(
        kinds("1abc"),
        vec![number("1"), TokenType::Identifier("abc".to_string()), TokenType::Eof]
    );
}

#[test]
fn bang_equal_is_one_token() {
    let (tokens, found) = scan("!=".to_string());
    assert!(found.is_empty());
    assert_eq!(tokens.len(), 2);
    assert_eq!(tokens[0].token_type, TokenType::BangEqual);
    assert_eq!(tokens[0].lexeme, Some("!=".to_string()));
}

#[test]
fn less_alone_consumes_no_lookahead() {
    let (tokens, found) = scan("<1".to_string());
    assert!(found.is_empty());
    assert_eq!(tokens.len(), 3);
    assert_eq!(tokens[0].token_type, TokenType::Less);
    assert_eq!(tokens[0].lexeme, Some("<".to_string()));
    assert_eq!(tokens[1].token_type, number("1"));
    assert_eq!(tokens[1].lexeme, Some("1".to_string()));
    assert_eq!(kinds("<"), vec![TokenType::Less, TokenType::Eof]);
}

#[test]
fn one_and_two_character_operators() {
    assert_eq!(
        kinds("! != = == < <= > >="),
        vec![
            TokenType::Bang,
            TokenType::BangEqual,
            TokenType::Equal,
            TokenType::EqualEqual,
            TokenType::Less,
            TokenType::LessEqual,
            TokenType::Greater,
            TokenType::GreaterEqual,
            TokenType::Eof,
        ]
    );
    assert_eq!(
        kinds("==="),
        vec![TokenType::EqualEqual, TokenType::Equal, TokenType::Eof]
    );
    assert_eq!(
        kinds("!<"),
        vec![TokenType::Bang, TokenType::Less, TokenType::Eof]
    );
    assert_eq!(
        kinds("> ="),
        vec![TokenType::Greater, TokenType::Equal, TokenType::Eof]
    );
}

#[test]
fn punctuation_scans_one_by_one() {
    assert_eq!(
        kinds("(){},.-+;*/"),
        vec![
            TokenType::LeftParen,
            TokenType::RightParen,
            TokenType::LeftBrace,
            TokenType::RightBrace,
            TokenType::Comma,
            TokenType::Dot,
            TokenType::Minus,
            TokenType::Plus,
            TokenType::Semicolon,
            TokenType::Star,
            TokenType::Slash,
            TokenType::Eof,
        ]
    );
}

#[test]
fn unexpected_characters_are_reported_and_scanning_goes_on() {
    let (tokens, found) = scan("a @ b\n# c".to_string());
    assert_eq!(
        tokens.iter().map(|t| t.token_type.clone()).collect::<Vec<_>>(),
        vec![
            TokenType::Identifier("a".to_string()),
            TokenType::Identifier("b".to_string()),
            TokenType::Identifier("c".to_string()),
            TokenType::Eof,
        ]
    );
    assert_eq!(
        found,
        vec![
            Diagnostic { line: 0, error: LexicalError::UnexpectedCharacter('@') },
            Diagnostic { line: 1, error: LexicalError::UnexpectedCharacter('#') },
        ]
    );
}

#[test]
fn characters_beyond_ascii_are_counted_one_by_one() {
    let (tokens, found) = scan("é x \"ñandú\"".to_string());
    assert_eq!(found, vec![Diagnostic { line: 0, error: LexicalError::UnexpectedCharacter('é') }]);
    assert_eq!(tokens[0].token_type, TokenType::Identifier("x".to_string()));
    assert_eq!(tokens[1].token_type, TokenType::LoxString("ñandú".to_string()));
    assert_eq!(tokens[1].lexeme, Some("\"ñandú\"".to_string()));
}

#[test]
fn all_errors_of_one_source_are_collected() {
    let found = diagnostics("@\n$ \"open");
    assert_eq!(
        found,
        vec![
            Diagnostic { line: 0, error: LexicalError::UnexpectedCharacter('@') },
            Diagnostic { line: 1, error: LexicalError::UnexpectedCharacter('$') },
            Diagnostic { line: 1, error: LexicalError::UnterminatedString },
        ]
    );
}

#[test]
fn lines_count_line_feeds_wherever_they_are_consumed() {
    let (tokens, _) = scan("a\n/* x\ny\n*/ b\n\"s\nt\" c".to_string());
    let lines: Vec<usize> = tokens.iter().map(|t| t.line).collect();
    assert_eq!(lines, vec![0, 3, 5, 5, 5]);
}

#[test]
fn a_small_program() {
    let (tokens, found) = scan("var x = (1 + 2) * 3.5;\nprint x >= 10;".to_string());
    assert!(found.is_empty());
    let expected = vec![
        (TokenType::Var, "var", 0),
        (TokenType::Identifier("x".to_string()), "x", 0),
        (TokenType::Equal, "=", 0),
        (TokenType::LeftParen, "(", 0),
        (number("1"), "1", 0),
        (TokenType::Plus, "+", 0),
        (number("2"), "2", 0),
        (TokenType::RightParen, ")", 0),
        (TokenType::Star, "*", 0),
        (number("3.5"), "3.5", 0),
        (TokenType::Semicolon, ";", 0),
        (TokenType::Print, "print", 1),
        (TokenType::Identifier("x".to_string()), "x", 1),
        (TokenType::GreaterEqual, ">=", 1),
        (number("10"), "10", 1),
        (TokenType::Semicolon, ";", 1),
    ];
    assert_eq!(tokens.len(), expected.len() + 1);
    for (token, (kind, lexeme, line)) in tokens.iter().zip(expected) {
        assert_eq!(token.token_type, kind);
        assert_eq!(token.lexeme, Some(lexeme.to_string()));
        assert_eq!(token.line, line);
    }
    assert_eq!(tokens.last().unwrap().token_type, TokenType::Eof);
    assert_eq!(tokens.last().unwrap().line, 1);
}

#[test]
fn a_new_scanner_has_produced_nothing() {
    let scanner = Scanner::new("abc".to_string());
    assert!(scanner.tokens().is_empty());
    assert!(scanner.diagnostics().is_empty());
    assert!(!scanner.is_at_end());
    let empty = Scanner::new(String::new());
    assert!(empty.is_at_end());
}

#[test]
fn scan_token_takes_one_step() {
    let mut scanner = Scanner::new("  a != \"s\" @".to_string());
    scanner.scan_token();
    assert!(scanner.tokens().is_empty());
    scanner.scan_token();
    assert!(scanner.tokens().is_empty());
    scanner.scan_token();
    assert_eq!(scanner.tokens().len(), 1);
    assert_eq!(scanner.tokens()[0].lexeme, Some("a".to_string()));
    scanner.scan_token();
    scanner.scan_token();
    assert_eq!(scanner.tokens().len(), 2);
    assert_eq!(scanner.tokens()[1].token_type, TokenType::BangEqual);
    scanner.scan_token();
    scanner.scan_token();
    assert_eq!(scanner.tokens().len(), 3);
    assert_eq!(scanner.tokens()[2].lexeme, Some("\"s\"".to_string()));
    scanner.scan_token();
    scanner.scan_token();
    assert_eq!(scanner.tokens().len(), 3);
    assert_eq!(scanner.diagnostics().len(), 1);
    assert!(scanner.is_at_end());
    scanner.scan_token();
    assert_eq!(scanner.tokens().len(), 3);
    assert_eq!(scanner.diagnostics().len(), 1);
}

#[test]
fn scan_tokens_finishes_what_scan_token_began() {
    let mut stepped = Scanner::new("a + b".to_string());
    stepped.scan_token();
    stepped.scan_token();
    let tokens = stepped.scan_tokens().clone();
    let (whole, _) = scan("a + b".to_string());
    assert_eq!(tokens, whole);
}

#[test]
fn scanning_twice_adds_no_second_end_of_input() {
    let mut scanner = Scanner::new("1 + 2".to_string());
    let first = scanner.scan_tokens().clone();
    let second = scanner.scan_tokens().clone();
    assert_eq!(first, second);
    assert_eq!(eof_count(&second), 1);
    assert_eq!(second.len(), 4);
    let (tokens, found) = scanner.into_parts();
    assert_eq!(tokens, first);
    assert!(found.is_empty());
}

#[test]
fn tokens_follow_the_source() {
    let source = "var a = \"x\ny\";\n/* c\n */ print a != 1.50; // end\n@ while";
    let chars: Vec<char> = source.chars().collect();
    let (tokens, _) = scan(source.to_string());
    let mut from = 0;
    let mut line = 0;
    for token in &tokens[..tokens.len() - 1] {
        let lexeme: Vec<char> = token.lexeme.as_ref().unwrap().chars().collect();
        assert!(!lexeme.is_empty());
        let at = (from..=chars.len() - lexeme.len())
            .find(|&i| chars[i..i + lexeme.len()] == lexeme[..])
            .unwrap();
        let to = at + lexeme.len();
        let newlines = chars[..to].iter().filter(|&&c| c == '\n').count();
        assert_eq!(token.line, newlines);
        assert!(line <= token.line);
        from = to;
        line = token.line;
    }
    assert!(line <= tokens.last().unwrap().line);
    assert_eq!(tokens.last().unwrap().line, 4);
}
