use smalltalk_compiler::lexer::{Lexer, Token};

fn collect_tokens(lexer: &mut Lexer) -> Vec<(Token, String)> {
    let mut tokens = Vec::new();
    while let Some((token, _)) = lexer.next_token() {
        if !matches!(token, Token::Whitespace) {
            tokens.push((token, lexer.slice()));
        }
    }
    tokens
}

fn assert_token_seq(actual: &[(Token, String)], expected: &[(Token, &str)]) {
    println!("--- Tokens received from lexer ---");
    for (i, (token, text)) in actual.iter().enumerate() {
        println!("{:02}: {:?}: '{}'", i, token, text);
    }
    println!("--- End of token list ---\n");

    assert_eq!(
        actual.len(),
        expected.len(),
        "Expected {} tokens but got {}",
        expected.len(),
        actual.len()
    );

    for (i, ((actual_tok, actual_text), (expected_tok, expected_text))) in actual
        .iter()
        .zip(expected.iter())
        .enumerate()
    {
        assert_eq!(
            actual_tok, expected_tok,
            "Token at position {}: expected {:?} but got {:?}",
            i, expected_tok, actual_tok
        );
        assert_eq!(
            actual_text, expected_text,
            "Text at position {}: expected '{}' but got '{}'",
            i, expected_text, actual_text
        );
    }
}

#[test]
fn test_postcard() {
    let postcard = "exampleWithNumber: x
    | y |
    true & false not & (nil isNil) ifFalse: [self halt].
    y := self size + super size.
    #($a #a 'a' 1 1.0)
        do: [ :each |
            Transcript show: (each class name);
                       show: ' '].
    ^x < y";

    let mut lexer = Lexer::new(postcard);
    let tokens: Vec<(Token, String)> = collect_tokens(&mut lexer);

    let expected_sequence = vec![
        (Token::Identifier, "exampleWithNumber"),
        (Token::Colon, ":"),
        (Token::Identifier, "x"),
        (Token::Pipe, "|"),
        (Token::Identifier, "y"),
        (Token::Pipe, "|"),
        (Token::True, "true"),
        (Token::Ampersand, "&"),
        (Token::False, "false"),
        (Token::Identifier, "not"),
        (Token::Ampersand, "&"),
        (Token::LParen, "("),
        (Token::Nil, "nil"),
        (Token::Identifier, "isNil"),
        (Token::RParen, ")"),
        (Token::Identifier, "ifFalse"),
        (Token::Colon, ":"),
        (Token::LBracket, "["),
        (Token::Self_, "self"),
        (Token::Identifier, "halt"),
        (Token::RBracket, "]"),
        (Token::Period, "."),
        (Token::Identifier, "y"),
        (Token::Assignment, ":="),
        (Token::Self_, "self"),
        (Token::Identifier, "size"),
        (Token::Plus, "+"),
        (Token::Super, "super"),
        (Token::Identifier, "size"),
        (Token::Period, "."),
        (Token::Array, "#($a #a 'a' 1 1.0)"),
        (Token::Identifier, "do"),
        (Token::Colon, ":"),
        (Token::LBracket, "["),
        (Token::Colon, ":"),
        (Token::Identifier, "each"),
        (Token::Pipe, "|"),
        (Token::Identifier, "Transcript"),
        (Token::Identifier, "show"),
        (Token::Colon, ":"),
        (Token::LParen, "("),
        (Token::Identifier, "each"),
        (Token::Identifier, "class"),
        (Token::Identifier, "name"),
        (Token::RParen, ")"),
        (Token::Semicolon, ";"),
        (Token::Identifier, "show"),
        (Token::Colon, ":"),
        (Token::String, "' '"),
        (Token::RBracket, "]"),
        (Token::Period, "."),
        (Token::Caret, "^"),
        (Token::Identifier, "x"),
        (Token::LessThan, "<"),
        (Token::Identifier, "y"),
    ];

    assert_token_seq(&tokens, &expected_sequence);
}

#[test]
fn test_extra_code() {
    let extra_code = r#"
        < > <= >= == :=
        42 123.45 1.2e3 16rA000 2r1010
        'he''llo' #'symbol' $x
        #($a #a 'b' 2 2.0) #[1 2 3]
        "This is a comment"
        "#;

    let mut lexer = Lexer::new(extra_code);
    let tokens: Vec<(Token, String)> = collect_tokens(&mut lexer);

    let expected = vec![
        (Token::LessThan, "<"),
        (Token::GreaterThan, ">"),
        (Token::LessThanEqual, "<="),
        (Token::GreaterThanEqual, ">="),
        (Token::DoubleEquals, "=="),
        (Token::Assignment, ":="),
        (Token::Integer, "42"),
        (Token::Float, "123.45"),
        (Token::Float, "1.2e3"),
        (Token::RadixNumber, "16rA000"),
        (Token::RadixNumber, "2r1010"),
        (Token::String, "'he''llo'"),
        (Token::Symbol, "#'symbol'"),
        (Token::Character, "$x"),
        (Token::Array, "#($a #a 'b' 2 2.0)"),
        (Token::ByteArray, "#[1 2 3]"),
        (Token::Comment, "\"This is a comment\""),
    ];

    assert_token_seq(&tokens, &expected);
}

#[test]
fn string_escaping_single_token() {
    let mut lexer = Lexer::new("'it''s fine'");
    let (tok, span) = lexer.next_token().expect("one token expected");
    assert_eq!(tok, Token::String);
    assert_eq!(span, (0, 12));
    assert_eq!(lexer.slice(), "'it''s fine'");
    assert!(lexer.next_token().is_none());
}

#[test]
fn decimal_is_one_integer_token() {
    let mut lexer = Lexer::new("1234567890");
    let (tok, span) = lexer.next_token().expect("one token expected");
    assert_eq!(tok, Token::Integer);
    assert_eq!(span, (0, 10));
    assert_eq!(lexer.slice(), "1234567890");
    assert!(lexer.next_token().is_none());
}

#[test]
fn unterminated_forms_are_errors() {
    let mut lexer = Lexer::new("'abc");
    let (tok, span) = lexer.next_token().expect("one token expected");
    assert_eq!(tok, Token::Error);
    assert_eq!(span, (0, 1));

    let mut lexer = Lexer::new("$");
    let (tok, _) = lexer.next_token().expect("one token expected");
    assert_eq!(tok, Token::Error);

    let mut lexer = Lexer::new("@");
    let (tok, _) = lexer.next_token().expect("one token expected");
    assert_eq!(tok, Token::Error);
}

#[test]
fn float_forms() {
    let mut lexer = Lexer::new("1e3 1.e3 1.5e+2 12e");
    let mut kinds = Vec::new();
    while let Some((tok, _)) = lexer.next_token() {
        if !matches!(tok, Token::Whitespace) {
            kinds.push((tok, lexer.slice()));
        }
    }
    let expected = vec![
        (Token::Float, "1e3".to_string()),
        (Token::Integer, "1".to_string()),
        (Token::Period, ".".to_string()),
        (Token::Identifier, "e3".to_string()),
        (Token::Float, "1.5e+2".to_string()),
        (Token::Integer, "12".to_string()),
        (Token::Identifier, "e".to_string()),
    ];
    assert_eq!(kinds, expected);
}

#[test]
fn quote_doubling_edges() {
    let mut lexer = Lexer::new("''");
    assert_eq!(lexer.next_token(), Some((Token::String, (0, 2))));
    assert!(lexer.next_token().is_none());

    let mut lexer = Lexer::new("'''");
    assert_eq!(lexer.next_token(), Some((Token::String, (0, 2))));
    assert_eq!(lexer.next_token(), Some((Token::Error, (2, 3))));
    assert!(lexer.next_token().is_none());

    let mut lexer = Lexer::new("'a' 'b'");
    assert_eq!(lexer.next_token(), Some((Token::String, (0, 3))));
    assert_eq!(lexer.slice(), "'a'");
    assert_eq!(lexer.next_token(), Some((Token::Whitespace, (3, 4))));
    assert_eq!(lexer.next_token(), Some((Token::String, (4, 7))));
    assert_eq!(lexer.slice(), "'b'");
}

#[test]
fn array_stops_at_first_close() {
    let mut lexer = Lexer::new("#(a)b)");
    assert_eq!(lexer.next_token(), Some((Token::Array, (0, 4))));
    assert_eq!(lexer.slice(), "#(a)");
    assert_eq!(lexer.next_token(), Some((Token::Identifier, (4, 5))));
    assert_eq!(lexer.next_token(), Some((Token::RParen, (5, 6))));
    assert!(lexer.next_token().is_none());
}

#[test]
fn keyword_priority_over_identifier() {
    let mut lexer = Lexer::new("self selfx #true");
    assert_eq!(lexer.next_token(), Some((Token::Self_, (0, 4))));
    lexer.next_token();
    assert_eq!(lexer.next_token(), Some((Token::Identifier, (5, 10))));
    lexer.next_token();
    assert_eq!(lexer.next_token(), Some((Token::Symbol, (11, 16))));
    assert_eq!(lexer.slice(), "#true");
}

#[test]
fn radix_digits_include_letters_up_to_base_36() {
    let mut lexer = Lexer::new("36rZZ");
    assert_eq!(lexer.next_token(), Some((Token::RadixNumber, (0, 5))));
    assert_eq!(lexer.slice(), "36rZZ");
    assert!(lexer.next_token().is_none());

    let mut lexer = Lexer::new("16rGG");
    assert_eq!(lexer.next_token(), Some((Token::RadixNumber, (0, 5))));
    assert!(lexer.next_token().is_none());
}
