use shapelang::token_lexer::{
    escape_special_chars, generate_regex, get_char_literal_token, get_complex_token,
    get_literal_token, get_numeric_token, get_operator_or_numeric_token, get_string_literal_token,
    get_string_of_char, lex, match_token_type, word_pattern_text, LexError, Token, TokenPatterns,
    TokenType,
};

fn kinds(tokens: &[Token]) -> Vec<(TokenType, String)> {
    tokens.iter().map(|t| (t.token_type, t.content.clone())).collect()
}

fn chars(s: &str) -> Vec<char> {
    s.chars().collect()
}

#[test]
fn escapes_every_special_character() {
    assert_eq!(escape_special_chars("a.b*c"), "a\\.b\\*c");
    assert_eq!(escape_special_chars(r"\^$.*+?()[]{}|"), r"\\\^\$\.\*\+\?\(\)\[\]\{\}\|");
    assert_eq!(escape_special_chars("abc"), "abc");
    assert_eq!(escape_special_chars(""), "");
}

#[test]
fn word_pattern_anchors_the_alternatives() {
    assert_eq!(word_pattern_text(&["+", "-"]), "^(\\+|-)$");
    assert_eq!(word_pattern_text(&["if"]), "^(if)$");
    assert_eq!(word_pattern_text(&[]), "^()$");
}

#[test]
fn generated_regex_matches_only_whole_words() {
    assert!(generate_regex(&["<=", "=="]).is_ok());
    assert!(generate_regex(&["a.b", "("]).is_ok());
    let pats = TokenPatterns::new().unwrap();
    // The comparison pattern matches whole symbols only.
    assert_eq!(match_token_type("<=", &pats), TokenType::Comparison);
    assert_eq!(match_token_type("<==", &pats), TokenType::Invalid);
}

#[test]
fn string_of_char_reads_one_character() {
    let s = "aбc".to_string();
    assert_eq!(get_string_of_char(&1, &s).unwrap(), "б");
    assert_eq!(get_string_of_char(&0, &s).unwrap(), "a");
    assert!(matches!(get_string_of_char(&3, &s), Err(LexError::IndexOutOfBounds)));
}

#[test]
fn token_type_names() {
    assert_eq!(TokenType::KeyWord.name(), "KeyWord");
    assert_eq!(TokenType::StringLiteral.name(), "StringLiteral");
    assert_eq!(TokenType::Invalid.name(), "Invalid");
}

#[test]
fn lexes_a_declaration() {
    let (tokens, ids) = lex("let a = 5;").unwrap();
    assert_eq!(
        kinds(&tokens),
        vec![
            (TokenType::KeyWord, "let".to_string()),
            (TokenType::Identifier, "a".to_string()),
            (TokenType::Assignment, "=".to_string()),
            (TokenType::Integer, "5".to_string()),
            (TokenType::Delimiter, ";".to_string()),
        ]
    );
    assert_eq!(kinds(&ids), vec![(TokenType::Identifier, "a".to_string())]);
}

#[test]
fn signed_numbers_and_compound_assignment() {
    let (tokens, _) = lex("a+=-3.5").unwrap();
    assert_eq!(
        kinds(&tokens),
        vec![
            (TokenType::Identifier, "a".to_string()),
            (TokenType::Assignment, "+=".to_string()),
            (TokenType::Double, "-3.5".to_string()),
        ]
    );
    // After a digit, a minus is an operator.
    let (tokens, _) = lex("1-2").unwrap();
    assert_eq!(
        kinds(&tokens),
        vec![
            (TokenType::Integer, "1".to_string()),
            (TokenType::Arithmetic, "-".to_string()),
            (TokenType::Integer, "2".to_string()),
        ]
    );
}

#[test]
fn two_character_symbols() {
    let (tokens, ids) = lex("s<=h && k::a").unwrap();
    assert_eq!(
        kinds(&tokens),
        vec![
            (TokenType::Identifier, "s".to_string()),
            (TokenType::Comparison, "<=".to_string()),
            (TokenType::Identifier, "h".to_string()),
            (TokenType::Logical, "&&".to_string()),
            (TokenType::Identifier, "k".to_string()),
            (TokenType::Delimiter, "::".to_string()),
            (TokenType::Identifier, "a".to_string()),
        ]
    );
    assert_eq!(ids.len(), 4);
}

#[test]
fn literals_and_words() {
    let (tokens, _) = lex("\"hi\" 'c' true fn i32 sqrt x").unwrap();
    assert_eq!(
        kinds(&tokens),
        vec![
            (TokenType::StringLiteral, "\"hi\"".to_string()),
            (TokenType::CharLiteral, "'c'".to_string()),
            (TokenType::Boolean, "true".to_string()),
            (TokenType::KeyWord, "fn".to_string()),
            (TokenType::DataType, "i32".to_string()),
            (TokenType::Function, "sqrt".to_string()),
            (TokenType::Invalid, "x".to_string()),
        ]
    );
}

#[test]
fn unterminated_string_is_invalid() {
    let (tokens, _) = lex("\"ab").unwrap();
    assert_eq!(kinds(&tokens), vec![(TokenType::Invalid, "\"ab".to_string())]);
    let (tokens, _) = lex("'ab").unwrap();
    assert_eq!(
        kinds(&tokens),
        vec![(TokenType::Delimiter, "'".to_string()), (TokenType::Invalid, "ab".to_string())]
    );
}

#[test]
fn identifiers_are_collected_once() {
    let (tokens, ids) = lex("a = a + shva; a").unwrap();
    assert_eq!(tokens.len(), 7);
    assert_eq!(
        kinds(&ids),
        vec![(TokenType::Identifier, "a".to_string()), (TokenType::Identifier, "shva".to_string())]
    );
}

#[test]
fn token_text_is_the_text_read() {
    let text = "let s=\"q w\";";
    let (tokens, _) = lex(text).unwrap();
    let joined: String = tokens.iter().map(|t| t.content.clone()).collect();
    assert_eq!(joined, "lets=\"q w\";");
}

#[test]
fn empty_and_blank_texts_have_no_tokens() {
    let (tokens, ids) = lex("").unwrap();
    assert!(tokens.is_empty() && ids.is_empty());
    let (tokens, _) = lex(" \t ").unwrap();
    assert!(tokens.is_empty());
}

#[test]
fn operator_at_the_end_is_invalid() {
    let (tokens, _) = lex("1+").unwrap();
    assert_eq!(
        kinds(&tokens),
        vec![(TokenType::Integer, "1".to_string()), (TokenType::Invalid, "+".to_string())]
    );
}

#[test]
fn single_readers() {
    let pats = TokenPatterns::new().unwrap();
    let c = chars("\"x\"'y'ash 12.5");
    let mut p = 0usize;
    let t = get_string_literal_token(&mut p, &c);
    assert_eq!((t.token_type, t.content.as_str(), p), (TokenType::StringLiteral, "\"x\"", 3));
    let t = get_char_literal_token(&mut p, &c);
    assert_eq!((t.token_type, t.content.as_str(), p), (TokenType::CharLiteral, "'y'", 6));
    let t = get_literal_token(&mut p, &c, &pats);
    assert_eq!((t.token_type, t.content.as_str(), p), (TokenType::Identifier, "ash", 9));
    p = 10;
    let t = get_numeric_token(&mut p, &c, &pats);
    assert_eq!((t.token_type, t.content.as_str(), p), (TokenType::Double, "12.5", 14));

    let c = chars("*=!=");
    let mut p = 0usize;
    let t = get_operator_or_numeric_token(&mut p, &c, &pats);
    assert_eq!((t.token_type, t.content.as_str(), p), (TokenType::Assignment, "*=", 2));
    let t = get_complex_token(&mut p, &c, &pats);
    assert_eq!((t.token_type, t.content.as_str(), p), (TokenType::Comparison, "!=", 4));

    // A symbol that is not arithmetic is not read.
    let c = chars("?");
    let mut p = 0usize;
    let t = get_operator_or_numeric_token(&mut p, &c, &pats);
    assert_eq!((t.token_type, t.content.as_str(), p), (TokenType::Invalid, "?", 0));
}

#[test]
fn symbol_types() {
    let pats = TokenPatterns::new().unwrap();
    assert_eq!(match_token_type("<", &pats), TokenType::Comparison);
    assert_eq!(match_token_type("{", &pats), TokenType::Delimiter);
    assert_eq!(match_token_type("||", &pats), TokenType::Logical);
    assert_eq!(match_token_type("%=", &pats), TokenType::Assignment);
    assert_eq!(match_token_type("@", &pats), TokenType::Invalid);
}
