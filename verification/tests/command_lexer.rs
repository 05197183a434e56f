use shapelang::command_lexer::{ExprToken, ExpressionEvaluator, Lexer, ProcessedWord, TokenizeError, NUMBER_PATTERN};
use shapelang::pattern::compile;

fn texts(words: &[ProcessedWord]) -> Vec<String> {
    words
        .iter()
        .map(|w| match w {
            ProcessedWord::Text(t) => format!("T:{}", t),
            ProcessedWord::Measurement { number, units } => format!("M:{}:{}", number, units.join("|")),
            ProcessedWord::Expression { fallback, .. } => format!("E:{}", fallback),
        })
        .collect()
}

#[test]
fn splits_at_delimiters_and_keeps_coordinate_brackets() {
    let l = Lexer::new("a (1, 2) b;c");
    assert_eq!(l.split_with_delimiters_regex(), vec!["a", "(", "1", ",", "2", ")", "b", ";", "c"]);
}

#[test]
fn expressions_stay_one_word() {
    let l = Lexer::new("на (2+3) одиниць");
    assert_eq!(l.split_with_delimiters_regex(), vec!["на", "(2+3)", "одиниць"]);
}

#[test]
fn processes_names_measurements_and_words() {
    let mut l = Lexer::new("ЗДВИНУТИ ABCD на 20 мм");
    let words = l.process().unwrap();
    assert_eq!(texts(&words), vec!["T:здвинути", "T:ABCD", "T:на", "M:20:мм"]);
}

#[test]
fn unit_words_name_every_matching_unit() {
    let mut l = Lexer::new("5 метрів 7 X");
    let words = l.process().unwrap();
    assert_eq!(texts(&words), vec!["M:5:м|метр", "M:7:", "T:X"]);
}

#[test]
fn arithmetic_becomes_an_expression() {
    let mut l = Lexer::new("(2+3) (")
    ;
    let words = l.process().unwrap();
    assert_eq!(texts(&words), vec!["E:(2+3)", "T:("]);
    match &words[0] {
        ProcessedWord::Expression { tokens, .. } => assert_eq!(tokens.len(), 5),
        other => panic!("{:?}", other),
    }
}

#[test]
fn unit_prefixes() {
    let l = Lexer::new("");
    assert!(l.has_unit(Some("метрів")));
    assert!(l.has_unit(Some("cm")));
    assert!(!l.has_unit(Some("кг")));
    assert!(!l.has_unit(None));
}

#[test]
fn measurements_need_numbers() {
    let l = Lexer::new("");
    let p = compile(NUMBER_PATTERN).unwrap();
    match l.process_measurement(&p, "12.5", Some("см")) {
        Some(ProcessedWord::Measurement { number, units }) => {
            assert_eq!(number, "12.5");
            assert_eq!(units, vec!["см"]);
        },
        other => panic!("{:?}", other),
    }
    assert!(l.process_measurement(&p, "12a", None).is_none());
    match l.process_measurement(&p, "-3", None) {
        Some(ProcessedWord::Measurement { units, .. }) => assert!(units.is_empty()),
        other => panic!("{:?}", other),
    }
}

#[test]
fn other_words() {
    let l = Lexer::new("");
    assert!(matches!(l.try_parse_expression("Слово"), ProcessedWord::Text(t) if t == "слово"));
    assert!(matches!(l.try_parse_expression(")"), ProcessedWord::Text(t) if t == ")"));
    assert!(matches!(l.try_parse_expression("2*3"), ProcessedWord::Expression { .. }));
    assert!(matches!(l.try_parse_expression("a-b"), ProcessedWord::Text(t) if t == "a-b"));
}

#[test]
fn tokenizer() {
    let mut e = ExpressionEvaluator::new("1 + 2");
    let ts = e.tokenize().unwrap();
    assert_eq!(ts.len(), 3);
    assert!(matches!(&ts[0], ExprToken::Number { negative: false, digits } if digits == "1"));
    assert!(matches!(ts[1], ExprToken::Plus));
    let mut e = ExpressionEvaluator::new("-3*(2)");
    let ts = e.tokenize().unwrap();
    assert!(matches!(&ts[0], ExprToken::Number { negative: true, digits } if digits == "3"));
    assert!(matches!(ts[1], ExprToken::Multiply));
    assert!(matches!(ts[2], ExprToken::LeftParen));
    assert!(matches!(ts[4], ExprToken::RightParen));
    assert_eq!(ExpressionEvaluator::new("2a").tokenize().unwrap_err(), TokenizeError::UnexpectedChar('a'));
    assert_eq!(ExpressionEvaluator::new("1..2").tokenize().unwrap_err(), TokenizeError::BadNumber);
}

#[test]
fn split_words_are_never_empty() {
    for text in ["  a  b ", "(1, 2)", ";;", " ( ", "x((1+2)*3)y", ""] {
        let words = Lexer::new(text).split_with_delimiters_regex();
        assert!(words.iter().all(|w| !w.is_empty()), "{:?}", words);
    }
}
