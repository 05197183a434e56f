use shapelang::words::{
    extract_significant_words, mark_decimals, move_condition_to_start, preprocess_converted,
    put_condition_first, remove_first_chars, restore_dots, split_chars, text_lines, trim_chars,
};

fn chars(s: &str) -> Vec<char> {
    s.chars().collect()
}

fn text(v: &[char]) -> String {
    v.iter().collect()
}

#[test]
fn lemmas_come_from_the_third_column() {
    let answer = "# sent_id = 1\n1\tДовжина\tдовжина\tNOUN\n2\tпрямокутника\tпрямокутник\tNOUN\n\n";
    assert_eq!(extract_significant_words(Some(answer)), vec!["довжина", "прямокутник"]);
}

#[test]
fn no_answer_text_gives_no_words() {
    assert!(extract_significant_words(None).is_empty());
    assert!(extract_significant_words(Some("")).is_empty());
    assert!(extract_significant_words(Some("#\ta\tb\tc\n")).is_empty());
    assert!(extract_significant_words(Some("a\tb\n")).is_empty());
}

#[test]
fn carriage_returns_end_lines_only_before_a_newline() {
    assert_eq!(extract_significant_words(Some("a\tb\tc\r\n")), vec!["c"]);
    assert_eq!(extract_significant_words(Some("a\tb\tc\r")), vec!["c\r"]);
}

#[test]
fn lines_and_splits() {
    let ls: Vec<String> = text_lines(&chars("x\r\ny\n\nz")).iter().map(|l| text(l)).collect();
    assert_eq!(ls, vec!["x", "y", "", "z"]);
    let ls: Vec<String> = text_lines(&chars("x\n")).iter().map(|l| text(l)).collect();
    assert_eq!(ls, vec!["x"]);
    assert!(text_lines(&chars("")).is_empty());
    let ps: Vec<String> = split_chars(&chars("a,,b,"), ',').iter().map(|p| text(p)).collect();
    assert_eq!(ps, vec!["a", "", "b", ""]);
}

#[test]
fn trimming_and_removing() {
    assert_eq!(text(&trim_chars(&chars("  a b \n"))), "a b");
    assert_eq!(text(&trim_chars(&chars(" \t "))), "");
    assert_eq!(text(&remove_first_chars(&chars("abcabc"), &chars("bc"))), "aabc");
    assert_eq!(text(&remove_first_chars(&chars("abc"), &chars("x"))), "abc");
    assert_eq!(text(&remove_first_chars(&chars("abc"), &chars(""))), "abc");
}

#[test]
fn condition_goes_first() {
    let t = "знайти площу, якщо сторона 5.";
    assert_eq!(put_condition_first(t, Some("якщо сторона 5.")), "якщо сторона 5., знайти площу,");
    assert_eq!(put_condition_first(t, None), t);
    assert_eq!(move_condition_to_start(t).unwrap(), "якщо сторона 5., знайти площу,");
    assert_eq!(move_condition_to_start("знайти площу").unwrap(), "знайти площу");
}

#[test]
fn decimals_are_marked_and_restored() {
    assert_eq!(mark_decimals("2.5 см і 10.75").unwrap(), "2_5 см і 10_75");
    assert_eq!(mark_decimals("кінець.").unwrap(), "кінець.");
    let restored = restore_dots(vec!["2_5".to_string(), "abc".to_string(), "1_0_3".to_string()]).unwrap();
    assert_eq!(restored, vec!["2.5", "abc", "1.0_3"]);
}

#[test]
fn restoring_undoes_marking_for_a_decimal() {
    let marked = mark_decimals("3.14").unwrap();
    assert_eq!(restore_dots(vec![marked]).unwrap(), vec!["3.14"]);
}

#[test]
fn converted_text_is_finished() {
    assert_eq!(
        preprocess_converted("знайти площу якщо ширина 2.5 см.").unwrap(),
        "якщо ширина 2_5 см., знайти площу"
    );
}
