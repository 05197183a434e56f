use shapelang::numeral::is_float_text_exec;

#[test]
fn float_texts_as_rust_parses_them() {
    for t in ["1", "-2", "+3.5", "1.", ".5", "1e5", "2.5E-3", "inf", "-Infinity", "NaN", "007"] {
        assert!(is_float_text_exec(t), "{}", t);
        assert!(t.parse::<f64>().is_ok(), "{}", t);
    }
    for t in ["", ".", "e5", "1e", "1.2.3", "+-1", "abc", "1 ", "2_5", "--1", "infx"] {
        assert!(!is_float_text_exec(t), "{}", t);
        assert!(t.parse::<f64>().is_err(), "{}", t);
    }
}
