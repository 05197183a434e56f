//! A lexer for a small Rust-like source language.  The text is read one
//! character at a time; each class of token is recognised by a regular
//! expression, and the identifiers met are collected once each.

use vstd::prelude::*;

use crate::pattern::{compile, is_match, regex_compiles, regex_is_match, Pattern, PatternError};
use crate::text::push_char;

verus! {

/// The kinds of token.
#[derive(PartialEq, Eq, Structural, Clone, Copy, Debug)]
pub enum TokenType {
    DataType,
    Integer,
    Double,
    Identifier,
    Arithmetic,
    Function,
    KeyWord,
    Delimiter,
    Comparison,
    Logical,
    Assignment,
    Boolean,
    StringLiteral,
    CharLiteral,
    Invalid,
}

/// The name a token type is printed with.
pub open spec fn type_label(t: TokenType) -> Seq<char> {
    match t {
        TokenType::DataType => "DataType"@,
        TokenType::Integer => "Integer"@,
        TokenType::Double => "Double"@,
        TokenType::Identifier => "Identifier"@,
        TokenType::Arithmetic => "Arithmetic"@,
        TokenType::Function => "Function"@,
        TokenType::KeyWord => "KeyWord"@,
        TokenType::Delimiter => "Delimiter"@,
        TokenType::Comparison => "Comparison"@,
        TokenType::Logical => "Logical"@,
        TokenType::Assignment => "Assignment"@,
        TokenType::Boolean => "Boolean"@,
        TokenType::StringLiteral => "StringLiteral"@,
        TokenType::CharLiteral => "CharLiteral"@,
        TokenType::Invalid => "Invalid"@,
    }
}

impl TokenType {
    /// The name the type is printed with.
    pub fn name(&self) -> (s: String)
        ensures
            s@ == type_label(*self),
    {
        let n = match self {
            TokenType::DataType => "DataType",
            TokenType::Integer => "Integer",
            TokenType::Double => "Double",
            TokenType::Identifier => "Identifier",
            TokenType::Arithmetic => "Arithmetic",
            TokenType::Function => "Function",
            TokenType::KeyWord => "KeyWord",
            TokenType::Delimiter => "Delimiter",
            TokenType::Comparison => "Comparison",
            TokenType::Logical => "Logical",
            TokenType::Assignment => "Assignment",
            TokenType::Boolean => "Boolean",
            TokenType::StringLiteral => "StringLiteral",
            TokenType::CharLiteral => "CharLiteral",
            TokenType::Invalid => "Invalid",
        };
        n.to_owned()
    }
}

/// A token: its type and the text it was read from.
#[derive(Clone, Debug)]
pub struct Token {
    pub token_type: TokenType,
    pub content: String,
}

impl View for Token {
    type V = (TokenType, Seq<char>);

    open spec fn view(&self) -> (TokenType, Seq<char>) {
        (self.token_type, self.content@)
    }
}

/// Why lexing stopped.
#[derive(Clone, Debug)]
pub enum LexError {
    /// A position past the end of the text was read.
    IndexOutOfBounds,
    /// `regex` refused one of the token patterns.
    Pattern(PatternError),
    /// A word began at this position, but no character of it belongs to a
    /// word, so reading could not go on.
    Stalled(usize),
}

// ---------------------------------------------------------------------
// The patterns.

/// The characters that `escape_special_chars` puts a backslash before.
pub open spec fn is_special(c: char) -> bool {
    c == '\\' || c == '^' || c == '$' || c == '.' || c == '*' || c == '+' || c == '?' || c == '('
        || c == ')' || c == '[' || c == ']' || c == '{' || c == '}' || c == '|'
}

/// The text with a backslash before each special character.
pub open spec fn escaped(s: Seq<char>) -> Seq<char>
    decreases s.len(),
{
    if s.len() == 0 {
        Seq::empty()
    } else {
        let c = s.last();
        escaped(s.drop_last()) + if is_special(c) {
            seq!['\\', c]
        } else {
            seq![c]
        }
    }
}

/// The escaped words, separated by `|`.
pub open spec fn alternatives(ws: Seq<Seq<char>>) -> Seq<char>
    decreases ws.len(),
{
    if ws.len() == 0 {
        Seq::empty()
    } else if ws.len() == 1 {
        escaped(ws[0])
    } else {
        alternatives(ws.drop_last()) + seq!['|'] + escaped(ws.last())
    }
}

/// The pattern that matches exactly the given words.
pub open spec fn word_pattern(ws: Seq<Seq<char>>) -> Seq<char> {
    "^("@ + alternatives(ws) + ")$"@
}

pub open spec fn key_words() -> Seq<Seq<char>> {
    seq!["if"@, "else"@, "let"@, "for"@, "loop"@, "while"@, "mut"@, "enum"@, "struct"@, "fn"@, "impl"@,
        "use"@, "macro"@]
}

pub open spec fn functions() -> Seq<Seq<char>> {
    seq!["sin"@, "cos"@, "tan"@, "ctan"@, "sqrt"@, "new"@]
}

pub open spec fn comparison_symbols() -> Seq<Seq<char>> {
    seq!["<"@, "<="@, ">="@, ">"@, "=="@, "!="@]
}

pub open spec fn arithmetic_symbols() -> Seq<Seq<char>> {
    seq!["-"@, "+"@, "*"@, "/"@, "%"@]
}

pub open spec fn delimiter_symbols() -> Seq<Seq<char>> {
    seq![";"@, ":"@, "::"@, ","@, "["@, "]"@, "("@, ")"@, "{"@, "}"@, "?"@, "'"@, "\""@, "&"@]
}

pub open spec fn logical_symbols() -> Seq<Seq<char>> {
    seq!["&&"@, "||"@, "!"@]
}

pub open spec fn assignment_symbols() -> Seq<Seq<char>> {
    seq!["="@, "/="@, "*="@, "+="@, "-="@, "%="@]
}

pub open spec fn data_types() -> Seq<Seq<char>> {
    seq!["char"@, "String"@, "str"@, "bool"@, "f32"@, "f64"@, "u8"@, "u16"@, "u32"@, "u64"@, "u128"@,
        "usize"@, "i8"@, "i16"@, "i32"@, "i64"@, "i128"@, "isize"@]
}

/// The whole of an identifier: the letters of a surname, digits and `_`.
pub const IDENTIFIER_SYMBOLS: &'static str = "^[shvachkaSHVACHKAшвачкаШВАЧКА0-9_]+$";

pub const WHITESPACE_PATTERN: &'static str = "\\s";

pub const NUMBER_PATTERN: &'static str = "[0-9]+";

/// A letter that can begin a word.
pub const LITERAL_START_PATTERN: &'static str = "[a-zA-Zа-яА-ЯіІїЇєЄґҐ]+";

/// A character that can continue a word.
pub const LITERAL_PATTERN: &'static str = "[a-zA-Zа-яА-ЯіІїЇєЄґҐ0-9_]+";

/// The texts of the patterns the lexer compiles, in the order it compiles
/// them.
pub open spec fn pattern_texts() -> Seq<Seq<char>> {
    seq![
        IDENTIFIER_SYMBOLS@,
        WHITESPACE_PATTERN@,
        NUMBER_PATTERN@,
        LITERAL_START_PATTERN@,
        LITERAL_PATTERN@,
        word_pattern(comparison_symbols()),
        word_pattern(assignment_symbols()),
        word_pattern(arithmetic_symbols()),
        word_pattern(delimiter_symbols()),
        word_pattern(logical_symbols()),
        word_pattern(functions()),
        word_pattern(key_words()),
        word_pattern(data_types()),
    ]
}

// ---------------------------------------------------------------------
// Reading tokens.

pub open spec fn matches(pattern: Seq<char>, s: Seq<char>) -> bool {
    regex_is_match(pattern, s)
}

pub open spec fn at(c: Seq<char>, p: int) -> Seq<char> {
    seq![c[p]]
}

/// Where the run of characters from `p` that match `pattern` (each taken
/// alone) ends; with `dot`, a `.` belongs to the run too.
pub open spec fn run_end(c: Seq<char>, p: int, pattern: Seq<char>, dot: bool) -> int
    decreases c.len() - p,
{
    if p < 0 || p >= c.len() {
        p
    } else if matches(pattern, at(c, p)) || (dot && c[p] == '.') {
        run_end(c, p + 1, pattern, dot)
    } else {
        p
    }
}

/// The first `"` at or after `p`, or the end of the text.
pub open spec fn quote_end(c: Seq<char>, p: int) -> int
    decreases c.len() - p,
{
    if p < 0 || p >= c.len() {
        p
    } else if c[p] == '"' {
        p
    } else {
        quote_end(c, p + 1)
    }
}

/// A token read from `c[p..q]`, and the position `q` after it.
pub type Read = ((TokenType, Seq<char>), int);

/// The type `match_token_type` gives to a symbol.
pub open spec fn symbol_type(s: Seq<char>) -> TokenType {
    if matches(word_pattern(comparison_symbols()), s) {
        TokenType::Comparison
    } else if matches(word_pattern(delimiter_symbols()), s) {
        TokenType::Delimiter
    } else if matches(word_pattern(logical_symbols()), s) {
        TokenType::Logical
    } else if matches(word_pattern(assignment_symbols()), s) {
        TokenType::Assignment
    } else {
        TokenType::Invalid
    }
}

/// A string literal from the `"` at `p` to the next `"`; unterminated, it
/// runs to the end and is invalid.
pub open spec fn string_literal(c: Seq<char>, p: int) -> Read {
    let q = quote_end(c, p + 1);
    if q < c.len() {
        ((TokenType::StringLiteral, c.subrange(p, q + 1)), q + 1)
    } else {
        ((TokenType::Invalid, c.subrange(p, c.len() as int)), c.len() as int)
    }
}

/// A character literal: `'`, one character other than `'`, `'`; otherwise
/// the `'` alone is a delimiter.
pub open spec fn char_literal(c: Seq<char>, p: int) -> Read {
    if p + 2 < c.len() && c[p + 1] != '\'' && c[p + 2] == '\'' {
        ((TokenType::CharLiteral, c.subrange(p, p + 3)), p + 3)
    } else {
        ((TokenType::Delimiter, seq!['\'']), p + 1)
    }
}

/// The type of a whole word.
pub open spec fn word_type(w: Seq<char>) -> TokenType {
    if w == "true"@ || w == "false"@ {
        TokenType::Boolean
    } else if matches(word_pattern(key_words()), w) {
        TokenType::KeyWord
    } else if matches(word_pattern(data_types()), w) {
        TokenType::DataType
    } else if matches(word_pattern(functions()), w) {
        TokenType::Function
    } else if matches(IDENTIFIER_SYMBOLS@, w) {
        TokenType::Identifier
    } else {
        TokenType::Invalid
    }
}

/// The word from `p`, and its type.
pub open spec fn literal(c: Seq<char>, p: int) -> Read {
    let q = run_end(c, p, LITERAL_PATTERN@, false);
    ((word_type(c.subrange(p, q)), c.subrange(p, q)), q)
}

/// A number from `p`: digits and dots, a double when it holds a dot.
pub open spec fn number(c: Seq<char>, from: int, p: int) -> Read {
    let q = run_end(c, p, NUMBER_PATTERN@, true);
    let t = if c.subrange(p, q).contains('.') {
        TokenType::Double
    } else {
        TokenType::Integer
    };
    ((t, c.subrange(from, q)), q)
}

/// An arithmetic symbol at `p`: a signed number when `+` or `-` comes
/// right before a digit and right after a non-digit, an assignment when
/// the two symbols form one, else the symbol alone.
pub open spec fn operator(c: Seq<char>, p: int) -> Read {
    let prev = if p > 0 { at(c, p - 1) } else { Seq::empty() };
    let q = p + 1;
    if q < c.len() {
        if (c[p] == '+' || c[p] == '-') && matches(NUMBER_PATTERN@, at(c, q)) && !matches(
            NUMBER_PATTERN@,
            prev,
        ) {
            number(c, p, q)
        } else if matches(word_pattern(assignment_symbols()), seq![c[p], c[q]]) {
            ((TokenType::Assignment, seq![c[p], c[q]]), q + 1)
        } else {
            ((TokenType::Arithmetic, at(c, p)), q)
        }
    } else {
        ((TokenType::Invalid, at(c, p)), q)
    }
}

/// Any other symbol: two characters when they form a comparison,
/// delimiter or logical symbol, else one.
pub open spec fn complex(c: Seq<char>, p: int) -> Read {
    let cur = at(c, p);
    if p + 1 < c.len() && ({
        let two = seq![c[p], c[p + 1]];
        matches(word_pattern(comparison_symbols()), two) || matches(word_pattern(delimiter_symbols()), two)
            || matches(word_pattern(logical_symbols()), two)
    }) {
        ((symbol_type(seq![c[p], c[p + 1]]), seq![c[p], c[p + 1]]), p + 2)
    } else if matches(word_pattern(comparison_symbols()), cur) || matches(
        word_pattern(delimiter_symbols()),
        cur,
    ) || matches(word_pattern(assignment_symbols()), cur) {
        ((symbol_type(cur), cur), p + 1)
    } else {
        ((TokenType::Invalid, cur), p + 1)
    }
}

/// The token that starts at `p`, which is not white space.
pub open spec fn next_token(c: Seq<char>, p: int) -> Read {
    let cur = at(c, p);
    if c[p] == '"' {
        string_literal(c, p)
    } else if c[p] == '\'' {
        char_literal(c, p)
    } else if matches(LITERAL_START_PATTERN@, cur) {
        literal(c, p)
    } else if matches(word_pattern(arithmetic_symbols()), cur) {
        operator(c, p)
    } else if matches(NUMBER_PATTERN@, cur) {
        number(c, p, p)
    } else {
        complex(c, p)
    }
}

/// The tokens of `c` from position `p`, or the position where reading
/// could not go on.
pub open spec fn tokens_from(c: Seq<char>, p: int) -> Result<Seq<(TokenType, Seq<char>)>, int>
    decreases c.len() - p,
{
    if p < 0 || p >= c.len() {
        Ok(Seq::empty())
    } else if matches(WHITESPACE_PATTERN@, at(c, p)) {
        tokens_from(c, p + 1)
    } else {
        let (t, q) = next_token(c, p);
        if p < q <= c.len() {
            match tokens_from(c, q) {
                Ok(rest) => Ok(seq![t] + rest),
                Err(e) => Err(e),
            }
        } else {
            Err(p)
        }
    }
}

/// The identifiers among the tokens, each once, in order of first
/// appearance.
pub open spec fn identifiers(ts: Seq<(TokenType, Seq<char>)>) -> Seq<Seq<char>>
    decreases ts.len(),
{
    if ts.len() == 0 {
        Seq::empty()
    } else {
        let r = identifiers(ts.drop_last());
        let t = ts.last();
        if t.0 == TokenType::Identifier && !r.contains(t.1) {
            r.push(t.1)
        } else {
            r
        }
    }
}

// ---------------------------------------------------------------------
// Building the patterns.

/// The escaped text: a backslash goes before each of `\^$.*+?()[]{}|`.
pub fn escape_special_chars(input: &str) -> (s: String)
    ensures
        s@ == escaped(input@),
{
    let v = crate::text::chars_of(input);
    let mut s = String::new();
    let mut i: usize = 0;
    while i < v.len()
        invariant
            i <= v.len(),
            v@ == input@,
            s@ == escaped(v@.take(i as int)),
        decreases v.len() - i,
    {
        let c = v[i];
        assert(v@.take(i + 1).drop_last() =~= v@.take(i as int));
        if c == '\\' || c == '^' || c == '$' || c == '.' || c == '*' || c == '+' || c == '?' || c == '('
            || c == ')' || c == '[' || c == ']' || c == '{' || c == '}' || c == '|' {
            push_char(&mut s, '\\');
        }
        push_char(&mut s, c);
        assert(s@ == escaped(v@.take(i + 1)));
        i = i + 1;
    }
    assert(v@.take(v.len() as int) =~= v@);
    s
}

/// The text of the pattern that matches exactly the given words:
/// `^(w1|w2|...)$`, each word escaped.
pub fn word_pattern_text(expr: &[&str]) -> (s: String)
    ensures
        s@ == word_pattern(expr@.map_values(|w: &str| w@)),
{
    let ghost ws = expr@.map_values(|w: &str| w@);
    let mut s = "^(".to_owned();
    let mut i: usize = 0;
    while i < expr.len()
        invariant
            i <= expr@.len(),
            ws == expr@.map_values(|w: &str| w@),
            s@ == "^("@ + alternatives(ws.take(i as int)),
        decreases expr@.len() - i,
    {
        let ghost before = s@;
        assert(ws.take(i + 1).drop_last() =~= ws.take(i as int));
        assert(ws.take(i + 1).last() == expr@[i as int]@);
        if i > 0 {
            push_char(&mut s, '|');
        }
        let e = escape_special_chars(expr[i]);
        crate::text::append_str(&mut s, e.as_str());
        if i == 0 {
            assert(ws.take(1)[0] == expr@[0]@);
            assert(s@ =~= "^("@ + alternatives(ws.take(1)));
        } else {
            assert(s@ =~= "^("@ + alternatives(ws.take(i + 1)));
        }
        i = i + 1;
    }
    assert(ws.take(expr@.len() as int) =~= ws);
    crate::text::append_str(&mut s, ")$");
    assert(s@ =~= word_pattern(ws));
    s
}

/// Compiles the pattern that matches exactly the given words.
pub fn generate_regex(expr: &[&str]) -> (r: Result<Pattern, PatternError>)
    ensures
        r is Ok <==> regex_compiles(word_pattern(expr@.map_values(|w: &str| w@))),
        r matches Ok(p) ==> p.source() == word_pattern(expr@.map_values(|w: &str| w@)),
        r matches Err(e) ==> e.pattern@ == word_pattern(expr@.map_values(|w: &str| w@)),
{
    let text = word_pattern_text(expr);
    compile(text.as_str())
}

fn key_words_list() -> (v: Vec<&'static str>)
    ensures
        v@.map_values(|w: &str| w@) == key_words(),
{
    let v = vec!["if", "else", "let", "for", "loop", "while", "mut", "enum", "struct", "fn", "impl", "use", "macro"];
    assert(v@.map_values(|w: &str| w@) =~= key_words());
    v
}

fn functions_list() -> (v: Vec<&'static str>)
    ensures
        v@.map_values(|w: &str| w@) == functions(),
{
    let v = vec!["sin", "cos", "tan", "ctan", "sqrt", "new"];
    assert(v@.map_values(|w: &str| w@) =~= functions());
    v
}

fn comparison_list() -> (v: Vec<&'static str>)
    ensures
        v@.map_values(|w: &str| w@) == comparison_symbols(),
{
    let v = vec!["<", "<=", ">=", ">", "==", "!="];
    assert(v@.map_values(|w: &str| w@) =~= comparison_symbols());
    v
}

fn arithmetic_list() -> (v: Vec<&'static str>)
    ensures
        v@.map_values(|w: &str| w@) == arithmetic_symbols(),
{
    let v = vec!["-", "+", "*", "/", "%"];
    assert(v@.map_values(|w: &str| w@) =~= arithmetic_symbols());
    v
}

fn delimiter_list() -> (v: Vec<&'static str>)
    ensures
        v@.map_values(|w: &str| w@) == delimiter_symbols(),
{
    let v = vec![";", ":", "::", ",", "[", "]", "(", ")", "{", "}", "?", "'", "\"", "&"];
    assert(v@.map_values(|w: &str| w@) =~= delimiter_symbols());
    v
}

fn logical_list() -> (v: Vec<&'static str>)
    ensures
        v@.map_values(|w: &str| w@) == logical_symbols(),
{
    let v = vec!["&&", "||", "!"];
    assert(v@.map_values(|w: &str| w@) =~= logical_symbols());
    v
}

fn assignment_list() -> (v: Vec<&'static str>)
    ensures
        v@.map_values(|w: &str| w@) == assignment_symbols(),
{
    let v = vec!["=", "/=", "*=", "+=", "-=", "%="];
    assert(v@.map_values(|w: &str| w@) =~= assignment_symbols());
    v
}

fn data_types_list() -> (v: Vec<&'static str>)
    ensures
        v@.map_values(|w: &str| w@) == data_types(),
{
    let v = vec!["char", "String", "str", "bool", "f32", "f64", "u8", "u16", "u32", "u64", "u128", "usize",
        "i8", "i16", "i32", "i64", "i128", "isize"];
    assert(v@.map_values(|w: &str| w@) =~= data_types());
    v
}

/// The text of the `k`-th pattern the lexer compiles.
fn pattern_text(k: usize) -> (s: String)
    requires
        k < 13,
    ensures
        s@ == pattern_texts()[k as int],
{
    if k == 0 {
        IDENTIFIER_SYMBOLS.to_owned()
    } else if k == 1 {
        WHITESPACE_PATTERN.to_owned()
    } else if k == 2 {
        NUMBER_PATTERN.to_owned()
    } else if k == 3 {
        LITERAL_START_PATTERN.to_owned()
    } else if k == 4 {
        LITERAL_PATTERN.to_owned()
    } else if k == 5 {
        word_pattern_text(comparison_list().as_slice())
    } else if k == 6 {
        word_pattern_text(assignment_list().as_slice())
    } else if k == 7 {
        word_pattern_text(arithmetic_list().as_slice())
    } else if k == 8 {
        word_pattern_text(delimiter_list().as_slice())
    } else if k == 9 {
        word_pattern_text(logical_list().as_slice())
    } else if k == 10 {
        word_pattern_text(functions_list().as_slice())
    } else if k == 11 {
        word_pattern_text(key_words_list().as_slice())
    } else {
        word_pattern_text(data_types_list().as_slice())
    }
}

/// The first pattern from the `k`-th on that `regex` refuses.
pub open spec fn refused_from(ps: Seq<Seq<char>>, k: int) -> Option<Seq<char>>
    decreases ps.len() - k,
{
    if k < 0 || k >= ps.len() {
        None
    } else if !regex_compiles(ps[k]) {
        Some(ps[k])
    } else {
        refused_from(ps, k + 1)
    }
}

/// The compiled token patterns.
pub struct TokenPatterns {
    identifier: Pattern,
    whitespace: Pattern,
    number: Pattern,
    literal_start: Pattern,
    literal: Pattern,
    comparison: Pattern,
    assignment: Pattern,
    arithmetic: Pattern,
    delimiter: Pattern,
    logical: Pattern,
    function: Pattern,
    key_words: Pattern,
    data_types: Pattern,
}

impl TokenPatterns {
    /// Each pattern was compiled from its text.
    pub closed spec fn wf(&self) -> bool {
        let t = pattern_texts();
        &&& self.identifier.source() == t[0]
        &&& self.whitespace.source() == t[1]
        &&& self.number.source() == t[2]
        &&& self.literal_start.source() == t[3]
        &&& self.literal.source() == t[4]
        &&& self.comparison.source() == t[5]
        &&& self.assignment.source() == t[6]
        &&& self.arithmetic.source() == t[7]
        &&& self.delimiter.source() == t[8]
        &&& self.logical.source() == t[9]
        &&& self.function.source() == t[10]
        &&& self.key_words.source() == t[11]
        &&& self.data_types.source() == t[12]
    }

    /// Compiles the token patterns; fails with the first one `regex`
    /// refuses.
    pub fn new() -> (r: Result<TokenPatterns, PatternError>)
        ensures
            match refused_from(pattern_texts(), 0) {
                Some(bad) => r matches Err(e) && e.pattern@ == bad,
                None => r matches Ok(ps) && ps.wf(),
            },
    {
        let mut compiled: Vec<Pattern> = Vec::new();
        let mut k: usize = 0;
        while k < 13
            invariant
                k <= 13,
                compiled@.len() == k,
                forall|j: int| 0 <= j < k ==> (#[trigger] compiled@[j]).source() == pattern_texts()[j],
                refused_from(pattern_texts(), 0) == refused_from(pattern_texts(), k as int),
            decreases 13 - k,
        {
            let text = pattern_text(k);
            match compile(text.as_str()) {
                Ok(p) => {
                    compiled.push(p);
                },
                Err(e) => {
                    return Err(e);
                },
            }
            k = k + 1;
        }
        let data_types = compiled.pop().unwrap();
        let key_words = compiled.pop().unwrap();
        let function = compiled.pop().unwrap();
        let logical = compiled.pop().unwrap();
        let delimiter = compiled.pop().unwrap();
        let arithmetic = compiled.pop().unwrap();
        let assignment = compiled.pop().unwrap();
        let comparison = compiled.pop().unwrap();
        let literal = compiled.pop().unwrap();
        let literal_start = compiled.pop().unwrap();
        let number = compiled.pop().unwrap();
        let whitespace = compiled.pop().unwrap();
        let identifier = compiled.pop().unwrap();
        Ok(TokenPatterns {
            identifier,
            whitespace,
            number,
            literal_start,
            literal,
            comparison,
            assignment,
            arithmetic,
            delimiter,
            logical,
            function,
            key_words,
            data_types,
        })
    }
}

// ---------------------------------------------------------------------
// Reading tokens.

pub open spec fn token_views(v: Seq<Token>) -> Seq<(TokenType, Seq<char>)> {
    v.map_values(|t: Token| t@)
}

/// The character at `p`, as a string of its own; fails past the end.
pub fn get_string_of_char(p: &usize, input: &String) -> (r: Result<String, LexError>)
    ensures
        *p < input@.len() ==> (r matches Ok(s) && s@ == seq![input@[*p as int]]),
        *p >= input@.len() ==> r matches Err(LexError::IndexOutOfBounds),
{
    let v = crate::text::chars_of(input.as_str());
    if *p < v.len() {
        Ok(single(v[*p]))
    } else {
        Err(LexError::IndexOutOfBounds)
    }
}

fn single(ch: char) -> (s: String)
    ensures
        s@ == seq![ch],
{
    let mut s = String::new();
    push_char(&mut s, ch);
    s
}

fn pair(a: char, b: char) -> (s: String)
    ensures
        s@ == seq![a, b],
{
    let mut s = String::new();
    push_char(&mut s, a);
    push_char(&mut s, b);
    s
}

fn matches_char(p: &Pattern, ch: char) -> (b: bool)
    ensures
        b == matches(p.source(), seq![ch]),
{
    let s = single(ch);
    is_match(p, s.as_str())
}

/// The characters `c[a..b]` as a string.
fn slice_text(c: &Vec<char>, a: usize, b: usize) -> (s: String)
    requires
        a <= b <= c@.len(),
    ensures
        s@ == c@.subrange(a as int, b as int),
{
    let mut s = String::new();
    let mut i: usize = a;
    while i < b
        invariant
            a <= i <= b <= c@.len(),
            s@ == c@.subrange(a as int, i as int),
        decreases b - i,
    {
        push_char(&mut s, c[i]);
        assert(c@.subrange(a as int, i + 1) =~= c@.subrange(a as int, i as int).push(c@[i as int]));
        i = i + 1;
    }
    s
}

/// Where the run from `p` of characters matching `pat` (and `.`, with
/// `dot`) ends.
fn scan(c: &Vec<char>, p: usize, pat: &Pattern, dot: bool) -> (q: usize)
    requires
        p <= c@.len(),
    ensures
        q == run_end(c@, p as int, pat.source(), dot),
        p <= q <= c@.len(),
{
    let mut i: usize = p;
    while i < c.len()
        invariant
            p <= i <= c@.len(),
            run_end(c@, p as int, pat.source(), dot) == run_end(c@, i as int, pat.source(), dot),
        decreases c@.len() - i,
    {
        if !(matches_char(pat, c[i]) || (dot && c[i] == '.')) {
            return i;
        }
        i = i + 1;
    }
    i
}

fn find_quote(c: &Vec<char>, p: usize) -> (q: usize)
    requires
        p <= c@.len(),
    ensures
        q == quote_end(c@, p as int),
        p <= q <= c@.len(),
{
    let mut i: usize = p;
    while i < c.len()
        invariant
            p <= i <= c@.len(),
            quote_end(c@, p as int) == quote_end(c@, i as int),
        decreases c@.len() - i,
    {
        if c[i] == '"' {
            return i;
        }
        i = i + 1;
    }
    i
}

/// Whether `c[a..b]` holds a `.`.
fn has_dot(c: &Vec<char>, a: usize, b: usize) -> (r: bool)
    requires
        a <= b <= c@.len(),
    ensures
        r == c@.subrange(a as int, b as int).contains('.'),
{
    let mut i: usize = a;
    while i < b
        invariant
            a <= i <= b <= c@.len(),
            forall|k: int| a <= k < i ==> c@[k] != '.',
        decreases b - i,
    {
        if c[i] == '.' {
            assert(c@.subrange(a as int, b as int)[i - a] == '.');
            return true;
        }
        i = i + 1;
    }
    assert forall|k: int| 0 <= k < b - a implies c@.subrange(a as int, b as int)[k] != '.' by {
        assert(c@.subrange(a as int, b as int)[k] == c@[a + k]);
    }
    false
}

/// The type `match_token_type` gives: comparison, delimiter, logical or
/// assignment symbol, else invalid.
pub fn match_token_type(symbol: &str, pats: &TokenPatterns) -> (t: TokenType)
    requires
        pats.wf(),
    ensures
        t == symbol_type(symbol@),
{
    if is_match(&pats.comparison, symbol) {
        TokenType::Comparison
    } else if is_match(&pats.delimiter, symbol) {
        TokenType::Delimiter
    } else if is_match(&pats.logical, symbol) {
        TokenType::Logical
    } else if is_match(&pats.assignment, symbol) {
        TokenType::Assignment
    } else {
        TokenType::Invalid
    }
}

/// A string literal from the `"` at `p`.
pub fn get_string_literal_token(p: &mut usize, input: &Vec<char>) -> (t: Token)
    requires
        *old(p) < input.len(),
    ensures
        (t@, *final(p) as int) == string_literal(input@, *old(p) as int),
{
    let start = *p;
    let q = find_quote(input, start + 1);
    if q < input.len() {
        *p = q + 1;
        Token { token_type: TokenType::StringLiteral, content: slice_text(input, start, q + 1) }
    } else {
        *p = input.len();
        Token { token_type: TokenType::Invalid, content: slice_text(input, start, input.len()) }
    }
}

/// A character literal from the `'` at `p`, or the `'` alone.
pub fn get_char_literal_token(p: &mut usize, input: &Vec<char>) -> (t: Token)
    requires
        *old(p) < input.len(),
    ensures
        (t@, *final(p) as int) == char_literal(input@, *old(p) as int),
{
    let start = *p;
    if input.len() - start > 2 && input[start + 1] != '\'' && input[start + 2] == '\'' {
        *p = start + 3;
        Token { token_type: TokenType::CharLiteral, content: slice_text(input, start, start + 3) }
    } else {
        *p = start + 1;
        Token { token_type: TokenType::Delimiter, content: single('\'') }
    }
}

/// The type of a whole word.
fn word_type_of(w: &String, pats: &TokenPatterns) -> (t: TokenType)
    requires
        pats.wf(),
    ensures
        t == word_type(w@),
{
    if crate::text::is_word(w, "true") || crate::text::is_word(w, "false") {
        TokenType::Boolean
    } else if is_match(&pats.key_words, w.as_str()) {
        TokenType::KeyWord
    } else if is_match(&pats.data_types, w.as_str()) {
        TokenType::DataType
    } else if is_match(&pats.function, w.as_str()) {
        TokenType::Function
    } else if is_match(&pats.identifier, w.as_str()) {
        TokenType::Identifier
    } else {
        TokenType::Invalid
    }
}

/// The word from `p`: boolean, key word, data type, function, identifier
/// or invalid.
pub fn get_literal_token(p: &mut usize, input: &Vec<char>, pats: &TokenPatterns) -> (t: Token)
    requires
        *old(p) < input.len(),
        pats.wf(),
    ensures
        (t@, *final(p) as int) == literal(input@, *old(p) as int),
{
    let start = *p;
    let q = scan(input, start, &pats.literal, false);
    let w = slice_text(input, start, q);
    let kind = word_type_of(&w, pats);
    *p = q;
    Token { token_type: kind, content: w }
}

/// A number from `p`: digits and dots.
pub fn get_numeric_token(p: &mut usize, input: &Vec<char>, pats: &TokenPatterns) -> (t: Token)
    requires
        *old(p) <= input@.len(),
        pats.wf(),
    ensures
        (t@, *final(p) as int) == number(input@, *old(p) as int, *old(p) as int),
        *old(p) <= *final(p) <= input@.len(),
{
    let start = *p;
    let q = scan(input, start, &pats.number, true);
    let kind = if has_dot(input, start, q) {
        TokenType::Double
    } else {
        TokenType::Integer
    };
    *p = q;
    Token { token_type: kind, content: slice_text(input, start, q) }
}

/// An arithmetic symbol at `p`, a signed number, or an assignment; a
/// symbol that is not arithmetic is invalid and nothing is read.
pub fn get_operator_or_numeric_token(p: &mut usize, input: &Vec<char>, pats: &TokenPatterns) -> (t: Token)
    requires
        *old(p) < input.len(),
        pats.wf(),
    ensures
        matches(word_pattern(arithmetic_symbols()), at(input@, *old(p) as int)) ==> (t@, *final(p) as int)
            == operator(input@, *old(p) as int),
        !matches(word_pattern(arithmetic_symbols()), at(input@, *old(p) as int)) ==> (t@, *final(p) as int)
            == ((TokenType::Invalid, at(input@, *old(p) as int)), *old(p) as int),
{
    let start = *p;
    let ghost c = input@;
    let symbol = input[start];
    if !matches_char(&pats.arithmetic, symbol) {
        return Token { token_type: TokenType::Invalid, content: single(symbol) };
    }
    let q = start + 1;
    if q < input.len() {
        let next = input[q];
        let prev_is_digit = if start > 0 {
            matches_char(&pats.number, input[start - 1])
        } else {
            let empty = String::new();
            is_match(&pats.number, empty.as_str())
        };
        if (symbol == '+' || symbol == '-') && matches_char(&pats.number, next) && !prev_is_digit {
            *p = q;
            let num = get_numeric_token(p, input, pats);
            let mut content = single(symbol);
            crate::text::append_str(&mut content, num.content.as_str());
            assert(content@ =~= c.subrange(start as int, *p as int));
            return Token { token_type: num.token_type, content };
        }
        let two = pair(symbol, next);
        if is_match(&pats.assignment, two.as_str()) {
            *p = q + 1;
            return Token { token_type: TokenType::Assignment, content: two };
        }
        *p = q;
        return Token { token_type: TokenType::Arithmetic, content: single(symbol) };
    }
    *p = q;
    Token { token_type: TokenType::Invalid, content: single(symbol) }
}

/// Any other symbol at `p`.
pub fn get_complex_token(p: &mut usize, input: &Vec<char>, pats: &TokenPatterns) -> (t: Token)
    requires
        *old(p) < input.len(),
        pats.wf(),
    ensures
        (t@, *final(p) as int) == complex(input@, *old(p) as int),
{
    let start = *p;
    let current = single(input[start]);
    if start + 1 < input.len() {
        let two = pair(input[start], input[start + 1]);
        if is_match(&pats.comparison, two.as_str()) || is_match(&pats.delimiter, two.as_str()) || is_match(
            &pats.logical,
            two.as_str(),
        ) {
            *p = start + 2;
            let kind = match_token_type(two.as_str(), pats);
            return Token { token_type: kind, content: two };
        }
    }
    *p = start + 1;
    if is_match(&pats.comparison, current.as_str()) || is_match(&pats.delimiter, current.as_str())
        || is_match(&pats.assignment, current.as_str()) {
        let kind = match_token_type(current.as_str(), pats);
        Token { token_type: kind, content: current }
    } else {
        Token { token_type: TokenType::Invalid, content: current }
    }
}

/// Whether an identifier token with this content was collected.
fn has_identifier(ids: &Vec<Token>, name: &String) -> (r: bool)
    ensures
        r <==> exists|i: int| 0 <= i < ids@.len() && (#[trigger] ids@[i]).content@ == name@,
{
    let mut i: usize = 0;
    while i < ids.len()
        invariant
            i <= ids@.len(),
            forall|k: int| 0 <= k < i ==> (#[trigger] ids@[k]).content@ != name@,
        decreases ids@.len() - i,
    {
        if ids[i].content == *name {
            return true;
        }
        i = i + 1;
    }
    false
}

/// Splits the text into tokens and collects its identifiers, each once.
/// Fails when `regex` refuses a pattern, or when a word starts where no
/// word character follows.
pub fn lex(input: &str) -> (r: Result<(Vec<Token>, Vec<Token>), LexError>)
    ensures
        match refused_from(pattern_texts(), 0) {
            Some(bad) => r matches Err(LexError::Pattern(e)) && e.pattern@ == bad,
            None => match tokens_from(input@, 0) {
                Ok(ts) => r matches Ok((toks, ids)) && token_views(toks@) == ts && token_views(ids@)
                    == identifiers(ts).map_values(|n: Seq<char>| (TokenType::Identifier, n)),
                Err(q) => r matches Err(LexError::Stalled(k)) && k == q,
            },
        },
{
    let pats = match TokenPatterns::new() {
        Ok(ps) => ps,
        Err(e) => {
            return Err(LexError::Pattern(e));
        },
    };
    let c = crate::text::chars_of(input);
    let mut p: usize = 0;
    let mut tokens: Vec<Token> = Vec::new();
    let mut ids: Vec<Token> = Vec::new();
    assert(tokens_from(c@, 0) == match tokens_from(c@, 0) {
        Ok(rest) => Ok(token_views(tokens@) + rest),
        Err(e) => Err::<Seq<(TokenType, Seq<char>)>, int>(e),
    }) by {
        if let Ok(rest) = tokens_from(c@, 0) {
            assert(token_views(tokens@) + rest =~= rest);
        }
    }
    while p < c.len()
        invariant
            p <= c@.len(),
            c@ == input@,
            pats.wf(),
            refused_from(pattern_texts(), 0) is None,
            tokens_from(c@, 0) == match tokens_from(c@, p as int) {
                Ok(rest) => Ok(token_views(tokens@) + rest),
                Err(e) => Err::<Seq<(TokenType, Seq<char>)>, int>(e),
            },
            token_views(ids@) == identifiers(token_views(tokens@)).map_values(
                |n: Seq<char>| (TokenType::Identifier, n),
            ),
        decreases c@.len() - p,
    {
        let ch = c[p];
        if matches_char(&pats.whitespace, ch) {
            p = p + 1;
            continue;
        }
        let start = p;
        let t = if ch == '"' {
            get_string_literal_token(&mut p, &c)
        } else if ch == '\'' {
            get_char_literal_token(&mut p, &c)
        } else if matches_char(&pats.literal_start, ch) {
            get_literal_token(&mut p, &c, &pats)
        } else if matches_char(&pats.arithmetic, ch) {
            get_operator_or_numeric_token(&mut p, &c, &pats)
        } else if matches_char(&pats.number, ch) {
            get_numeric_token(&mut p, &c, &pats)
        } else {
            get_complex_token(&mut p, &c, &pats)
        };
        assert((t@, p as int) == next_token(c@, start as int));
        if !(start < p && p <= c.len()) {
            assert(tokens_from(c@, start as int) == Err::<Seq<(TokenType, Seq<char>)>, int>(start as int));
            return Err(LexError::Stalled(start));
        }
        let ghost before = token_views(tokens@);
        let ghost ids_before = identifiers(before);
        let ghost ids_old = ids@;
        proof {
            assert(token_views(ids_old).len() == ids_before.len());
            assert forall|i: int| 0 <= i < ids_before.len() implies (#[trigger] ids_old[i]).content@ == ids_before[i] by {
                assert(token_views(ids_old)[i] == (TokenType::Identifier, ids_before[i]));
            }
            assert(ids_before.contains(t@.1) <==> exists|i: int| 0 <= i < ids_old.len() && (#[trigger] ids_old[i]).content@ == t.content@) by {
                if ids_before.contains(t@.1) {
                    let i = choose|i: int| 0 <= i < ids_before.len() && ids_before[i] == t@.1;
                    assert(ids_old[i].content@ == t.content@);
                }
                if exists|i: int| 0 <= i < ids_old.len() && (#[trigger] ids_old[i]).content@ == t.content@ {
                    let i = choose|i: int| 0 <= i < ids_old.len() && (#[trigger] ids_old[i]).content@ == t.content@;
                    assert(ids_before[i] == t@.1);
                }
            }
        }
        if t.token_type == TokenType::Identifier && !has_identifier(&ids, &t.content) {
            ids.push(Token { token_type: TokenType::Identifier, content: t.content.clone() });
        }
        tokens.push(t);
        proof {
            assert(token_views(tokens@) =~= before.push(t@));
            assert(token_views(tokens@).drop_last() =~= before);
            if let Ok(rest) = tokens_from(c@, p as int) {
                assert(before + (seq![t@] + rest) =~= token_views(tokens@) + rest);
            }
            let tv_new = token_views(tokens@);
            let as_token = |n: Seq<char>| (TokenType::Identifier, n);
            assert(tv_new.last() == t@);
            if t@.0 == TokenType::Identifier && !ids_before.contains(t@.1) {
                assert(identifiers(tv_new) == ids_before.push(t@.1));
                assert(ids@.len() == ids_old.len() + 1);
                assert(ids@.drop_last() =~= ids_old);
                assert(token_views(ids@) =~= token_views(ids_old).push((TokenType::Identifier, t@.1)));
                assert(ids_before.push(t@.1).map_values(as_token) =~= ids_before.map_values(as_token).push(
                    (TokenType::Identifier, t@.1),
                ));
            } else {
                assert(identifiers(tv_new) == ids_before);
                assert(ids@ == ids_old);
            }
            assert(token_views(ids@) =~= identifiers(token_views(tokens@)).map_values(as_token));
        }
    }
    assert(tokens_from(c@, p as int) == Ok::<Seq<(TokenType, Seq<char>)>, int>(Seq::empty()));
    assert(token_views(tokens@) + Seq::<(TokenType, Seq<char>)>::empty() =~= token_views(tokens@));
    Ok((tokens, ids))
}

// ---------------------------------------------------------------------
// Laws.

proof fn lemma_run_end_bounds(c: Seq<char>, p: int, pattern: Seq<char>, dot: bool)
    requires
        0 <= p <= c.len(),
    ensures
        p <= run_end(c, p, pattern, dot) <= c.len(),
    decreases c.len() - p,
{
    if p < c.len() && (matches(pattern, at(c, p)) || (dot && c[p] == '.')) {
        lemma_run_end_bounds(c, p + 1, pattern, dot);
    }
}

proof fn lemma_quote_end_bounds(c: Seq<char>, p: int)
    requires
        0 <= p <= c.len(),
    ensures
        p <= quote_end(c, p) <= c.len(),
    decreases c.len() - p,
{
    if p < c.len() && c[p] != '"' {
        lemma_quote_end_bounds(c, p + 1);
    }
}

/// A token's text is exactly the characters from where it starts to where
/// reading goes on.
pub proof fn lemma_token_text(c: Seq<char>, p: int)
    requires
        0 <= p < c.len(),
    ensures
        p <= next_token(c, p).1 <= c.len(),
        next_token(c, p).0.1 == c.subrange(p, next_token(c, p).1),
{
    lemma_quote_end_bounds(c, p + 1);
    lemma_run_end_bounds(c, p, LITERAL_PATTERN@, false);
    lemma_run_end_bounds(c, p, NUMBER_PATTERN@, true);
    if p + 1 <= c.len() {
        lemma_run_end_bounds(c, p + 1, NUMBER_PATTERN@, true);
    }
    assert(at(c, p) =~= c.subrange(p, p + 1));
    if p + 1 < c.len() {
        assert(seq![c[p], c[p + 1]] =~= c.subrange(p, p + 2));
    }
    if c[p] == '\'' {
        assert(seq!['\''] =~= c.subrange(p, p + 1));
    }
}

/// A symbol that the comparison pattern accepts is read as one comparison
/// token: two characters when the pair is accepted, else the single
/// character when no two-character symbol starts there.  (This holds at any
/// position that no other class of token claims.)
pub proof fn lemma_comparison_symbols(c: Seq<char>, p: int)
    requires
        0 <= p < c.len(),
        c[p] != '"',
        c[p] != '\'',
        !matches(LITERAL_START_PATTERN@, at(c, p)),
        !matches(word_pattern(arithmetic_symbols()), at(c, p)),
        !matches(NUMBER_PATTERN@, at(c, p)),
    ensures
        p + 1 < c.len() && matches(word_pattern(comparison_symbols()), seq![c[p], c[p + 1]])
            ==> next_token(c, p) == ((TokenType::Comparison, seq![c[p], c[p + 1]]), p + 2),
        matches(word_pattern(comparison_symbols()), at(c, p)) && (p + 1 < c.len() ==> {
            let two = seq![c[p], c[p + 1]];
            &&& !matches(word_pattern(comparison_symbols()), two)
            &&& !matches(word_pattern(delimiter_symbols()), two)
            &&& !matches(word_pattern(logical_symbols()), two)
        }) ==> next_token(c, p) == ((TokenType::Comparison, at(c, p)), p + 1),
{
}

/// The identifiers collected are distinct, and they are exactly the texts
/// of the identifier tokens.
pub proof fn lemma_identifiers(ts: Seq<(TokenType, Seq<char>)>)
    ensures
        identifiers(ts).no_duplicates(),
        forall|n: Seq<char>| #[trigger] identifiers(ts).contains(n) <==> exists|i: int|
            0 <= i < ts.len() && ts[i] == (TokenType::Identifier, n),
    decreases ts.len(),
{
    if ts.len() > 0 {
        let d = ts.drop_last();
        lemma_identifiers(d);
        let r = identifiers(d);
        let t = ts.last();
        assert forall|n: Seq<char>| #[trigger] identifiers(ts).contains(n) <==> exists|i: int|
            0 <= i < ts.len() && ts[i] == (TokenType::Identifier, n) by {
            if identifiers(ts).contains(n) {
                if r.contains(n) {
                    let i = choose|i: int| 0 <= i < d.len() && d[i] == (TokenType::Identifier, n);
                    assert(ts[i] == d[i]);
                } else {
                    assert(ts[ts.len() - 1] == (TokenType::Identifier, n));
                }
            }
            if exists|i: int| 0 <= i < ts.len() && ts[i] == (TokenType::Identifier, n) {
                let i = choose|i: int| 0 <= i < ts.len() && ts[i] == (TokenType::Identifier, n);
                if i < ts.len() - 1 {
                    assert(d[i] == ts[i]);
                    assert(r.contains(n));
                } else {
                    assert(t == (TokenType::Identifier, n));
                }
                if r.contains(n) {
                    let k = choose|k: int| 0 <= k < r.len() && r[k] == n;
                    assert(identifiers(ts)[k] == n);
                } else {
                    assert(identifiers(ts) == r.push(n));
                    assert(identifiers(ts)[r.len() as int] == n);
                }
            }
        }
    }
}

} // verus!
