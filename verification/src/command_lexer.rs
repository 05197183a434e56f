//! The lexer of the rectangle command language: it cuts a command text
//! into words and normalizes them (names kept, measurements and arithmetic
//! expressions marked for evaluation, other words lowercased).

use vstd::prelude::*;

use crate::numeral::{is_float_text, is_float_text_exec, is_mantissa};
use crate::pattern::{compile, is_match, regex_compiles, regex_is_match, Pattern, PatternError};
use crate::text::{
    all_white_space, chars_of, has_prefix, is_blank, lowercase, same_chars, starts_with,
    string_from_chars, to_lowercase,
};

verus! {

/// The words of a split, each as its text.
pub type Pieces = Seq<Seq<char>>;

/// Whether a `(` at the start of `s[i..]`-scan, at nesting `level`, reaches a
/// comma on its own level before its closing parenthesis.
pub open spec fn finds_comma(s: Seq<char>, i: int, level: int) -> bool
    decreases s.len() - i,
{
    if i < 0 || i >= s.len() {
        false
    } else if s[i] == '(' {
        finds_comma(s, i + 1, level + 1)
    } else if s[i] == ')' {
        if level - 1 == 0 {
            false
        } else {
            finds_comma(s, i + 1, level - 1)
        }
    } else if s[i] == ',' && level == 1 {
        true
    } else {
        finds_comma(s, i + 1, level)
    }
}

pub open spec fn is_punctuation(c: char) -> bool {
    c == ',' || c == ';' || c == '\'' || c == '.' || c == '?' || c == '!' || c == ':' || c == '"'
}

/// Closes the current word, if it has any characters.
pub open spec fn flush(res: Pieces, cur: Seq<char>) -> (Pieces, Seq<char>) {
    if cur.len() > 0 {
        (res.push(cur), Seq::empty())
    } else {
        (res, cur)
    }
}

/// The state of a split: words so far, the current word, and how many
/// parentheses of an arithmetic expression are open.
pub type SplitState = (Pieces, Seq<char>, nat);

/// What the character at `p` does to the split state.
///
/// A `(` is a word of its own when a comma follows on its own nesting level
/// before it closes (a coordinate pair); otherwise it opens an arithmetic
/// expression, which is kept whole as one word, spaces and punctuation
/// included, until its parentheses close.
pub open spec fn split_char(s: Seq<char>, p: int, st: SplitState) -> SplitState {
    let c = s[p];
    let res = st.0;
    let cur = st.1;
    let depth = st.2;
    if c == '(' {
        let f = flush(res, cur);
        if finds_comma(s, p + 1, 1) {
            (f.0.push(seq!['(']), f.1, depth)
        } else {
            (f.0, f.1.push('('), depth + 1)
        }
    } else if c == ')' {
        if depth > 0 {
            if depth == 1 {
                (res.push(cur.push(')')), Seq::empty(), 0)
            } else {
                (res, cur.push(')'), (depth - 1) as nat)
            }
        } else {
            let f = flush(res, cur);
            (f.0.push(seq![')']), f.1, 0)
        }
    } else if is_punctuation(c) {
        if depth == 0 {
            let f = flush(res, cur);
            (f.0.push(seq![c]), f.1, 0)
        } else {
            (res, cur.push(c), depth)
        }
    } else if c == ' ' {
        if depth == 0 {
            let f = flush(res, cur);
            (f.0, f.1, 0)
        } else {
            (res, cur.push(c), depth)
        }
    } else {
        (res, cur.push(c), depth)
    }
}

pub open spec fn split_from(s: Seq<char>, p: int, st: SplitState) -> Pieces
    decreases s.len() - p,
{
    if p < 0 || p >= s.len() {
        flush(st.0, st.1).0
    } else {
        split_from(s, p + 1, split_char(s, p, st))
    }
}

/// The words of a command text.
pub open spec fn split_words(s: Seq<char>) -> Pieces {
    split_from(s, 0, (Seq::empty(), Seq::empty(), 0))
}

pub open spec fn all_nonempty(ws: Pieces) -> bool {
    forall|k: int| 0 <= k < ws.len() ==> (#[trigger] ws[k]).len() > 0
}

/// Splitting never produces an empty word.
pub proof fn lemma_split_words_nonempty(s: Seq<char>)
    ensures
        all_nonempty(split_words(s)),
{
    lemma_split_from_nonempty(s, 0, (Seq::empty(), Seq::empty(), 0));
}

proof fn lemma_split_from_nonempty(s: Seq<char>, p: int, st: SplitState)
    requires
        all_nonempty(st.0),
    ensures
        all_nonempty(split_from(s, p, st)),
    decreases s.len() - p,
{
    if p < 0 || p >= s.len() {
    } else {
        let n = split_char(s, p, st);
        assert(all_nonempty(n.0));
        lemma_split_from_nonempty(s, p + 1, n);
    }
}


/// A word outside any arithmetic expression: a single character, or one
/// that holds neither punctuation nor a space.
pub open spec fn plain_word(w: Seq<char>) -> bool {
    w.len() > 1 ==> forall|k: int| 0 <= k < w.len() ==> !is_punctuation(#[trigger] w[k]) && w[k] != ' '
}

/// In a text without parentheses, punctuation is always a word of its own:
/// every longer word holds neither punctuation nor a space.
pub proof fn lemma_punctuation_stands_alone(s: Seq<char>)
    requires
        forall|k: int| 0 <= k < s.len() ==> s[k] != '(',
    ensures
        forall|j: int| 0 <= j < split_words(s).len() ==> plain_word(#[trigger] split_words(s)[j]),
{
    lemma_split_from_plain(s, 0, (Seq::empty(), Seq::empty(), 0));
}

proof fn lemma_split_from_plain(s: Seq<char>, p: int, st: SplitState)
    requires
        forall|k: int| 0 <= k < s.len() ==> s[k] != '(',
        forall|j: int| 0 <= j < st.0.len() ==> plain_word(#[trigger] st.0[j]),
        forall|k: int| 0 <= k < st.1.len() ==> !is_punctuation(#[trigger] st.1[k]) && st.1[k] != ' ',
        st.2 == 0,
    ensures
        forall|j: int| 0 <= j < split_from(s, p, st).len() ==> plain_word(#[trigger] split_from(s, p, st)[j]),
    decreases s.len() - p,
{
    let f = flush(st.0, st.1);
    assert forall|j: int| 0 <= j < f.0.len() implies plain_word(#[trigger] f.0[j]) by {
        if j < st.0.len() {
            assert(f.0[j] == st.0[j]);
        } else {
            assert(f.0[j] == st.1);
        }
    }
    if p < 0 || p >= s.len() {
        assert(split_from(s, p, st) == f.0);
    } else {
        let c = s[p];
        let n = split_char(s, p, st);
        assert(split_from(s, p, st) == split_from(s, p + 1, n));
        assert(c != '(');
        if c == ')' || is_punctuation(c) {
            let one = seq![c];
            assert forall|j: int| 0 <= j < f.0.push(one).len() implies plain_word(#[trigger] f.0.push(one)[j]) by {
                if j < f.0.len() {
                    assert(f.0.push(one)[j] == f.0[j]);
                }
            }
        } else if c == ' ' {
        } else {
            assert forall|k: int| 0 <= k < st.1.push(c).len() implies !is_punctuation(#[trigger] st.1.push(c)[k])
                && st.1.push(c)[k] != ' ' by {
                if k < st.1.len() {
                    assert(st.1.push(c)[k] == st.1[k]);
                }
            }
        }
        lemma_split_from_plain(s, p + 1, n);
    }
}

/// How many tokens equal to `t` a token list holds.
pub open spec fn count_token(ts: Seq<TokenView>, t: TokenView) -> nat
    decreases ts.len(),
{
    if ts.len() == 0 {
        0
    } else {
        count_token(ts.drop_last(), t) + if ts.last() == t { 1nat } else { 0nat }
    }
}

/// The operator and parenthesis characters and the tokens they stand for.
pub open spec fn symbol_token(c: char, t: TokenView) -> bool {
    ||| c == '*' && t == TokenView::Multiply
    ||| c == '/' && t == TokenView::Divide
    ||| c == '(' && t == TokenView::LeftParen
    ||| c == ')' && t == TokenView::RightParen
}

proof fn lemma_count_char_front(s: Seq<char>, i: int, c: char)
    requires
        0 <= i < s.len(),
    ensures
        crate::numeral::count_char(s.subrange(i, s.len() as int), c) == crate::numeral::count_char(
            s.subrange(i + 1, s.len() as int),
            c,
        ) + if s[i] == c { 1nat } else { 0nat },
    decreases s.len() - i,
{
    let a = s.subrange(i, s.len() as int);
    let b = s.subrange(i + 1, s.len() as int);
    if i + 1 < s.len() {
        lemma_count_char_front(s.drop_last(), i, c);
        assert(a.drop_last() =~= s.drop_last().subrange(i, s.drop_last().len() as int));
        assert(b.drop_last() =~= s.drop_last().subrange(i + 1, s.drop_last().len() as int));
        assert(a.last() == s.last() && b.last() == s.last());
    } else {
        assert(a.drop_last() =~= Seq::<char>::empty());
        assert(b =~= Seq::<char>::empty());
    }
}

proof fn lemma_no_symbol_in_number(s: Seq<char>, i: int, e: int, c: char)
    requires
        0 <= i <= e <= s.len(),
        e == number_end(s, i),
        c == '*' || c == '/' || c == '(' || c == ')',
    ensures
        crate::numeral::count_char(s.subrange(i, s.len() as int), c) == crate::numeral::count_char(
            s.subrange(e, s.len() as int),
            c,
        ),
    decreases e - i,
{
    if i < e {
        lemma_count_char_front(s, i, c);
        lemma_number_end_bounds(s, i + 1);
        lemma_no_symbol_in_number(s, i + 1, e, c);
    }
}

proof fn lemma_tokenize_counts(s: Seq<char>, i: int, toks: Seq<TokenView>, c: char, t: TokenView)
    requires
        0 <= i <= s.len(),
        symbol_token(c, t),
    ensures
        tokenize_from(s, i, toks) matches Ok(ts) ==> count_token(ts, t) == count_token(toks, t)
            + crate::numeral::count_char(s.subrange(i, s.len() as int), c),
    decreases s.len() - i,
{
    if i >= s.len() {
        assert(s.subrange(i, s.len() as int) =~= Seq::<char>::empty());
    } else {
        let ch = s[i];
        lemma_count_char_front(s, i, c);
        lemma_number_end_bounds(s, i);
        lemma_number_end_bounds(s, i + 1);
        if is_number_char(ch) {
            let e = number_end(s, i);
            let num = s.subrange(i, e);
            if is_float_text(num) && e > i {
                let nt = toks.push(TokenView::Number(false, num));
                assert(nt.drop_last() =~= toks);
                lemma_no_symbol_in_number(s, i, e, c);
                lemma_tokenize_counts(s, e, nt, c, t);
            }
        } else if ch == '-' {
            if (toks.len() == 0 || toks.last() == TokenView::LeftParen) && i + 1 < s.len() && is_ascii_digit(s[i + 1]) {
                let e = number_end(s, i + 1);
                let num = s.subrange(i + 1, e);
                if is_float_text(num) && e > i + 1 {
                    let nt = toks.push(TokenView::Number(true, num));
                    assert(nt.drop_last() =~= toks);
                    lemma_no_symbol_in_number(s, i + 1, e, c);
                    lemma_tokenize_counts(s, e, nt, c, t);
                }
            } else {
                let nt = toks.push(TokenView::Minus);
                assert(nt.drop_last() =~= toks);
                lemma_tokenize_counts(s, i + 1, nt, c, t);
            }
        } else if ch == ' ' {
            lemma_tokenize_counts(s, i + 1, toks, c, t);
        } else if ch == '+' || ch == '*' || ch == '/' || ch == '(' || ch == ')' {
            let tk = if ch == '+' {
                TokenView::Plus
            } else if ch == '*' {
                TokenView::Multiply
            } else if ch == '/' {
                TokenView::Divide
            } else if ch == '(' {
                TokenView::LeftParen
            } else {
                TokenView::RightParen
            };
            let nt = toks.push(tk);
            assert(nt.drop_last() =~= toks);
            assert(tokenize_from(s, i, toks) == tokenize_from(s, i + 1, nt));
            lemma_tokenize_counts(s, i + 1, nt, c, t);
        }
    }
}

/// Each operator and parenthesis character becomes its own token: a
/// tokenized expression holds exactly as many `Multiply`, `Divide`,
/// `LeftParen` and `RightParen` tokens as its text holds `*`, `/`, `(` and
/// `)` characters.
pub proof fn lemma_tokens_match_symbols(s: Seq<char>, c: char, t: TokenView)
    requires
        symbol_token(c, t),
    ensures
        tokenize_text(s) matches Ok(ts) ==> count_token(ts, t) == crate::numeral::count_char(s, c),
{
    lemma_tokenize_counts(s, 0, Seq::empty(), c, t);
    assert(s.subrange(0, s.len() as int) =~= s);
}

/// A token of an arithmetic expression.  A number keeps its text (ASCII
/// digits and at most one dot) and whether a unary minus precedes it.
#[derive(Clone, Debug)]
pub enum ExprToken {
    Number { negative: bool, digits: String },
    Plus,
    Minus,
    Multiply,
    Divide,
    LeftParen,
    RightParen,
}

pub enum TokenView {
    Number(bool, Seq<char>),
    Plus,
    Minus,
    Multiply,
    Divide,
    LeftParen,
    RightParen,
}

impl View for ExprToken {
    type V = TokenView;

    open spec fn view(&self) -> TokenView {
        match self {
            ExprToken::Number { negative, digits } => TokenView::Number(*negative, digits@),
            ExprToken::Plus => TokenView::Plus,
            ExprToken::Minus => TokenView::Minus,
            ExprToken::Multiply => TokenView::Multiply,
            ExprToken::Divide => TokenView::Divide,
            ExprToken::LeftParen => TokenView::LeftParen,
            ExprToken::RightParen => TokenView::RightParen,
        }
    }
}

/// Why an expression could not be cut into tokens.
#[derive(Clone, Copy, Debug, PartialEq, Eq)]
pub enum TokenizeError {
    /// A character that no token starts with.
    UnexpectedChar(char),
    /// A run of digits and dots that is not a number.
    BadNumber,
}

pub open spec fn is_ascii_digit(c: char) -> bool {
    '0' <= c && c <= '9'
}

pub open spec fn is_number_char(c: char) -> bool {
    is_ascii_digit(c) || c == '.'
}

/// End of the run of digits and dots that starts at `i`.
pub open spec fn number_end(s: Seq<char>, i: int) -> int
    decreases s.len() - i,
{
    if i < 0 || i >= s.len() || !is_number_char(s[i]) {
        i
    } else {
        number_end(s, i + 1)
    }
}

pub proof fn lemma_number_end_bounds(s: Seq<char>, i: int)
    requires
        0 <= i <= s.len(),
    ensures
        i <= number_end(s, i) <= s.len(),
    decreases s.len() - i,
{
    if i < s.len() && is_number_char(s[i]) {
        lemma_number_end_bounds(s, i + 1);
    }
}

pub open spec fn views(t: Seq<ExprToken>) -> Seq<TokenView> {
    t.map_values(|x: ExprToken| x@)
}

/// The tokens of `s[i..]`, after the tokens `toks` of `s[..i]`.
pub open spec fn tokenize_from(s: Seq<char>, i: int, toks: Seq<TokenView>) -> Result<
    Seq<TokenView>,
    TokenizeError,
>
    decreases s.len() - i,
{
    if i < 0 || i >= s.len() {
        Ok(toks)
    } else {
        let c = s[i];
        proof {
            lemma_number_end_bounds(s, i);
            lemma_number_end_bounds(s, i + 1);
        }
        if is_number_char(c) {
            let e = number_end(s, i);
            let num = s.subrange(i, e);
            if is_float_text(num) && e > i {
                tokenize_from(s, e, toks.push(TokenView::Number(false, num)))
            } else {
                Err(TokenizeError::BadNumber)
            }
        } else if c == '+' {
            tokenize_from(s, i + 1, toks.push(TokenView::Plus))
        } else if c == '-' {
            if (toks.len() == 0 || toks.last() == TokenView::LeftParen) && i + 1 < s.len()
                && is_ascii_digit(s[i + 1]) {
                let e = number_end(s, i + 1);
                let num = s.subrange(i + 1, e);
                if is_float_text(num) && e > i + 1 {
                    tokenize_from(s, e, toks.push(TokenView::Number(true, num)))
                } else {
                    Err(TokenizeError::BadNumber)
                }
            } else {
                tokenize_from(s, i + 1, toks.push(TokenView::Minus))
            }
        } else if c == '*' {
            tokenize_from(s, i + 1, toks.push(TokenView::Multiply))
        } else if c == '/' {
            tokenize_from(s, i + 1, toks.push(TokenView::Divide))
        } else if c == '(' {
            tokenize_from(s, i + 1, toks.push(TokenView::LeftParen))
        } else if c == ')' {
            tokenize_from(s, i + 1, toks.push(TokenView::RightParen))
        } else if c == ' ' {
            tokenize_from(s, i + 1, toks)
        } else {
            Err(TokenizeError::UnexpectedChar(c))
        }
    }
}

/// The tokens of an expression text.
pub open spec fn tokenize_text(s: Seq<char>) -> Result<Seq<TokenView>, TokenizeError> {
    tokenize_from(s, 0, Seq::empty())
}

/// `s` with every space removed.
pub open spec fn without_spaces(s: Seq<char>) -> Seq<char>
    decreases s.len(),
{
    if s.len() == 0 {
        s
    } else {
        let r = without_spaces(s.drop_last());
        if s.last() == ' ' {
            r
        } else {
            r.push(s.last())
        }
    }
}

/// An arithmetic expression, with its spaces removed.
pub struct ExpressionEvaluator {
    input: String,
}

impl ExpressionEvaluator {
    pub closed spec fn input(&self) -> Seq<char> {
        self.input@
    }

    pub fn new(input: &str) -> (e: ExpressionEvaluator)
        ensures
            e.input() == without_spaces(input@),
    {
        let v = chars_of(input);
        let mut out: Vec<char> = Vec::new();
        let mut i: usize = 0;
        while i < v.len()
            invariant
                i <= v.len(),
                v@ == input@,
                out@ == without_spaces(v@.take(i as int)),
            decreases v.len() - i,
        {
            assert(v@.take(i + 1).drop_last() =~= v@.take(i as int));
            if v[i] != ' ' {
                out.push(v[i]);
            }
            i = i + 1;
        }
        assert(v@.take(v.len() as int) =~= v@);
        ExpressionEvaluator { input: string_from_chars(&out) }
    }

    fn number_run(s: &Vec<char>, start: usize) -> (e: usize)
        requires
            start <= s.len(),
        ensures
            e == number_end(s@, start as int),
            start <= e <= s.len(),
    {
        let mut e = start;
        while e < s.len() && (('0' <= s[e] && s[e] <= '9') || s[e] == '.')
            invariant
                start <= e <= s.len(),
                number_end(s@, start as int) == number_end(s@, e as int),
            decreases s.len() - e,
        {
            e = e + 1;
        }
        e
    }

    fn number_text(s: &Vec<char>, start: usize, end: usize) -> (r: String)
        requires
            start <= end <= s.len(),
        ensures
            r@ == s@.subrange(start as int, end as int),
    {
        let mut v: Vec<char> = Vec::new();
        let mut i = start;
        while i < end
            invariant
                start <= i <= end <= s.len(),
                v@ == s@.subrange(start as int, i as int),
            decreases end - i,
        {
            v.push(s[i]);
            assert(s@.subrange(start as int, i + 1) =~= s@.subrange(start as int, i as int).push(
                s@[i as int],
            ));
            i = i + 1;
        }
        string_from_chars(&v)
    }

    /// Cuts the expression into numbers, operators and parentheses.  A minus
    /// directly followed by a digit, at the start or after `(`, is the sign of
    /// that number.
    pub fn tokenize(&mut self) -> (r: Result<Vec<ExprToken>, TokenizeError>)
        ensures
            final(self).input() == old(self).input(),
            match r {
                Ok(t) => tokenize_text(old(self).input()) == Ok::<Seq<TokenView>, TokenizeError>(views(t@)),
                Err(e) => tokenize_text(old(self).input()) == Err::<Seq<TokenView>, TokenizeError>(e),
            },
    {
        let s = chars_of(self.input.as_str());
        let mut toks: Vec<ExprToken> = Vec::new();
        let mut i: usize = 0;
        assert(views(toks@) =~= Seq::<TokenView>::empty());
        while i < s.len()
            invariant
                i <= s.len(),
                s@ == self.input(),
                tokenize_from(s@, i as int, views(toks@)) == tokenize_text(s@),
            decreases s.len() - i,
        {
            let ghost before = views(toks@);
            let c = s[i];
            if ('0' <= c && c <= '9') || c == '.' {
                let e = Self::number_run(&s, i);
                let digits = Self::number_text(&s, i, e);
                if !(is_float_text_exec(digits.as_str()) && e > i) {
                    return Err(TokenizeError::BadNumber);
                }
                toks.push(ExprToken::Number { negative: false, digits });
                assert(views(toks@) =~= before.push(TokenView::Number(false, s@.subrange(i as int, e as int))));
                i = e;
            } else if c == '-' {
                let after_open = toks.len() == 0 || match toks[toks.len() - 1] {
                    ExprToken::LeftParen => true,
                    _ => false,
                };
                assert(after_open == (before.len() == 0 || before.last() == TokenView::LeftParen));
                if after_open && i + 1 < s.len() && '0' <= s[i + 1] && s[i + 1] <= '9' {
                    let e = Self::number_run(&s, i + 1);
                    let digits = Self::number_text(&s, i + 1, e);
                    if !(is_float_text_exec(digits.as_str()) && e > i + 1) {
                        return Err(TokenizeError::BadNumber);
                    }
                    toks.push(ExprToken::Number { negative: true, digits });
                    assert(views(toks@) =~= before.push(TokenView::Number(true, s@.subrange(i + 1, e as int))));
                    i = e;
                } else {
                    toks.push(ExprToken::Minus);
                    assert(views(toks@) =~= before.push(TokenView::Minus));
                    i = i + 1;
                }
            } else if c == '+' {
                toks.push(ExprToken::Plus);
                assert(views(toks@) =~= before.push(TokenView::Plus));
                i = i + 1;
            } else if c == '*' {
                toks.push(ExprToken::Multiply);
                assert(views(toks@) =~= before.push(TokenView::Multiply));
                i = i + 1;
            } else if c == '/' {
                toks.push(ExprToken::Divide);
                assert(views(toks@) =~= before.push(TokenView::Divide));
                i = i + 1;
            } else if c == '(' {
                toks.push(ExprToken::LeftParen);
                assert(views(toks@) =~= before.push(TokenView::LeftParen));
                i = i + 1;
            } else if c == ')' {
                toks.push(ExprToken::RightParen);
                assert(views(toks@) =~= before.push(TokenView::RightParen));
                i = i + 1;
            } else if c == ' ' {
                i = i + 1;
            } else {
                return Err(TokenizeError::UnexpectedChar(c));
            }
        }
        Ok(toks)
    }
}


/// A whole rectangle name: four point names.
pub const RECTANGLE_NAME_PATTERN: &'static str = r"^([A-Z][0-9]*){4}$";

/// A point name: a capital letter and optional digits.
pub const POINT_NAME_PATTERN: &'static str = r"^[A-Z][0-9]*$";

/// A signed decimal number.
pub const NUMBER_PATTERN: &'static str = r"^[+-]?\d+(\.\d+)?$";

/// The names of the measurement units the command language knows.
pub open spec fn unit_names() -> Seq<Seq<char>> {
    seq![
        "m"@,
        "м"@,
        "метр"@,
        "cm"@,
        "см"@,
        "сантиметр"@,
        "mm"@,
        "мм"@,
        "міліметр"@,
    ]
}

fn unit_table() -> (t: Vec<&'static str>)
    ensures
        t@.map_values(|u: &str| u@) == unit_names(),
{
    let t = vec!["m", "м", "метр", "cm", "см", "сантиметр", "mm", "мм", "міліметр"];
    assert(t@.map_values(|u: &str| u@) =~= unit_names());
    t
}

/// A word names unit `name`: a longer word (over three characters) starts
/// with it, a shorter one (under three) equals it.
pub open spec fn names_unit(word: Seq<char>, name: Seq<char>) -> bool {
    (word.len() > 3 && starts_with(word, name)) || (word.len() < 3 && word == name)
}

/// The unit names, in table order, that `word` names.
pub open spec fn units_named(table: Seq<Seq<char>>, word: Seq<char>) -> Seq<Seq<char>>
    decreases table.len(),
{
    if table.len() == 0 {
        Seq::empty()
    } else {
        let r = units_named(table.drop_last(), word);
        if names_unit(word, table.last()) {
            r.push(table.last())
        } else {
            r
        }
    }
}

/// `word` starts with some unit name.
pub open spec fn has_unit_prefix(word: Seq<char>) -> bool {
    exists|k: int| 0 <= k < unit_names().len() && starts_with(word, #[trigger] unit_names()[k])
}

/// A normalized word of a command text.
#[derive(Clone, Debug)]
pub enum ProcessedWord {
    /// Kept as it is.
    Text(String),
    /// A number, and the names of the units that the following word names;
    /// the value is the number scaled by the coefficient of one of those
    /// units, or the number itself when there is none.
    Measurement { number: String, units: Vec<String> },
    /// An arithmetic expression; the value is the expression evaluated, or
    /// `fallback` when evaluation fails.
    Expression { tokens: Vec<ExprToken>, fallback: String },
}

pub enum WordView {
    Text(Seq<char>),
    Measurement(Seq<char>, Seq<Seq<char>>),
    Expression(Seq<TokenView>, Seq<char>),
}

impl View for ProcessedWord {
    type V = WordView;

    open spec fn view(&self) -> WordView {
        match self {
            ProcessedWord::Text(t) => WordView::Text(t@),
            ProcessedWord::Measurement { number, units } => WordView::Measurement(
                number@,
                units@.map_values(|u: String| u@),
            ),
            ProcessedWord::Expression { tokens, fallback } => WordView::Expression(
                views(tokens@),
                fallback@,
            ),
        }
    }
}

pub open spec fn is_expression_char(c: char) -> bool {
    c == '+' || c == '-' || c == '*' || c == '/' || c == '(' || c == ')'
}

pub open spec fn has_expression_char(w: Seq<char>) -> bool {
    exists|k: int| 0 <= k < w.len() && is_expression_char(#[trigger] w[k])
}

/// What a word that is neither a name nor a measurement becomes.
pub open spec fn other_word(w: Seq<char>) -> WordView {
    if !has_expression_char(w) {
        WordView::Text(lowercase(w))
    } else if w == seq!['('] || w == seq![')'] {
        WordView::Text(w)
    } else {
        match tokenize_text(without_spaces(w)) {
            Ok(t) => WordView::Expression(t, lowercase(w)),
            Err(_) => WordView::Text(lowercase(w)),
        }
    }
}

/// The normalized words from position `i` on, after `out`.
pub open spec fn process_from(ws: Pieces, i: int, out: Seq<WordView>) -> Seq<WordView>
    decreases ws.len() - i,
{
    if i < 0 || i >= ws.len() {
        out
    } else {
        let w = ws[i];
        if all_white_space(w) {
            process_from(ws, i + 1, out)
        } else if regex_is_match(RECTANGLE_NAME_PATTERN@, w) || regex_is_match(POINT_NAME_PATTERN@, w) {
            process_from(ws, i + 1, out.push(WordView::Text(w)))
        } else if regex_is_match(NUMBER_PATTERN@, w) && is_float_text(w) {
            let has_next = i + 1 < ws.len();
            let units = if has_next { units_named(unit_names(), ws[i + 1]) } else { Seq::empty() };
            let step = if has_next && has_unit_prefix(ws[i + 1]) { 2int } else { 1int };
            process_from(ws, i + step, out.push(WordView::Measurement(w, units)))
        } else {
            process_from(ws, i + 1, out.push(other_word(w)))
        }
    }
}

/// The normalized words of a command text.
pub open spec fn processed(text: Seq<char>) -> Seq<WordView> {
    process_from(split_words(text), 0, Seq::empty())
}

pub open spec fn word_views(v: Seq<ProcessedWord>) -> Seq<WordView> {
    v.map_values(|p: ProcessedWord| p@)
}

/// Appends the text of `w` as a new word.
fn push_word(res: &mut Vec<String>, w: &Vec<char>)
    ensures
        final(res)@.map_values(|x: String| x@) == old(res)@.map_values(|x: String| x@).push(w@),
{
    let s = string_from_chars(w);
    res.push(s);
    assert(res@.map_values(|x: String| x@) =~= old(res)@.map_values(|x: String| x@).push(w@));
}

/// A command text and the operations that normalize it.
pub struct Lexer {
    text: String,
}

impl Lexer {
    pub closed spec fn text(&self) -> Seq<char> {
        self.text@
    }

    pub fn new(input: &str) -> (l: Lexer)
        ensures
            l.text() == input@,
    {
        Lexer { text: input.to_owned() }
    }

    fn finds_comma_from(s: &Vec<char>, start: usize) -> (r: bool)
        requires
            start >= 1,
        ensures
            r == finds_comma(s@, start as int, 1),
    {
        let mut i = start;
        let mut level: usize = 1;
        while i < s.len()
            invariant
                start <= i,
                start >= 1,
                1 <= level <= i - start + 1,
                finds_comma(s@, start as int, 1) == finds_comma(s@, i as int, level as int),
            decreases s.len() - i,
        {
            let c = s[i];
            if c == '(' {
                level = level + 1;
            } else if c == ')' {
                if level - 1 == 0 {
                    return false;
                }
                level = level - 1;
            } else if c == ',' && level == 1 {
                return true;
            }
            i = i + 1;
        }
        false
    }

    /// Cuts the text into words: spaces separate words, punctuation and
    /// coordinate parentheses are words of their own, and an arithmetic
    /// expression in parentheses stays one word.
    pub fn split_with_delimiters_regex(&self) -> (r: Vec<String>)
        ensures
            r@.map_values(|w: String| w@) == split_words(self.text()),
    {
        let s = chars_of(self.text.as_str());
        let mut res: Vec<String> = Vec::new();
        let mut cur: Vec<char> = Vec::new();
        let mut depth: usize = 0;
        let mut p: usize = 0;
        let ghost init: SplitState = (Seq::empty(), Seq::empty(), 0);
        assert(res@.map_values(|w: String| w@) =~= init.0);
        while p < s.len()
            invariant
                s@ == self.text(),
                p <= s.len(),
                depth <= p,
                split_from(s@, p as int, (res@.map_values(|w: String| w@), cur@, depth as nat))
                    == split_from(s@, 0, init),
            decreases s.len() - p,
        {
            let ghost st: SplitState = (res@.map_values(|w: String| w@), cur@, depth as nat);
            let c = s[p];
            assert(st.0 == res@.map_values(|w: String| w@));
            let ghost n = split_char(s@, p as int, st);
            let ghost f = flush(st.0, st.1);
            if c == '(' {
                if cur.len() > 0 {
                    push_word(&mut res, &cur);
                    cur = Vec::new();
                }
                assert(res@.map_values(|w: String| w@) == f.0 && cur@ =~= f.1);
                if Self::finds_comma_from(&s, p + 1) {
                    let one = vec!['('];
                    assert(one@ =~= seq!['(']);
                    push_word(&mut res, &one);
                } else {
                    cur.push('(');
                    depth = depth + 1;
                }
            } else if c == ')' {
                if depth > 0 {
                    cur.push(')');
                    if depth == 1 {
                        push_word(&mut res, &cur);
                        cur = Vec::new();
                    }
                    depth = depth - 1;
                } else {
                    if cur.len() > 0 {
                        push_word(&mut res, &cur);
                        cur = Vec::new();
                    }
                    assert(res@.map_values(|w: String| w@) == f.0 && cur@ =~= f.1);
                    let one = vec![')'];
                    assert(one@ =~= seq![')']);
                    push_word(&mut res, &one);
                }
            } else if c == ',' || c == ';' || c == '\'' || c == '.' || c == '?' || c == '!' || c == ':'
                || c == '"' {
                if depth == 0 {
                    if cur.len() > 0 {
                        push_word(&mut res, &cur);
                        cur = Vec::new();
                    }
                    assert(res@.map_values(|w: String| w@) == f.0 && cur@ =~= f.1);
                    let one = vec![c];
                    assert(one@ =~= seq![c]);
                    push_word(&mut res, &one);
                } else {
                    cur.push(c);
                }
            } else if c == ' ' {
                if depth == 0 {
                    if cur.len() > 0 {
                        push_word(&mut res, &cur);
                        cur = Vec::new();
                    }
                    assert(res@.map_values(|w: String| w@) == f.0 && cur@ =~= f.1);
                } else {
                    cur.push(c);
                }
            } else {
                cur.push(c);
            }
            proof {
                assert(res@.map_values(|w: String| w@) =~= n.0);
                assert(cur@ =~= n.1);
            }
            p = p + 1;
        }
        if cur.len() > 0 {
            push_word(&mut res, &cur);
        }
        assert(res@.map_values(|w: String| w@) =~= split_from(s@, 0, init));
        res
    }

    /// Whether `word` starts with the name of a measurement unit.
    pub fn has_unit(&self, word: Option<&str>) -> (r: bool)
        ensures
            r == (match word {
                Some(w) => has_unit_prefix(w@),
                None => false,
            }),
    {
        match word {
            None => false,
            Some(w) => {
                let wc = chars_of(w);
                let t = unit_table();
                let ghost tv = t@.map_values(|u: &str| u@);
                let mut k: usize = 0;
                while k < t.len()
                    invariant
                        k <= t.len(),
                        wc@ == w@,
                        word == Some(w),
                        tv == t@.map_values(|u: &str| u@),
                        tv == unit_names(),
                        forall|j: int| 0 <= j < k ==> !starts_with(w@, #[trigger] unit_names()[j]),
                    decreases t.len() - k,
                {
                    let name = chars_of(t[k]);
                    assert(name@ == unit_names()[k as int]);
                    if has_prefix(&wc, &name) {
                        assert(starts_with(w@, unit_names()[k as int]));
                        return true;
                    }
                    k = k + 1;
                }
                false
            },
        }
    }

    /// A number word becomes a measurement, together with the units that the
    /// next word names; `None` when the word is not a number.
    pub fn process_measurement(&self, number_pattern: &Pattern, number: &str, next_word: Option<&str>) -> (r: Option<ProcessedWord>)
        requires
            number_pattern.source() == NUMBER_PATTERN@,
        ensures
            r is Some <==> (regex_is_match(NUMBER_PATTERN@, number@) && is_float_text(number@)),
            r matches Some(m) ==> m@ == WordView::Measurement(
                number@,
                match next_word {
                    Some(u) => units_named(unit_names(), u@),
                    None => Seq::empty(),
                },
            ),
    {
        if !(is_match(number_pattern, number) && is_float_text_exec(number)) {
            return None;
        }
        let units = match next_word {
            Some(u) => Self::units_named_by(u),
            None => {
                let e: Vec<String> = Vec::new();
                assert(e@.map_values(|u: String| u@) =~= Seq::<Seq<char>>::empty());
                e
            },
        };
        Some(ProcessedWord::Measurement { number: number.to_owned(), units })
    }

    /// The names of the units, in table order, that `word` names.
    fn units_named_by(word: &str) -> (r: Vec<String>)
        ensures
            r@.map_values(|u: String| u@) == units_named(unit_names(), word@),
    {
        let wc = chars_of(word);
        let t = unit_table();
        let ghost tv = t@.map_values(|u: &str| u@);
        let mut r: Vec<String> = Vec::new();
        let mut k: usize = 0;
        assert(r@.map_values(|u: String| u@) =~= units_named(tv.take(0), word@));
        while k < t.len()
            invariant
                k <= t.len(),
                wc@ == word@,
                tv == t@.map_values(|u: &str| u@),
                tv == unit_names(),
                r@.map_values(|u: String| u@) == units_named(tv.take(k as int), word@),
            decreases t.len() - k,
        {
            let name = chars_of(t[k]);
            assert(name@ == tv[k as int]);
            assert(tv.take(k + 1).drop_last() =~= tv.take(k as int));
            assert(tv.take(k + 1).last() == tv[k as int]);
            let long = wc.len() > 3 && has_prefix(&wc, &name);
            let short = wc.len() < 3 && same_chars(&wc, &name);
            if long || short {
                let ghost before = r@.map_values(|u: String| u@);
                r.push(t[k].to_owned());
                assert(r@.map_values(|u: String| u@) =~= before.push(tv[k as int]));
            }
            k = k + 1;
        }
        assert(tv.take(t.len() as int) =~= tv);
        r
    }

    fn has_expression_char_exec(w: &Vec<char>) -> (r: bool)
        ensures
            r == has_expression_char(w@),
    {
        let mut k: usize = 0;
        while k < w.len()
            invariant
                k <= w.len(),
                forall|j: int| 0 <= j < k ==> !is_expression_char(#[trigger] w@[j]),
            decreases w.len() - k,
        {
            let c = w[k];
            if c == '+' || c == '-' || c == '*' || c == '/' || c == '(' || c == ')' {
                return true;
            }
            k = k + 1;
        }
        false
    }

    /// What a word that is neither a name nor a measurement becomes: a word
    /// without arithmetic characters is lowercased, a lone parenthesis is
    /// kept, and anything else is an expression when it cuts into tokens.
    pub fn try_parse_expression(&self, word: &str) -> (r: ProcessedWord)
        ensures
            r@ == other_word(word@),
    {
        let wc = chars_of(word);
        if !Self::has_expression_char_exec(&wc) {
            return ProcessedWord::Text(to_lowercase(word));
        }
        let open = vec!['('];
        let close = vec![')'];
        assert(open@ =~= seq!['(']);
        assert(close@ =~= seq![')']);
        if wc.len() == 1 && (same_chars(&wc, &open) || same_chars(&wc, &close)) {
            return ProcessedWord::Text(word.to_owned());
        }
        let mut evaluator = ExpressionEvaluator::new(word);
        match evaluator.tokenize() {
            Ok(tokens) => ProcessedWord::Expression { tokens, fallback: to_lowercase(word) },
            Err(_) => ProcessedWord::Text(to_lowercase(word)),
        }
    }

    /// Normalizes the command text: blank words are dropped, point and
    /// rectangle names kept, a number is a measurement (absorbing the unit
    /// word after it), arithmetic is marked for evaluation, and every other
    /// word is lowercased.  Fails only when a name or number pattern does not
    /// compile.
    pub fn process(&mut self) -> (r: Result<Vec<ProcessedWord>, PatternError>)
        ensures
            final(self).text() == old(self).text(),
            r is Ok <==> (regex_compiles(RECTANGLE_NAME_PATTERN@) && regex_compiles(POINT_NAME_PATTERN@)
                && regex_compiles(NUMBER_PATTERN@)),
            r matches Ok(v) ==> word_views(v@) == processed(old(self).text()),
    {
        let rect = compile(RECTANGLE_NAME_PATTERN)?;
        let point = compile(POINT_NAME_PATTERN)?;
        let number = compile(NUMBER_PATTERN)?;
        let words = self.split_with_delimiters_regex();
        let ghost ws = words@.map_values(|w: String| w@);
        let mut out: Vec<ProcessedWord> = Vec::new();
        let mut i: usize = 0;
        assert(word_views(out@) =~= Seq::<WordView>::empty());
        while i < words.len()
            invariant
                ws == words@.map_values(|w: String| w@),
                ws == split_words(self.text()),
                rect.source() == RECTANGLE_NAME_PATTERN@,
                point.source() == POINT_NAME_PATTERN@,
                number.source() == NUMBER_PATTERN@,
                i <= words.len() + 1,
                process_from(ws, i as int, word_views(out@)) == processed(self.text()),
            decreases words.len() + 1 - i,
        {
            let ghost before = word_views(out@);
            let w = words[i].as_str();
            assert(w@ == ws[i as int]);
            if is_blank(w) {
                i = i + 1;
            } else if is_match(&rect, w) || is_match(&point, w) {
                out.push(ProcessedWord::Text(w.to_owned()));
                assert(word_views(out@) =~= before.push(WordView::Text(w@)));
                i = i + 1;
            } else if let Some(m) = self.process_measurement(
                &number,
                w,
                if i + 1 < words.len() {
                    Some(words[i + 1].as_str())
                } else {
                    None
                },
            ) {
                let skip = i + 1 < words.len() && self.has_unit(Some(words[i + 1].as_str()));
                proof {
                    if i + 1 < words.len() {
                        assert(words@[i + 1]@ == ws[i + 1]);
                    }
                }
                out.push(m);
                assert(word_views(out@) =~= before.push(m@));
                if skip {
                    i = i + 2;
                } else {
                    i = i + 1;
                }
            } else {
                let p = self.try_parse_expression(w);
                out.push(p);
                assert(word_views(out@) =~= before.push(other_word(w@)));
                i = i + 1;
            }
        }
        Ok(out)
    }
}

} // verus!
