//! Preparing the text of a geometry word problem for the parser service,
//! and reading the lemmas back from the service's CoNLL-U answer.

use vstd::prelude::*;

use crate::pattern::{
    compile, find_first, is_match, regex_compiles, regex_find_first, regex_is_match,
    regex_replace_all, replace_all, PatternError,
};
use crate::text::{chars_of, concat3, is_white_space, is_whitespace_char, string_from_chars};

verus! {

/// A decimal number: digits, a dot, digits.
pub const DECIMAL_PATTERN: &'static str = r"(\d+)\.(\d+)";

/// A decimal number whose dot was replaced by `_`.
pub const MARKED_DECIMAL_PATTERN: &'static str = r"(\d+)_(\d+)";

/// Replacement that puts `_` for the dot of a decimal number.
pub const MARK_TEMPLATE: &'static str = "${1}_${2}";

/// Replacement that puts the dot back.
pub const RESTORE_TEMPLATE: &'static str = "${1}.${2}";

/// A condition: `якщо` up to the end of its sentence.
pub const CONDITION_PATTERN: &'static str = r"(якщо[^.?!]*[.?!]?)";

// ---------------------------------------------------------------------
// Splitting and trimming.

/// The pieces of `s` between the separators, empty pieces included (as
/// `str::split` gives them).
pub open spec fn split_on(s: Seq<char>, sep: char) -> Seq<Seq<char>>
    decreases s.len(),
{
    if s.len() == 0 {
        seq![Seq::empty()]
    } else {
        let ps = split_on(s.drop_last(), sep);
        if s.last() == sep {
            ps.push(Seq::empty())
        } else {
            ps.update(ps.len() - 1, ps.last().push(s.last()))
        }
    }
}

/// A line without the `\r` of a `\r\n` ending.
pub open spec fn strip_cr(l: Seq<char>) -> Seq<char> {
    if l.len() > 0 && l.last() == '\r' {
        l.drop_last()
    } else {
        l
    }
}

/// The lines of a text as `str::lines` documents them: split at `\n` or
/// `\r\n`, without the terminators, the last line ending being optional.
pub open spec fn lines(s: Seq<char>) -> Seq<Seq<char>> {
    if s.len() == 0 {
        Seq::empty()
    } else if s.last() == '\n' {
        split_on(s.drop_last(), '\n').map_values(|l: Seq<char>| strip_cr(l))
    } else {
        let ps = split_on(s, '\n');
        ps.drop_last().map_values(|l: Seq<char>| strip_cr(l)).push(ps.last())
    }
}

pub open spec fn trim_start(s: Seq<char>) -> Seq<char>
    decreases s.len(),
{
    if s.len() > 0 && is_white_space(s[0]) {
        trim_start(s.drop_first())
    } else {
        s
    }
}

pub open spec fn trim_end(s: Seq<char>) -> Seq<char>
    decreases s.len(),
{
    if s.len() > 0 && is_white_space(s.last()) {
        trim_end(s.drop_last())
    } else {
        s
    }
}

/// The text without leading and trailing white space (`str::trim`).
pub open spec fn trim(s: Seq<char>) -> Seq<char> {
    trim_end(trim_start(s))
}

/// `pat` occurs in `text` at position `k`.
pub open spec fn occurs_at(text: Seq<char>, pat: Seq<char>, k: int) -> bool {
    0 <= k && k + pat.len() <= text.len() && text.subrange(k, k + pat.len()) == pat
}

/// The first position from `k` on where `pat` occurs, or -1.
pub open spec fn first_occurrence(text: Seq<char>, pat: Seq<char>, k: int) -> int
    decreases text.len() + 1 - k,
{
    if k < 0 || k > text.len() {
        -1
    } else if occurs_at(text, pat, k) {
        k
    } else {
        first_occurrence(text, pat, k + 1)
    }
}

/// The text without the first occurrence of `pat` (`str::replacen` with an
/// empty replacement and a count of one).
pub open spec fn remove_first(text: Seq<char>, pat: Seq<char>) -> Seq<char> {
    let k = first_occurrence(text, pat, 0);
    if k >= 0 {
        text.subrange(0, k) + text.subrange(k + pat.len(), text.len() as int)
    } else {
        text
    }
}

// ---------------------------------------------------------------------
// The problem text.

/// The text with the condition moved to its front: the condition, `, `,
/// then the rest, both trimmed; without a condition, the text unchanged.
pub open spec fn condition_first(text: Seq<char>, condition: Option<Seq<char>>) -> Seq<char> {
    match condition {
        Some(c) => trim(c) + ", "@ + trim(remove_first(text, c)),
        None => text,
    }
}

/// What one token becomes when its marked decimals get their dots back.
pub open spec fn restored(token: Seq<char>) -> Seq<char> {
    if regex_is_match(MARKED_DECIMAL_PATTERN@, token) {
        regex_replace_all(MARKED_DECIMAL_PATTERN@, token, RESTORE_TEMPLATE@)
    } else {
        token
    }
}

// ---------------------------------------------------------------------
// The service's answer.

/// Whether a line is a comment.
pub open spec fn is_comment(l: Seq<char>) -> bool {
    l.len() > 0 && l[0] == '#'
}

/// The third tab-separated column (the lemma) of each line that is not a
/// comment and has one.
pub open spec fn lemmas(ls: Seq<Seq<char>>) -> Seq<Seq<char>>
    decreases ls.len(),
{
    if ls.len() == 0 {
        Seq::empty()
    } else {
        let r = lemmas(ls.drop_last());
        let l = ls.last();
        if !is_comment(l) && split_on(l, '\t').len() > 2 {
            r.push(split_on(l, '\t')[2])
        } else {
            r
        }
    }
}

pub open spec fn significant_words(result: Option<Seq<char>>) -> Seq<Seq<char>> {
    match result {
        Some(t) => lemmas(lines(t)),
        None => Seq::empty(),
    }
}

pub open spec fn str_view(o: Option<&str>) -> Option<Seq<char>> {
    match o {
        Some(t) => Some(t@),
        None => None,
    }
}

pub open spec fn char_views(v: Seq<Vec<char>>) -> Seq<Seq<char>> {
    v.map_values(|x: Vec<char>| x@)
}

pub open spec fn string_views(v: Seq<String>) -> Seq<Seq<char>> {
    v.map_values(|x: String| x@)
}

proof fn lemma_split_nonempty(s: Seq<char>, sep: char)
    ensures
        split_on(s, sep).len() >= 1,
    decreases s.len(),
{
    if s.len() > 0 {
        lemma_split_nonempty(s.drop_last(), sep);
    }
}

/// The pieces of the first `n` characters of `s` between separators.
fn split_prefix(s: &Vec<char>, n: usize, sep: char) -> (r: Vec<Vec<char>>)
    requires
        n <= s@.len(),
    ensures
        char_views(r@) == split_on(s@.take(n as int), sep),
{
    let mut done: Vec<Vec<char>> = Vec::new();
    let mut cur: Vec<char> = Vec::new();
    let mut i: usize = 0;
    assert(s@.take(0) =~= Seq::<char>::empty());
    assert(char_views(done@).push(cur@) =~= split_on(s@.take(0), sep));
    while i < n
        invariant
            i <= n <= s@.len(),
            char_views(done@).push(cur@) == split_on(s@.take(i as int), sep),
        decreases n - i,
    {
        let c = s[i];
        let ghost ps = split_on(s@.take(i as int), sep);
        assert(s@.take(i + 1).drop_last() =~= s@.take(i as int));
        assert(s@.take(i + 1).last() == c);
        if c == sep {
            let piece = cur;
            done.push(piece);
            cur = Vec::new();
            assert(char_views(done@).push(cur@) =~= ps.push(Seq::empty()));
        } else {
            cur.push(c);
            assert(char_views(done@).push(cur@) =~= ps.update(ps.len() - 1, ps.last().push(c)));
        }
        i = i + 1;
    }
    done.push(cur);
    assert(char_views(done@) =~= split_on(s@.take(n as int), sep));
    done
}

/// The pieces of `s` between separators (`str::split`).
pub fn split_chars(s: &Vec<char>, sep: char) -> (r: Vec<Vec<char>>)
    ensures
        char_views(r@) == split_on(s@, sep),
{
    let r = split_prefix(s, s.len(), sep);
    assert(s@.take(s@.len() as int) =~= s@);
    r
}

fn strip_cr_chars(l: &mut Vec<char>)
    ensures
        final(l)@ == strip_cr(old(l)@),
{
    if l.len() > 0 && l[l.len() - 1] == '\r' {
        l.pop();
    }
}

/// The lines of a text (`str::lines`).
pub fn text_lines(s: &Vec<char>) -> (r: Vec<Vec<char>>)
    ensures
        char_views(r@) == lines(s@),
{
    if s.len() == 0 {
        return Vec::new();
    }
    let ends_with_newline = s[s.len() - 1] == '\n';
    let n: usize = if ends_with_newline { s.len() - 1 } else { s.len() };
    let pieces = split_prefix(s, n, '\n');
    proof {
        lemma_split_nonempty(s@.take(n as int), '\n');
        if ends_with_newline {
            assert(s@.take(n as int) =~= s@.drop_last());
        } else {
            assert(s@.take(n as int) =~= s@);
        }
    }
    let ghost ps = char_views(pieces@);
    let count: usize = if ends_with_newline { pieces.len() } else { pieces.len() - 1 };
    let mut r: Vec<Vec<char>> = Vec::new();
    let mut i: usize = 0;
    while i < count
        invariant
            count <= pieces@.len(),
            ps == char_views(pieces@),
            i <= count,
            char_views(r@) == ps.take(i as int).map_values(|l: Seq<char>| strip_cr(l)),
        decreases count - i,
    {
        let mut l = pieces[i].clone();
        strip_cr_chars(&mut l);
        r.push(l);
        assert(ps.take(i + 1).map_values(|l: Seq<char>| strip_cr(l)) =~= ps.take(i as int).map_values(
            |l: Seq<char>| strip_cr(l),
        ).push(strip_cr(ps[i as int])));
        assert(char_views(r@) =~= ps.take(i as int).map_values(|l: Seq<char>| strip_cr(l)).push(
            strip_cr(ps[i as int]),
        ));
        i = i + 1;
    }
    if ends_with_newline {
        assert(ps.take(count as int) =~= ps);
    } else {
        assert(ps.take(count as int) =~= ps.drop_last());
        let last = pieces[count].clone();
        r.push(last);
        assert(char_views(r@) =~= ps.drop_last().map_values(|l: Seq<char>| strip_cr(l)).push(ps.last()));
    }
    r
}

/// The lemmas of the words in the service's answer: the third column of
/// each line that is not a comment; nothing without an answer text.
pub fn extract_significant_words(result: Option<&str>) -> (r: Vec<String>)
    ensures
        string_views(r@) == significant_words(str_view(result)),
{
    let mut words: Vec<String> = Vec::new();
    match result {
        None => {
            assert(string_views(words@) =~= Seq::<Seq<char>>::empty());
        },
        Some(text) => {
            let chars = chars_of(text);
            let ls = text_lines(&chars);
            let ghost lv = char_views(ls@);
            let mut i: usize = 0;
            assert(string_views(words@) =~= lemmas(lv.take(0)));
            while i < ls.len()
                invariant
                    i <= ls@.len(),
                    lv == char_views(ls@),
                    string_views(words@) == lemmas(lv.take(i as int)),
                decreases ls@.len() - i,
            {
                let line = &ls[i];
                assert(lv.take(i + 1).drop_last() =~= lv.take(i as int));
                assert(lv.take(i + 1).last() == line@);
                let comment = line.len() > 0 && line[0] == '#';
                if !comment {
                    let columns = split_chars(line, '\t');
                    if columns.len() > 2 {
                        let w = string_from_chars(&columns[2]);
                        words.push(w);
                        assert(string_views(words@) =~= lemmas(lv.take(i as int)).push(
                            split_on(line@, '\t')[2],
                        ));
                    }
                }
                i = i + 1;
            }
            assert(lv.take(ls@.len() as int) =~= lv);
        },
    }
    words
}

/// The text without leading and trailing white space (`str::trim`).
pub fn trim_chars(s: &Vec<char>) -> (r: Vec<char>)
    ensures
        r@ == trim(s@),
{
    let mut a: usize = 0;
    assert(s@.subrange(0, s@.len() as int) =~= s@);
    while a < s.len() && is_whitespace_char(s[a])
        invariant
            a <= s@.len(),
            trim_start(s@) == trim_start(s@.subrange(a as int, s@.len() as int)),
        decreases s@.len() - a,
    {
        assert(s@.subrange(a as int, s@.len() as int).drop_first() =~= s@.subrange(a + 1, s@.len() as int));
        a = a + 1;
    }
    let ghost t = s@.subrange(a as int, s@.len() as int);
    assert(trim_start(t) == t);
    let mut b: usize = s.len();
    assert(t.subrange(0, (b - a) as int) =~= t);
    while b > a && is_whitespace_char(s[b - 1])
        invariant
            a <= b <= s@.len(),
            t == s@.subrange(a as int, s@.len() as int),
            trim_end(t) == trim_end(t.subrange(0, (b - a) as int)),
        decreases b - a,
    {
        assert(t.subrange(0, (b - a) as int).drop_last() =~= t.subrange(0, (b - 1 - a) as int));
        b = b - 1;
    }
    let mut r: Vec<char> = Vec::new();
    let mut k: usize = a;
    while k < b
        invariant
            a <= k <= b <= s@.len(),
            r@ == s@.subrange(a as int, k as int),
        decreases b - k,
    {
        r.push(s[k]);
        assert(s@.subrange(a as int, k + 1) =~= s@.subrange(a as int, k as int).push(s@[k as int]));
        k = k + 1;
    }
    assert(t.subrange(0, (b - a) as int) =~= r@);
    r
}

/// Whether `pat` occurs in `text` at position `k`.
fn occurs_at_chars(text: &Vec<char>, pat: &Vec<char>, k: usize) -> (r: bool)
    ensures
        r == occurs_at(text@, pat@, k as int),
{
    if k > text.len() || pat.len() > text.len() - k {
        return false;
    }
    let mut i: usize = 0;
    while i < pat.len()
        invariant
            k + pat.len() <= text.len(),
            i <= pat@.len(),
            forall|j: int| 0 <= j < i ==> text@[k + j] == pat@[j],
        decreases pat@.len() - i,
    {
        if text[k + i] != pat[i] {
            assert(text@.subrange(k as int, k + pat@.len())[i as int] != pat@[i as int]);
            return false;
        }
        i = i + 1;
    }
    assert(text@.subrange(k as int, k + pat@.len()) =~= pat@);
    true
}

/// The text without the `n` characters from position `k`.
fn cut_chars(text: &Vec<char>, k: usize, n: usize) -> (r: Vec<char>)
    requires
        k + n <= text.len(),
    ensures
        r@ == text@.subrange(0, k as int) + text@.subrange(k + n, text@.len() as int),
{
    let mut r: Vec<char> = Vec::new();
    let mut i: usize = 0;
    while i < k
        invariant
            i <= k,
            k + n <= text@.len(),
            r@ == text@.subrange(0, i as int),
        decreases k - i,
    {
        r.push(text[i]);
        assert(text@.subrange(0, i + 1) =~= text@.subrange(0, i as int).push(text@[i as int]));
        i = i + 1;
    }
    let mut j: usize = k + n;
    while j < text.len()
        invariant
            k + n <= j <= text@.len(),
            r@ == text@.subrange(0, k as int) + text@.subrange(k + n, j as int),
        decreases text@.len() - j,
    {
        r.push(text[j]);
        assert(text@.subrange(k + n, j + 1) =~= text@.subrange(k + n, j as int).push(text@[j as int]));
        assert(r@ =~= text@.subrange(0, k as int) + text@.subrange(k + n, j + 1));
        j = j + 1;
    }
    r
}

/// The text without the first occurrence of `pat`.
pub fn remove_first_chars(text: &Vec<char>, pat: &Vec<char>) -> (r: Vec<char>)
    ensures
        r@ == remove_first(text@, pat@),
{
    let mut k: usize = 0;
    while k < text.len()
        invariant
            k <= text@.len(),
            first_occurrence(text@, pat@, 0) == first_occurrence(text@, pat@, k as int),
        decreases text@.len() - k,
    {
        if occurs_at_chars(text, pat, k) {
            return cut_chars(text, k, pat.len());
        }
        k = k + 1;
    }
    if occurs_at_chars(text, pat, k) {
        return cut_chars(text, k, pat.len());
    }
    assert(first_occurrence(text@, pat@, k + 1) == -1);
    let r = text.clone();
    assert(r@ =~= text@);
    r
}

/// Puts the condition `condition`, found in `text`, at the front: the
/// condition and the rest of the text, both trimmed, joined by `, `.
/// Without a condition the text is returned as it is.
pub fn put_condition_first(text: &str, condition: Option<&str>) -> (r: String)
    ensures
        r@ == condition_first(text@, str_view(condition)),
{
    match condition {
        None => text.to_owned(),
        Some(c) => {
            let tv = chars_of(text);
            let cv = chars_of(c);
            let rest = remove_first_chars(&tv, &cv);
            let first = string_from_chars(&trim_chars(&cv));
            let second = string_from_chars(&trim_chars(&rest));
            concat3(first.as_str(), ", ", second.as_str())
        },
    }
}

/// Moves the condition (`якщо` to the end of its sentence) to the front of
/// the text; fails only if `regex` refuses the pattern.
pub fn move_condition_to_start(text: &str) -> (r: Result<String, PatternError>)
    ensures
        r is Ok <==> regex_compiles(CONDITION_PATTERN@),
        r matches Ok(s) ==> s@ == condition_first(text@, regex_find_first(CONDITION_PATTERN@, text@)),
        r matches Err(e) ==> e.pattern@ == CONDITION_PATTERN@,
{
    let re = compile(CONDITION_PATTERN)?;
    match find_first(&re, text) {
        Some(c) => Ok(put_condition_first(text, Some(c.as_str()))),
        None => Ok(put_condition_first(text, None)),
    }
}

/// Replaces the dot of each decimal number by `_`, so that the number
/// stays one token.
pub fn mark_decimals(text: &str) -> (r: Result<String, PatternError>)
    ensures
        r is Ok <==> regex_compiles(DECIMAL_PATTERN@),
        r matches Ok(s) ==> s@ == regex_replace_all(DECIMAL_PATTERN@, text@, MARK_TEMPLATE@),
        r matches Err(e) ==> e.pattern@ == DECIMAL_PATTERN@,
{
    let re = compile(DECIMAL_PATTERN)?;
    Ok(replace_all(&re, text, MARK_TEMPLATE))
}

/// The last steps of preparing a problem text, after its units were
/// converted: decimals are marked and the condition is moved to the front.
pub fn preprocess_converted(text: &str) -> (r: Result<String, PatternError>)
    ensures
        !regex_compiles(DECIMAL_PATTERN@) ==> (r matches Err(e) && e.pattern@ == DECIMAL_PATTERN@),
        regex_compiles(DECIMAL_PATTERN@) && !regex_compiles(CONDITION_PATTERN@) ==> (r matches Err(e)
            && e.pattern@ == CONDITION_PATTERN@),
        r matches Ok(s) ==> s@ == condition_first(
            regex_replace_all(DECIMAL_PATTERN@, text@, MARK_TEMPLATE@),
            regex_find_first(CONDITION_PATTERN@, regex_replace_all(DECIMAL_PATTERN@, text@, MARK_TEMPLATE@)),
        ),
        r is Ok <==> regex_compiles(DECIMAL_PATTERN@) && regex_compiles(CONDITION_PATTERN@),
{
    let marked = mark_decimals(text)?;
    move_condition_to_start(marked.as_str())
}

/// Gives marked decimals back their dots, token by token.
pub fn restore_dots(tokens: Vec<String>) -> (r: Result<Vec<String>, PatternError>)
    ensures
        r is Ok <==> regex_compiles(MARKED_DECIMAL_PATTERN@),
        r matches Ok(v) ==> string_views(v@) == string_views(tokens@).map_values(|t: Seq<char>| restored(t)),
        r matches Err(e) ==> e.pattern@ == MARKED_DECIMAL_PATTERN@,
{
    let re = compile(MARKED_DECIMAL_PATTERN)?;
    let mut out: Vec<String> = Vec::new();
    let mut i: usize = 0;
    while i < tokens.len()
        invariant
            i <= tokens@.len(),
            re.source() == MARKED_DECIMAL_PATTERN@,
            string_views(out@) == string_views(tokens@).take(i as int).map_values(|t: Seq<char>| restored(t)),
        decreases tokens@.len() - i,
    {
        let token = &tokens[i];
        let t = if is_match(&re, token.as_str()) {
            replace_all(&re, token.as_str(), RESTORE_TEMPLATE)
        } else {
            token.clone()
        };
        out.push(t);
        assert(string_views(tokens@).take(i + 1) =~= string_views(tokens@).take(i as int).push(token@));
        assert(string_views(out@) =~= string_views(tokens@).take(i as int).map_values(|t: Seq<char>| restored(t)).push(
            restored(token@),
        ));
        i = i + 1;
    }
    assert(string_views(tokens@).take(tokens@.len() as int) =~= string_views(tokens@));
    Ok(out)
}

} // verus!
