//! Analysis of geometry word problems about a rectangle: which quantities a
//! problem gives, which it asks for, and in which order a solver derives the
//! asked quantities.
//!
//! A problem reaches this module as its list of significant words (lemmas).
//! Given quantities are recorded by the position of the word that holds
//! their number, so the caller reads the numeric value from that word.

use vstd::prelude::*;

use crate::numeral::{is_float_text, is_float_text_exec};
use crate::text::is_word;

verus! {

/// The quantities a rectangle can have recorded besides its sides.
#[derive(Clone, Copy, Debug, PartialEq, Eq, Hash, Structural)]
pub enum RectTraitKey {
    Perimeter,
    Area,
    Diagonal,
    DiagonalDiagonalAngle,
    SideXDiagonalAngle,
    SideYDiagonalAngle,
    SmallerSide,
    BiggerSide,
    Ratio,
    SideDistances,
    CircumscribedCircleRadius,
    CircumscribedCircleDiameter,
    CircumscribedCircleArea,
    CircumscribedCirclePerimeter,
    CircleRectRatio,
}

/// The quantities a problem can ask for.
#[derive(Clone, Copy, Debug, PartialEq, Eq, Structural)]
pub enum RectTarget {
    Sides,
    Perimeter,
    Area,
    Diagonal,
    DiagonalDiagonalAngle,
    SideXDiagonalAngle,
    SideYDiagonalAngle,
    SmallerSide,
    BiggerSide,
    SideDistances,
    CircumscribedCircleRadius,
    CircumscribedCircleDiameter,
    CircumscribedCircleArea,
    CircumscribedCirclePerimeter,
}

/// A given quantity; each `usize` is the position, in the word list, of the
/// word that holds the number.
#[derive(Clone, Copy, Debug, PartialEq, Eq, Structural)]
pub enum RectData {
    SideX(usize),
    SideY(usize),
    Perimeter(usize),
    Area(usize),
    Diagonal(usize),
    DiagonalDiagonalAngle(usize),
    SideXDiagonalAngle(usize),
    SideYDiagonalAngle(usize),
    SmallerSide(usize),
    BiggerSide(usize),
    Ratio(usize, usize),
    SideDistances(usize, usize),
    CircumscribedCircleRadius(usize),
    CircumscribedCircleDiameter(usize),
    CircumscribedCircleArea(usize),
    CircumscribedCirclePerimeter(usize),
}

/// What a problem gives, one slot per kind of statement.  `circle_radius`
/// is the slot that a stated circle length (`довжина`) fills.
#[derive(Clone, Copy, Debug, PartialEq, Eq, Structural)]
pub struct TaskData {
    pub bigger_side: Option<RectData>,
    pub smaller_side: Option<RectData>,
    pub diagonal: Option<RectData>,
    pub perimeter: Option<RectData>,
    pub area: Option<RectData>,
    pub angle: Option<RectData>,
    pub ratio: Option<RectData>,
    pub side_x: Option<RectData>,
    pub side_y: Option<RectData>,
    pub side_distances: Option<RectData>,
    pub diagonal_angle: Option<RectData>,
    pub side_diagonal_angle: Option<RectData>,
    pub radius: Option<RectData>,
    pub diameter: Option<RectData>,
    pub circle_area: Option<RectData>,
    pub circle_perimeter: Option<RectData>,
    pub circle_radius: Option<RectData>,
}

pub open spec fn empty_task_data() -> TaskData {
    TaskData {
        bigger_side: None,
        smaller_side: None,
        diagonal: None,
        perimeter: None,
        area: None,
        angle: None,
        ratio: None,
        side_x: None,
        side_y: None,
        side_distances: None,
        diagonal_angle: None,
        side_diagonal_angle: None,
        radius: None,
        diameter: None,
        circle_area: None,
        circle_perimeter: None,
        circle_radius: None,
    }
}

/// The texts of a word list.
pub open spec fn texts(words: Seq<String>) -> Seq<Seq<char>> {
    words.map_values(|w: String| w@)
}

/// First number among `ws[i..end]`, if any.
pub open spec fn scan_number(ws: Seq<Seq<char>>, i: int, end: int) -> Option<int>
    decreases end - i,
{
    if i >= end || i >= ws.len() || i < 0 {
        None
    } else if is_float_text(ws[i]) {
        Some(i)
    } else {
        scan_number(ws, i + 1, end)
    }
}

/// The first number within the ten words from `start` on.
pub open spec fn next_number(ws: Seq<Seq<char>>, start: int) -> Option<int> {
    scan_number(ws, start, start + 10)
}

pub open spec fn scan_word(word: Seq<char>, ws: Seq<Seq<char>>, i: int, end: int) -> bool
    decreases end - i,
{
    if i >= end || i >= ws.len() || i < 0 {
        false
    } else if ws[i] == word {
        true
    } else if is_float_text(ws[i]) {
        false
    } else {
        scan_word(word, ws, i + 1, end)
    }
}

/// `word` occurs within the five words from `start` on, before any number.
pub open spec fn word_before_number(word: Seq<char>, ws: Seq<Seq<char>>, start: int) -> bool {
    scan_word(word, ws, start, start + 5)
}

/// The keyword table: pairs of a Ukrainian word and its English name.
pub open spec fn keyword_table() -> Seq<(Seq<char>, Seq<char>)> {
    seq![
        ("периметр"@, "perimeter"@),
        ("площа"@, "area"@),
        ("діагональ"@, "diagonal"@),
        ("кут"@, "angle"@),
        ("менша сторона"@, "smaller_side"@),
        ("більша сторона"@, "bigger_side"@),
    ]
}

/// How many entries of `table` name `w` in either language.
pub open spec fn keyword_hits(table: Seq<(Seq<char>, Seq<char>)>, w: Seq<char>) -> nat
    decreases table.len(),
{
    if table.len() == 0 {
        0
    } else {
        keyword_hits(table.drop_last(), w) + if table.last().0 == w || table.last().1 == w {
            1nat
        } else {
            0nat
        }
    }
}

pub open spec fn scan_keyword(ws: Seq<Seq<char>>, i: int, end: int) -> bool
    decreases end - i,
{
    if i >= end || i >= ws.len() || i < 0 {
        false
    } else if keyword_hits(keyword_table(), ws[i]) > 1 {
        true
    } else if is_float_text(ws[i]) {
        false
    } else {
        scan_keyword(ws, i + 1, end)
    }
}

/// Within the three words from `start` on, before any number, a word is
/// named by more than one entry of the keyword table.
pub open spec fn keyword_before_number(ws: Seq<Seq<char>>, start: int) -> bool {
    scan_keyword(ws, start, start + 3)
}


/// The state of a pass over the words: position, whether the asked part has
/// begun, the given quantities, and the asked quantities.
pub type TaskScan = (int, bool, TaskData, Seq<RectTarget>);

pub open spec fn no_change(i: int, t: bool, d: TaskData, g: Seq<RectTarget>) -> TaskScan {
    (i, t, d, g)
}

pub open spec fn arm_perimeter(ws: Seq<Seq<char>>, i: int, t: bool, d: TaskData, g: Seq<RectTarget>) -> TaskScan {
    if t {
        (i, t, d, g.push(RectTarget::Perimeter))
    } else if !keyword_before_number(ws, i + 1) {
        match next_number(ws, i + 1) {
            Some(v) => (i, t, TaskData { perimeter: Some(RectData::Perimeter(v as usize)), ..d }, g),
            None => no_change(i, t, d, g),
        }
    } else {
        no_change(i, t, d, g)
    }
}

pub open spec fn arm_area(ws: Seq<Seq<char>>, i: int, t: bool, d: TaskData, g: Seq<RectTarget>) -> TaskScan {
    if word_before_number("коло"@, ws, i + 1) {
        if t {
            (i + 2, t, d, g.push(RectTarget::CircumscribedCircleArea))
        } else {
            match next_number(ws, i + 1) {
                Some(s) => (s, t, TaskData { circle_area: Some(RectData::CircumscribedCircleArea(s as usize)), ..d }, g),
                None => no_change(i, t, d, g),
            }
        }
    } else if t {
        (i, t, d, g.push(RectTarget::Area))
    } else if !keyword_before_number(ws, i + 1) {
        match next_number(ws, i + 1) {
            Some(v) => (i, t, TaskData { area: Some(RectData::Area(v as usize)), ..d }, g),
            None => no_change(i, t, d, g),
        }
    } else {
        no_change(i, t, d, g)
    }
}

pub open spec fn arm_diagonal(ws: Seq<Seq<char>>, i: int, t: bool, d: TaskData, g: Seq<RectTarget>) -> TaskScan {
    if keyword_before_number(ws, i + 1) {
        no_change(i, t, d, g)
    } else if word_before_number("сторона"@, ws, i + 1) || word_before_number("вона"@, ws, i + 1) {
        if word_before_number("кут"@, ws, i + 2) {
            if t {
                (i, t, d, g.push(RectTarget::SideXDiagonalAngle))
            } else {
                match next_number(ws, i + 1) {
                    Some(v) => (i, t, TaskData { side_diagonal_angle: Some(RectData::SideXDiagonalAngle(v as usize)), ..d }, g),
                    None => no_change(i, t, d, g),
                }
            }
        } else {
            no_change(i, t, d, g)
        }
    } else if word_before_number("перетинатися"@, ws, i + 1) {
        if word_before_number("кут"@, ws, i + 2) {
            if t {
                (i, t, d, g.push(RectTarget::DiagonalDiagonalAngle))
            } else {
                match next_number(ws, i + 1) {
                    Some(v) => (i + 1, t, TaskData { diagonal_angle: Some(RectData::DiagonalDiagonalAngle(v as usize)), ..d }, g),
                    None => no_change(i, t, d, g),
                }
            }
        } else {
            no_change(i, t, d, g)
        }
    } else if t {
        (i, t, d, g.push(RectTarget::Diagonal))
    } else {
        match next_number(ws, i + 1) {
            Some(v) => (i, t, TaskData { diagonal: Some(RectData::Diagonal(v as usize)), ..d }, g),
            None => no_change(i, t, d, g),
        }
    }
}

pub open spec fn arm_ratio(ws: Seq<Seq<char>>, i: int, t: bool, d: TaskData, g: Seq<RectTarget>) -> TaskScan {
    if keyword_before_number(ws, i + 1) {
        no_change(i, t, d, g)
    } else {
        match next_number(ws, i + 1) {
            Some(x) => if keyword_before_number(ws, x + 1) {
                no_change(i, t, d, g)
            } else {
                match next_number(ws, x + 1) {
                    Some(y) => (i + 1, t, TaskData { ratio: Some(RectData::Ratio(x as usize, y as usize)), ..d }, g),
                    None => no_change(i, t, d, g),
                }
            },
            None => no_change(i, t, d, g),
        }
    }
}

pub open spec fn arm_angle(ws: Seq<Seq<char>>, i: int, t: bool, d: TaskData, g: Seq<RectTarget>) -> TaskScan {
    if word_before_number("діагональ"@, ws, i) {
        if t {
            (i, t, d, g.push(RectTarget::DiagonalDiagonalAngle))
        } else {
            match next_number(ws, i + 1) {
                Some(v) => (i + 1, t, TaskData { diagonal_angle: Some(RectData::DiagonalDiagonalAngle(v as usize)), ..d }, g),
                None => no_change(i, t, d, g),
            }
        }
    } else {
        no_change(i, t, d, g)
    }
}

/// Records a side length given as "the smaller/bigger side": it fills the
/// first free side slot, if one is free.
pub open spec fn record_side(d: TaskData, v: int) -> TaskData {
    match d.side_x {
        Some(_) => match d.side_y {
            None => TaskData { side_y: Some(RectData::SideY(v as usize)), ..d },
            _ => d,
        },
        None => TaskData { side_x: Some(RectData::SideX(v as usize)), ..d },
    }
}

pub open spec fn arm_smaller(ws: Seq<Seq<char>>, i: int, t: bool, d: TaskData, g: Seq<RectTarget>) -> TaskScan {
    if t {
        (i, t, d, g.push(RectTarget::SmallerSide))
    } else if !keyword_before_number(ws, i + 1) {
        match next_number(ws, i + 2) {
            Some(v) => (i + 1, t, TaskData { smaller_side: Some(RectData::SmallerSide(v as usize)), ..record_side(d, v) }, g),
            None => no_change(i, t, d, g),
        }
    } else {
        no_change(i, t, d, g)
    }
}

pub open spec fn arm_bigger(ws: Seq<Seq<char>>, i: int, t: bool, d: TaskData, g: Seq<RectTarget>) -> TaskScan {
    if t {
        (i, t, d, g.push(RectTarget::BiggerSide))
    } else if !keyword_before_number(ws, i + 1) {
        match next_number(ws, i + 2) {
            Some(v) => (i + 1, t, TaskData { bigger_side: Some(RectData::BiggerSide(v as usize)), ..record_side(d, v) }, g),
            None => no_change(i, t, d, g),
        }
    } else {
        no_change(i, t, d, g)
    }
}

pub open spec fn arm_side(ws: Seq<Seq<char>>, i: int, t: bool, d: TaskData, g: Seq<RectTarget>) -> TaskScan {
    if t {
        (i, t, d, g.push(RectTarget::Sides))
    } else if !keyword_before_number(ws, i + 1) {
        match next_number(ws, i + 1) {
            Some(x) => {
                let d1 = TaskData { side_x: Some(RectData::SideX(x as usize)), ..d };
                if keyword_before_number(ws, x + 1) {
                    no_change(i, t, d1, g)
                } else {
                    match next_number(ws, x + 1) {
                        Some(y) => (i + 1, t, TaskData { side_y: Some(RectData::SideY(y as usize)), ..d1 }, g),
                        None => no_change(i, t, d1, g),
                    }
                }
            },
            None => no_change(i, t, d, g),
        }
    } else {
        no_change(i, t, d, g)
    }
}

pub open spec fn arm_distance(ws: Seq<Seq<char>>, i: int, t: bool, d: TaskData, g: Seq<RectTarget>) -> TaskScan {
    if t {
        (i, t, d, g.push(RectTarget::SideDistances))
    } else {
        match next_number(ws, i + 1) {
            Some(d1) => match next_number(ws, d1 + 1) {
                Some(d2) => (d1, t, TaskData { side_distances: Some(RectData::SideDistances(d1 as usize, d2 as usize)), ..d }, g),
                None => no_change(i, t, d, g),
            },
            None => no_change(i, t, d, g),
        }
    }
}

pub open spec fn arm_radius(ws: Seq<Seq<char>>, i: int, t: bool, d: TaskData, g: Seq<RectTarget>) -> TaskScan {
    if t {
        (i, t, d, g.push(RectTarget::CircumscribedCircleRadius))
    } else {
        match next_number(ws, i + 1) {
            Some(r) => (i, t, TaskData { radius: Some(RectData::CircumscribedCircleRadius(r as usize)), ..d }, g),
            None => no_change(i, t, d, g),
        }
    }
}

/// A stated diameter is recorded in the `diameter` slot, tagged as a radius.
pub open spec fn arm_diameter(ws: Seq<Seq<char>>, i: int, t: bool, d: TaskData, g: Seq<RectTarget>) -> TaskScan {
    if t {
        (i, t, d, g.push(RectTarget::CircumscribedCircleDiameter))
    } else {
        match next_number(ws, i + 1) {
            Some(r) => (i, t, TaskData { diameter: Some(RectData::CircumscribedCircleRadius(r as usize)), ..d }, g),
            None => no_change(i, t, d, g),
        }
    }
}

/// A stated length is recorded in the `circle_radius` slot, tagged as a radius.
pub open spec fn arm_length(ws: Seq<Seq<char>>, i: int, t: bool, d: TaskData, g: Seq<RectTarget>) -> TaskScan {
    if t {
        (i, t, d, g.push(RectTarget::CircumscribedCirclePerimeter))
    } else {
        match next_number(ws, i + 1) {
            Some(r) => (i, t, TaskData { circle_radius: Some(RectData::CircumscribedCircleRadius(r as usize)), ..d }, g),
            None => no_change(i, t, d, g),
        }
    }
}

pub open spec fn arm_circle(ws: Seq<Seq<char>>, i: int, t: bool, d: TaskData, g: Seq<RectTarget>) -> TaskScan {
    if word_before_number("площа"@, ws, i + 1) {
        if t {
            (i + 2, t, d, g.push(RectTarget::CircumscribedCircleArea))
        } else {
            match next_number(ws, i + 1) {
                Some(s) => (s, t, TaskData { circle_area: Some(RectData::CircumscribedCircleArea(s as usize)), ..d }, g),
                None => no_change(i, t, d, g),
            }
        }
    } else {
        no_change(i, t, d, g)
    }
}

/// What the word at `i` does to the state, before the step to the next word.
pub open spec fn task_word(ws: Seq<Seq<char>>, i: int, t: bool, d: TaskData, g: Seq<RectTarget>) -> TaskScan {
    let w = ws[i];
    if w == "периметр"@ {
        arm_perimeter(ws, i, t, d, g)
    } else if w == "площа"@ {
        arm_area(ws, i, t, d, g)
    } else if w == "діагональ"@ {
        arm_diagonal(ws, i, t, d, g)
    } else if w == "відноситися"@ || w == "співвідношення"@ || w == "відношення"@ {
        arm_ratio(ws, i, t, d, g)
    } else if w == "кут"@ {
        arm_angle(ws, i, t, d, g)
    } else if w == "менший"@ {
        arm_smaller(ws, i, t, d, g)
    } else if w == "більший"@ {
        arm_bigger(ws, i, t, d, g)
    } else if w == "сторона"@ {
        arm_side(ws, i, t, d, g)
    } else if w == "відстань"@ {
        arm_distance(ws, i, t, d, g)
    } else if w == "радіус"@ {
        arm_radius(ws, i, t, d, g)
    } else if w == "діаметер"@ {
        arm_diameter(ws, i, t, d, g)
    } else if w == "довжина"@ {
        arm_length(ws, i, t, d, g)
    } else if w == "коло"@ {
        arm_circle(ws, i, t, d, g)
    } else if w == "обчислити"@ || w == "знайти"@ {
        (i, true, d, g)
    } else {
        no_change(i, t, d, g)
    }
}

/// The pass over the words from state `st` to the end.
pub open spec fn task_scan(ws: Seq<Seq<char>>, st: TaskScan) -> TaskScan
    decreases ws.len() - st.0,
{
    if st.0 < 0 || st.0 >= ws.len() {
        st
    } else {
        let n = task_word(ws, st.0, st.1, st.2, st.3);
        let next = (n.0 + 1, n.1, n.2, n.3);
        if n.0 < st.0 || next.0 >= ws.len() {
            next
        } else {
            task_scan(ws, next)
        }
    }
}

/// The given and asked quantities of a problem with words `ws`.
pub open spec fn task_of(ws: Seq<Seq<char>>) -> (TaskData, Seq<RectTarget>) {
    let r = task_scan(ws, (0, false, empty_task_data(), Seq::empty()));
    (r.2, r.3)
}


/// No word is named by two entries of the keyword table, so the keyword
/// check before a number never fires: `keyword_before_number` is false for
/// every word list and every start.
pub proof fn lemma_keyword_check_never_fires(ws: Seq<Seq<char>>, start: int)
    ensures
        !keyword_before_number(ws, start),
{
    assert forall|w: Seq<char>| keyword_hits(keyword_table(), w) <= 1 by {
        lemma_keyword_hits_at_most_one(w);
    }
    lemma_scan_keyword_false(ws, start, start + 3);
}

proof fn lemma_scan_keyword_false(ws: Seq<Seq<char>>, i: int, end: int)
    requires
        forall|w: Seq<char>| keyword_hits(keyword_table(), w) <= 1,
    ensures
        !scan_keyword(ws, i, end),
    decreases end - i,
{
    if i < end && i < ws.len() && i >= 0 {
        assert(keyword_hits(keyword_table(), ws[i]) <= 1);
        lemma_scan_keyword_false(ws, i + 1, end);
    }
}

proof fn lemma_keyword_hits_at_most_one(w: Seq<char>)
    ensures
        keyword_hits(keyword_table(), w) <= 1,
{
    reveal_strlit("периметр");
    reveal_strlit("perimeter");
    reveal_strlit("площа");
    reveal_strlit("area");
    reveal_strlit("діагональ");
    reveal_strlit("diagonal");
    reveal_strlit("кут");
    reveal_strlit("angle");
    reveal_strlit("менша сторона");
    reveal_strlit("smaller_side");
    reveal_strlit("більша сторона");
    reveal_strlit("bigger_side");
    let t = keyword_table();
    let names = seq![t[0].0, t[0].1, t[1].0, t[1].1, t[2].0, t[2].1, t[3].0, t[3].1, t[4].0, t[4].1, t[5].0, t[5].1];
    assert forall|a: int, b: int| 0 <= a < b < 12 implies names[a] != names[b] by {
        assert(names[a].len() != names[b].len() || names[a][0] != names[b][0] || names[a][2] != names[b][2]);
    }
    assert forall|a: int, b: int| 0 <= a < b < 6 && entry_names(t, a, w) implies !entry_names(t, b, w) by {
        assert(names[2 * a] != names[2 * b] && names[2 * a] != names[2 * b + 1]);
        assert(names[2 * a + 1] != names[2 * b] && names[2 * a + 1] != names[2 * b + 1]);
    }
    lemma_hits_prefix(t, w, 6);
    assert(t.take(6) =~= t);
}

pub open spec fn entry_names(t: Seq<(Seq<char>, Seq<char>)>, k: int, w: Seq<char>) -> bool {
    t[k].0 == w || t[k].1 == w
}

proof fn lemma_hits_prefix(t: Seq<(Seq<char>, Seq<char>)>, w: Seq<char>, k: int)
    requires
        0 <= k <= t.len(),
        forall|a: int, b: int| 0 <= a < b < t.len() && entry_names(t, a, w) ==> !entry_names(t, b, w),
    ensures
        keyword_hits(t.take(k), w) <= 1,
        keyword_hits(t.take(k), w) == 0 <==> forall|a: int| 0 <= a < k ==> !entry_names(t, a, w),
    decreases k,
{
    if k > 0 {
        lemma_hits_prefix(t, w, k - 1);
        assert(t.take(k).drop_last() =~= t.take(k - 1));
        assert(t.take(k).last() == t[k - 1]);
        assert(keyword_hits(t.take(k), w) == keyword_hits(t.take(k - 1), w) + if entry_names(
            t,
            k - 1,
            w,
        ) {
            1nat
        } else {
            0nat
        });
        if entry_names(t, k - 1, w) {
            assert forall|a: int| 0 <= a < k - 1 implies !entry_names(t, a, w) by {
                if entry_names(t, a, w) {
                    assert(!entry_names(t, k - 1, w));
                }
            }
        }
    } else {
        assert(t.take(0).len() == 0);
    }
}

/// End of a window of `width` words from `start`, clipped to `len`.
fn window_end(start: usize, width: usize, len: usize) -> (e: usize)
    ensures
        e == if start + width < len { start + width } else { len as int },
{
    if start < len && len - start > width {
        start + width
    } else {
        len
    }
}

proof fn lemma_scan_number_clip(ws: Seq<Seq<char>>, i: int, end: int)
    ensures
        scan_number(ws, i, end) == scan_number(ws, i, if end < ws.len() { end } else { ws.len() as int }),
    decreases end - i,
{
    if i < end && i < ws.len() && i >= 0 {
        lemma_scan_number_clip(ws, i + 1, end);
    }
}

proof fn lemma_scan_number_range(ws: Seq<Seq<char>>, i: int, end: int)
    ensures
        scan_number(ws, i, end) matches Some(k) ==> i <= k < ws.len() && k < end,
    decreases end - i,
{
    if i < end && i < ws.len() && i >= 0 {
        lemma_scan_number_range(ws, i + 1, end);
    }
}

proof fn lemma_scan_word_clip(word: Seq<char>, ws: Seq<Seq<char>>, i: int, end: int)
    ensures
        scan_word(word, ws, i, end) == scan_word(word, ws, i, if end < ws.len() { end } else { ws.len() as int }),
    decreases end - i,
{
    if i < end && i < ws.len() && i >= 0 {
        lemma_scan_word_clip(word, ws, i + 1, end);
    }
}

proof fn lemma_scan_keyword_clip(ws: Seq<Seq<char>>, i: int, end: int)
    ensures
        scan_keyword(ws, i, end) == scan_keyword(ws, i, if end < ws.len() { end } else { ws.len() as int }),
    decreases end - i,
{
    if i < end && i < ws.len() && i >= 0 {
        lemma_scan_keyword_clip(ws, i + 1, end);
    }
}

impl GeometryTaskAnalyser {
    /// Position of the first number within the ten words from `start_idx` on.
    pub fn find_next_number(words: &Vec<String>, start_idx: usize) -> (r: Option<usize>)
        requires
            words@.len() < usize::MAX - 16,
        ensures
            r == (match next_number(texts(words@), start_idx as int) {
                Some(k) => Some(k as usize),
                None => None,
            }),
            r matches Some(k) ==> start_idx <= k < words@.len(),
            next_number(texts(words@), start_idx as int) matches Some(k) ==> start_idx <= k
                < words@.len(),
    {
        let ghost ws = texts(words@);
        let end = window_end(start_idx, 10, words.len());
        proof {
            lemma_scan_number_clip(ws, start_idx as int, start_idx + 10);
        }
        proof {
            lemma_scan_number_range(ws, start_idx as int, end as int);
        }
        let mut i = start_idx;
        while i < end
            invariant
                start_idx <= i,
                end <= words@.len(),
                ws == texts(words@),
                ws.len() == words@.len(),
                scan_number(ws, start_idx as int, start_idx + 10) == scan_number(ws, i as int, end as int),
            decreases end - i,
        {
            assert(ws[i as int] == words@[i as int]@);
            if is_float_text_exec(words[i].as_str()) {
                return Some(i);
            }
            i = i + 1;
        }
        None
    }

    /// Whether `word` comes within the five words from `start_idx` on, before
    /// any number.
    pub fn word_before_next_data(word: &str, words: &Vec<String>, start_idx: usize) -> (r: bool)
        requires
            words@.len() < usize::MAX - 16,
        ensures
            r == word_before_number(word@, texts(words@), start_idx as int),
    {
        let ghost ws = texts(words@);
        let end = window_end(start_idx, 5, words.len());
        proof {
            lemma_scan_word_clip(word@, ws, start_idx as int, start_idx + 5);
        }
        let mut i = start_idx;
        while i < end
            invariant
                start_idx <= i,
                end <= words@.len(),
                ws == texts(words@),
                ws.len() == words@.len(),
                scan_word(word@, ws, start_idx as int, start_idx + 5) == scan_word(
                    word@,
                    ws,
                    i as int,
                    end as int,
                ),
            decreases end - i,
        {
            assert(ws[i as int] == words@[i as int]@);
            if is_word(&words[i], word) {
                return true;
            }
            if is_float_text_exec(words[i].as_str()) {
                return false;
            }
            i = i + 1;
        }
        false
    }

    /// Whether, within the three words from `start_idx` on and before any
    /// number, some word is named by more than one keyword-table entry.
    pub fn keyword_before_number(words: &Vec<String>, start_idx: usize) -> (r: bool)
        requires
            words@.len() < usize::MAX - 16,
        ensures
            r == keyword_before_number(texts(words@), start_idx as int),
    {
        let ghost ws = texts(words@);
        let end = window_end(start_idx, 3, words.len());
        proof {
            lemma_scan_keyword_clip(ws, start_idx as int, start_idx + 3);
        }
        let mut i = start_idx;
        while i < end
            invariant
                start_idx <= i,
                end <= words@.len(),
                ws == texts(words@),
                ws.len() == words@.len(),
                scan_keyword(ws, start_idx as int, start_idx + 3) == scan_keyword(ws, i as int, end as int),
            decreases end - i,
        {
            assert(ws[i as int] == words@[i as int]@);
            if keyword_hit_count(&words[i]) > 1 {
                return true;
            }
            if is_float_text_exec(words[i].as_str()) {
                return false;
            }
            i = i + 1;
        }
        false
    }
}


/// Exec counterparts of the per-word arms.  Each returns the position
/// before the step to the next word.
impl GeometryTaskAnalyser {
    fn on_perimeter(words: &Vec<String>, i: usize, t: bool, d: &mut TaskData, g: &mut Vec<RectTarget>) -> (j: usize)
        requires
            i < words@.len() < usize::MAX - 16,
        ensures
            (j as int, t, *final(d), final(g)@) == arm_perimeter(texts(words@), i as int, t, *old(d), old(g)@),
            i <= j <= words@.len() + 1,
    {
        if t {
            g.push(RectTarget::Perimeter);
        } else if !Self::keyword_before_number(words, i + 1) {
            if let Some(v) = Self::find_next_number(words, i + 1) {
                d.perimeter = Some(RectData::Perimeter(v));
            }
        }
        i
    }

    fn on_area(words: &Vec<String>, i: usize, t: bool, d: &mut TaskData, g: &mut Vec<RectTarget>) -> (j: usize)
        requires
            i < words@.len() < usize::MAX - 16,
        ensures
            (j as int, t, *final(d), final(g)@) == arm_area(texts(words@), i as int, t, *old(d), old(g)@),
            i <= j <= words@.len() + 1,
    {
        if Self::word_before_next_data("коло", words, i + 1) {
            if t {
                g.push(RectTarget::CircumscribedCircleArea);
                return i + 2;
            } else if let Some(s) = Self::find_next_number(words, i + 1) {
                d.circle_area = Some(RectData::CircumscribedCircleArea(s));
                return s;
            }
        } else if t {
            g.push(RectTarget::Area);
        } else if !Self::keyword_before_number(words, i + 1) {
            if let Some(v) = Self::find_next_number(words, i + 1) {
                d.area = Some(RectData::Area(v));
            }
        }
        i
    }

    fn on_diagonal(words: &Vec<String>, i: usize, t: bool, d: &mut TaskData, g: &mut Vec<RectTarget>) -> (j: usize)
        requires
            i < words@.len() < usize::MAX - 16,
        ensures
            (j as int, t, *final(d), final(g)@) == arm_diagonal(texts(words@), i as int, t, *old(d), old(g)@),
            i <= j <= words@.len() + 1,
    {
        if !Self::keyword_before_number(words, i + 1) {
            if Self::word_before_next_data("сторона", words, i + 1)
                || Self::word_before_next_data("вона", words, i + 1) {
                if Self::word_before_next_data("кут", words, i + 2) {
                    if t {
                        g.push(RectTarget::SideXDiagonalAngle);
                    } else if let Some(v) = Self::find_next_number(words, i + 1) {
                        d.side_diagonal_angle = Some(RectData::SideXDiagonalAngle(v));
                    }
                }
            } else if Self::word_before_next_data("перетинатися", words, i + 1) {
                if Self::word_before_next_data("кут", words, i + 2) {
                    if t {
                        g.push(RectTarget::DiagonalDiagonalAngle);
                    } else if let Some(v) = Self::find_next_number(words, i + 1) {
                        d.diagonal_angle = Some(RectData::DiagonalDiagonalAngle(v));
                        return i + 1;
                    }
                }
            } else if t {
                g.push(RectTarget::Diagonal);
            } else if let Some(v) = Self::find_next_number(words, i + 1) {
                d.diagonal = Some(RectData::Diagonal(v));
            }
        }
        i
    }

    fn on_ratio(words: &Vec<String>, i: usize, t: bool, d: &mut TaskData, g: &mut Vec<RectTarget>) -> (j: usize)
        requires
            i < words@.len() < usize::MAX - 16,
        ensures
            (j as int, t, *final(d), final(g)@) == arm_ratio(texts(words@), i as int, t, *old(d), old(g)@),
            i <= j <= words@.len() + 1,
    {
        if !Self::keyword_before_number(words, i + 1) {
            if let Some(x) = Self::find_next_number(words, i + 1) {
                if !Self::keyword_before_number(words, x + 1) {
                    if let Some(y) = Self::find_next_number(words, x + 1) {
                        d.ratio = Some(RectData::Ratio(x, y));
                        return i + 1;
                    }
                }
            }
        }
        i
    }

    fn on_angle(words: &Vec<String>, i: usize, t: bool, d: &mut TaskData, g: &mut Vec<RectTarget>) -> (j: usize)
        requires
            i < words@.len() < usize::MAX - 16,
        ensures
            (j as int, t, *final(d), final(g)@) == arm_angle(texts(words@), i as int, t, *old(d), old(g)@),
            i <= j <= words@.len() + 1,
    {
        if Self::word_before_next_data("діагональ", words, i) {
            if t {
                g.push(RectTarget::DiagonalDiagonalAngle);
            } else if let Some(v) = Self::find_next_number(words, i + 1) {
                d.diagonal_angle = Some(RectData::DiagonalDiagonalAngle(v));
                return i + 1;
            }
        }
        i
    }

    fn record_side(d: &mut TaskData, v: usize)
        ensures
            *final(d) == record_side(*old(d), v as int),
    {
        match d.side_x {
            Some(_) => match d.side_y {
                None => {
                    d.side_y = Some(RectData::SideY(v));
                },
                _ => {},
            },
            None => {
                d.side_x = Some(RectData::SideX(v));
            },
        }
    }

    fn on_smaller(words: &Vec<String>, i: usize, t: bool, d: &mut TaskData, g: &mut Vec<RectTarget>) -> (j: usize)
        requires
            i < words@.len() < usize::MAX - 16,
        ensures
            (j as int, t, *final(d), final(g)@) == arm_smaller(texts(words@), i as int, t, *old(d), old(g)@),
            i <= j <= words@.len() + 1,
    {
        if t {
            g.push(RectTarget::SmallerSide);
        } else if !Self::keyword_before_number(words, i + 1) {
            if let Some(v) = Self::find_next_number(words, i + 2) {
                Self::record_side(d, v);
                d.smaller_side = Some(RectData::SmallerSide(v));
                return i + 1;
            }
        }
        i
    }

    fn on_bigger(words: &Vec<String>, i: usize, t: bool, d: &mut TaskData, g: &mut Vec<RectTarget>) -> (j: usize)
        requires
            i < words@.len() < usize::MAX - 16,
        ensures
            (j as int, t, *final(d), final(g)@) == arm_bigger(texts(words@), i as int, t, *old(d), old(g)@),
            i <= j <= words@.len() + 1,
    {
        if t {
            g.push(RectTarget::BiggerSide);
        } else if !Self::keyword_before_number(words, i + 1) {
            if let Some(v) = Self::find_next_number(words, i + 2) {
                Self::record_side(d, v);
                d.bigger_side = Some(RectData::BiggerSide(v));
                return i + 1;
            }
        }
        i
    }

    fn on_side(words: &Vec<String>, i: usize, t: bool, d: &mut TaskData, g: &mut Vec<RectTarget>) -> (j: usize)
        requires
            i < words@.len() < usize::MAX - 16,
        ensures
            (j as int, t, *final(d), final(g)@) == arm_side(texts(words@), i as int, t, *old(d), old(g)@),
            i <= j <= words@.len() + 1,
    {
        if t {
            g.push(RectTarget::Sides);
        } else if !Self::keyword_before_number(words, i + 1) {
            if let Some(x) = Self::find_next_number(words, i + 1) {
                d.side_x = Some(RectData::SideX(x));
                if !Self::keyword_before_number(words, x + 1) {
                    if let Some(y) = Self::find_next_number(words, x + 1) {
                        d.side_y = Some(RectData::SideY(y));
                        return i + 1;
                    }
                }
            }
        }
        i
    }

    fn on_distance(words: &Vec<String>, i: usize, t: bool, d: &mut TaskData, g: &mut Vec<RectTarget>) -> (j: usize)
        requires
            i < words@.len() < usize::MAX - 16,
        ensures
            (j as int, t, *final(d), final(g)@) == arm_distance(texts(words@), i as int, t, *old(d), old(g)@),
            i <= j <= words@.len() + 1,
    {
        if t {
            g.push(RectTarget::SideDistances);
        } else if let Some(d1) = Self::find_next_number(words, i + 1) {
            if let Some(d2) = Self::find_next_number(words, d1 + 1) {
                d.side_distances = Some(RectData::SideDistances(d1, d2));
                return d1;
            }
        }
        i
    }

    fn on_radius(words: &Vec<String>, i: usize, t: bool, d: &mut TaskData, g: &mut Vec<RectTarget>) -> (j: usize)
        requires
            i < words@.len() < usize::MAX - 16,
        ensures
            (j as int, t, *final(d), final(g)@) == arm_radius(texts(words@), i as int, t, *old(d), old(g)@),
            i <= j <= words@.len() + 1,
    {
        if t {
            g.push(RectTarget::CircumscribedCircleRadius);
        } else if let Some(r) = Self::find_next_number(words, i + 1) {
            d.radius = Some(RectData::CircumscribedCircleRadius(r));
        }
        i
    }

    fn on_diameter(words: &Vec<String>, i: usize, t: bool, d: &mut TaskData, g: &mut Vec<RectTarget>) -> (j: usize)
        requires
            i < words@.len() < usize::MAX - 16,
        ensures
            (j as int, t, *final(d), final(g)@) == arm_diameter(texts(words@), i as int, t, *old(d), old(g)@),
            i <= j <= words@.len() + 1,
    {
        if t {
            g.push(RectTarget::CircumscribedCircleDiameter);
        } else if let Some(r) = Self::find_next_number(words, i + 1) {
            d.diameter = Some(RectData::CircumscribedCircleRadius(r));
        }
        i
    }

    fn on_length(words: &Vec<String>, i: usize, t: bool, d: &mut TaskData, g: &mut Vec<RectTarget>) -> (j: usize)
        requires
            i < words@.len() < usize::MAX - 16,
        ensures
            (j as int, t, *final(d), final(g)@) == arm_length(texts(words@), i as int, t, *old(d), old(g)@),
            i <= j <= words@.len() + 1,
    {
        if t {
            g.push(RectTarget::CircumscribedCirclePerimeter);
        } else if let Some(r) = Self::find_next_number(words, i + 1) {
            d.circle_radius = Some(RectData::CircumscribedCircleRadius(r));
        }
        i
    }

    fn on_circle(words: &Vec<String>, i: usize, t: bool, d: &mut TaskData, g: &mut Vec<RectTarget>) -> (j: usize)
        requires
            i < words@.len() < usize::MAX - 16,
        ensures
            (j as int, t, *final(d), final(g)@) == arm_circle(texts(words@), i as int, t, *old(d), old(g)@),
            i <= j <= words@.len() + 1,
    {
        if Self::word_before_next_data("площа", words, i + 1) {
            if t {
                g.push(RectTarget::CircumscribedCircleArea);
                return i + 2;
            } else if let Some(s) = Self::find_next_number(words, i + 1) {
                d.circle_area = Some(RectData::CircumscribedCircleArea(s));
                return s;
            }
        }
        i
    }
}


impl GeometryTaskAnalyser {
    fn on_word(words: &Vec<String>, i: usize, t: &mut bool, d: &mut TaskData, g: &mut Vec<RectTarget>) -> (j: usize)
        requires
            i < words@.len() < usize::MAX - 16,
        ensures
            (j as int, *final(t), *final(d), final(g)@) == task_word(texts(words@), i as int, *old(t), *old(d), old(g)@),
            i <= j <= words@.len() + 1,
    {
        let ghost ws = texts(words@);
        assert(ws[i as int] == words@[i as int]@);
        let w = &words[i];
        let tv = *t;
        if is_word(w, "периметр") {
            Self::on_perimeter(words, i, tv, d, g)
        } else if is_word(w, "площа") {
            Self::on_area(words, i, tv, d, g)
        } else if is_word(w, "діагональ") {
            Self::on_diagonal(words, i, tv, d, g)
        } else if is_word(w, "відноситися") || is_word(w, "співвідношення") || is_word(w, "відношення") {
            Self::on_ratio(words, i, tv, d, g)
        } else if is_word(w, "кут") {
            Self::on_angle(words, i, tv, d, g)
        } else if is_word(w, "менший") {
            Self::on_smaller(words, i, tv, d, g)
        } else if is_word(w, "більший") {
            Self::on_bigger(words, i, tv, d, g)
        } else if is_word(w, "сторона") {
            Self::on_side(words, i, tv, d, g)
        } else if is_word(w, "відстань") {
            Self::on_distance(words, i, tv, d, g)
        } else if is_word(w, "радіус") {
            Self::on_radius(words, i, tv, d, g)
        } else if is_word(w, "діаметер") {
            Self::on_diameter(words, i, tv, d, g)
        } else if is_word(w, "довжина") {
            Self::on_length(words, i, tv, d, g)
        } else if is_word(w, "коло") {
            Self::on_circle(words, i, tv, d, g)
        } else if is_word(w, "обчислити") || is_word(w, "знайти") {
            *t = true;
            i
        } else {
            i
        }
    }

    /// Reads a problem's significant words: what it gives and, from a word
    /// `обчислити` or `знайти` on, what it asks for.
    pub fn get_task_data(significant_words: Vec<String>) -> (r: (TaskData, Vec<RectTarget>))
        requires
            significant_words@.len() < usize::MAX - 16,
        ensures
            (r.0, r.1@) == task_of(texts(significant_words@)),
    {
        let words = significant_words;
        let ghost ws = texts(words@);
        let mut data = TaskData {
            bigger_side: None,
            smaller_side: None,
            diagonal: None,
            perimeter: None,
            area: None,
            angle: None,
            ratio: None,
            side_x: None,
            side_y: None,
            side_distances: None,
            diagonal_angle: None,
            side_diagonal_angle: None,
            radius: None,
            diameter: None,
            circle_area: None,
            circle_perimeter: None,
            circle_radius: None,
        };
        let mut targets: Vec<RectTarget> = Vec::new();
        let mut in_target = false;
        let mut i: usize = 0;
        assert(targets@ =~= Seq::<RectTarget>::empty());
        while i < words.len()
            invariant
                ws == texts(words@),
                ws.len() == words@.len(),
                words@.len() < usize::MAX - 16,
                i <= words@.len() + 2,
                task_scan(ws, (i as int, in_target, data, targets@)) == task_scan(
                    ws,
                    (0, false, empty_task_data(), Seq::empty()),
                ),
            decreases words@.len() + 2 - i,
        {
            let ghost before = (i as int, in_target, data, targets@);
            let j = Self::on_word(&words, i, &mut in_target, &mut data, &mut targets);
            i = j + 1;
            assert(task_scan(ws, before) == task_scan(ws, (i as int, in_target, data, targets@)));
        }
        (data, targets)
    }
}

fn keyword_pairs() -> (t: Vec<(&'static str, &'static str)>)
    ensures
        t@.map_values(|p: (&str, &str)| (p.0@, p.1@)) == keyword_table(),
{
    let t = vec![
        ("периметр", "perimeter"),
        ("площа", "area"),
        ("діагональ", "diagonal"),
        ("кут", "angle"),
        ("менша сторона", "smaller_side"),
        ("більша сторона", "bigger_side"),
    ];
    assert(t@.map_values(|p: (&str, &str)| (p.0@, p.1@)) =~= keyword_table());
    t
}

fn keyword_hit_count(w: &String) -> (n: usize)
    ensures
        n == keyword_hits(keyword_table(), w@),
{
    let t = keyword_pairs();
    let ghost tv = t@.map_values(|p: (&str, &str)| (p.0@, p.1@));
    let mut n: usize = 0;
    let mut i: usize = 0;
    while i < t.len()
        invariant
            i <= t.len(),
            tv == t@.map_values(|p: (&str, &str)| (p.0@, p.1@)),
            tv == keyword_table(),
            n == keyword_hits(tv.take(i as int), w@),
            n <= i,
        decreases t.len() - i,
    {
        let (a, b) = t[i];
        assert(tv.take(i + 1).drop_last() =~= tv.take(i as int));
        if is_word(w, a) || is_word(w, b) {
            n = n + 1;
        }
        i = i + 1;
    }
    assert(tv.take(t.len() as int) =~= tv);
    n
}


/// How a side length compares with zero; `Undefined` is a value that
/// compares neither way (not a number).
#[derive(Clone, Copy, Debug, PartialEq, Eq, Structural)]
pub enum SideClass {
    Negative,
    Zero,
    Positive,
    Undefined,
}

/// What the planner reads of a rectangle: which quantities are recorded,
/// and how its two sides compare with zero.
pub struct RectState {
    pub known: Vec<RectTraitKey>,
    pub width: SideClass,
    pub height: SideClass,
}

/// The derivations a solver can perform on a rectangle.
#[derive(Clone, Copy, Debug, PartialEq, Eq, Structural)]
pub enum RectOp {
    Perimeter,
    Area,
    Diagonal,
    FindPerimeterByArea,
    FindPerimeterByDiagonal,
    FindAreaByPerimeter,
    FindAreaByDiagonal,
    DiagonalFromRadiusOrDiameter,
    FindDiagonalByDiagonalsAngleAndArea,
    FindDiagonalByPerimeter,
    FindDiagonalByArea,
    FindSidesBySideDistances,
    FindSideByPerimeter,
    FindSidesFromAreaAndDiagonal,
    FindSideByArea,
    FindSideByDiagonal,
    FindDiagonalByAngleAndSide,
    CalculateSideDistances,
    AngleBetweenSideAndDiagonal,
    AngleBetweenDiagonals,
    FindBiggerSmallerSide,
    CircumscribedCircleRadius,
    FindRadiusByCirclePerimeter,
    FindRadiusByCircleArea,
    CircumscribedCircleDiameter,
    CircumscribedCircleArea,
    CircumscribedCirclePerimeter,
}

/// One decision of the planner about the first asked quantity.
#[derive(Clone, Copy, Debug)]
pub enum PlanStep {
    /// The first asked quantity is settled: `op` derives it (none when it is
    /// already known) and `note`, when present, describes the step.
    Resolved { op: Option<RectOp>, note: Option<&'static str> },
    /// This quantity has to be found first.
    Requires(RectTarget),
    /// Nothing is known from which the sides could be found.
    GiveUp,
    /// No rule applies; the asked quantities stay as they are.
    Stalled,
}

/// Which way the sides are found from a given ratio.
#[derive(Clone, Copy, Debug, PartialEq, Eq, Structural)]
pub enum RatioMethod {
    FromPerimeter,
    FromDiagonal,
    FromOneSide,
}

pub open spec fn nonzero(c: SideClass) -> bool {
    c != SideClass::Zero
}

pub open spec fn positive(c: SideClass) -> bool {
    c == SideClass::Positive
}

pub open spec fn nonpositive(c: SideClass) -> bool {
    c == SideClass::Negative || c == SideClass::Zero
}

pub open spec fn done(op: RectOp, note: &'static str) -> PlanStep {
    PlanStep::Resolved { op: Some(op), note: Some(note) }
}

/// The planner's rule for the first asked quantity `head`, given the known
/// quantities `k` and the classes `w`, `h` of the two sides.
pub open spec fn plan(head: RectTarget, k: Seq<RectTraitKey>, w: SideClass, h: SideClass) -> PlanStep {
    let sides_known = nonzero(w) && nonzero(h);
    let one_side = positive(w) || positive(h);
    match head {
        RectTarget::Perimeter => if k.contains(RectTraitKey::Perimeter) {
            PlanStep::Resolved { op: None, note: Some("Perimeter is already known") }
        } else if sides_known {
            done(RectOp::Perimeter, "Found perimeter using sides")
        } else if one_side && k.contains(RectTraitKey::Area) {
            done(RectOp::FindPerimeterByArea, "Found perimeter using side and area")
        } else if one_side && k.contains(RectTraitKey::Diagonal) {
            done(RectOp::FindPerimeterByDiagonal, "Found perimeter using side and diagonal")
        } else {
            PlanStep::Requires(RectTarget::Sides)
        },
        RectTarget::Area => if k.contains(RectTraitKey::Area) {
            PlanStep::Resolved { op: None, note: Some("Area is already known") }
        } else if sides_known {
            done(RectOp::Area, "Found area using sides")
        } else if one_side && k.contains(RectTraitKey::Perimeter) {
            done(RectOp::FindAreaByPerimeter, "Found area using side and perimeter")
        } else if one_side && k.contains(RectTraitKey::Diagonal) {
            done(RectOp::FindAreaByDiagonal, "Found area using side and diagonal")
        } else {
            PlanStep::Requires(RectTarget::Sides)
        },
        RectTarget::Diagonal => if k.contains(RectTraitKey::Diagonal) {
            PlanStep::Resolved { op: None, note: Some("Diagonal is already known") }
        } else if sides_known {
            done(RectOp::Diagonal, "Found diagonal using sides")
        } else if k.contains(RectTraitKey::CircumscribedCircleRadius) || k.contains(
            RectTraitKey::CircumscribedCircleDiameter,
        ) {
            done(RectOp::DiagonalFromRadiusOrDiameter, "Found diagonal using circumscribed circle radius")
        } else if k.contains(RectTraitKey::CircumscribedCircleArea) || k.contains(
            RectTraitKey::CircumscribedCirclePerimeter,
        ) {
            PlanStep::Requires(RectTarget::CircumscribedCircleRadius)
        } else if k.contains(RectTraitKey::DiagonalDiagonalAngle) && k.contains(RectTraitKey::Area) {
            done(
                RectOp::FindDiagonalByDiagonalsAngleAndArea,
                "Found diagonal using angle between diagonals and area",
            )
        } else if one_side && k.contains(RectTraitKey::Perimeter) {
            done(RectOp::FindDiagonalByPerimeter, "Found diagonal using side and perimeter")
        } else if one_side && k.contains(RectTraitKey::Area) {
            done(RectOp::FindDiagonalByArea, "Found diagonal using side and area")
        } else {
            PlanStep::Requires(RectTarget::Sides)
        },
        RectTarget::Sides => if k.contains(RectTraitKey::SideDistances) {
            done(
                RectOp::FindSidesBySideDistances,
                "Found sides using distances from diagonal intersection point",
            )
        } else if k.contains(RectTraitKey::Perimeter) {
            done(RectOp::FindSideByPerimeter, "Found sides using side and perimeter")
        } else if k.contains(RectTraitKey::Area) {
            if nonpositive(w) && nonpositive(h) {
                if k.contains(RectTraitKey::Diagonal) {
                    done(RectOp::FindSidesFromAreaAndDiagonal, "Found sides using area and diagonal")
                } else {
                    PlanStep::Stalled
                }
            } else {
                done(RectOp::FindSideByArea, "Found sides using side and area")
            }
        } else if k.contains(RectTraitKey::Diagonal) {
            done(RectOp::FindSideByDiagonal, "Found sides using side and diagonal")
        } else if k.contains(RectTraitKey::DiagonalDiagonalAngle) && (k.contains(RectTraitKey::SmallerSide) || k.contains(
            RectTraitKey::BiggerSide,
        )) {
            done(
                RectOp::FindDiagonalByAngleAndSide,
                "Found sides using side and angle between diagonal and side",
            )
        } else if k.contains(RectTraitKey::CircumscribedCircleRadius) || k.contains(
            RectTraitKey::CircumscribedCircleDiameter,
        ) {
            PlanStep::Requires(RectTarget::Diagonal)
        } else {
            PlanStep::GiveUp
        },
        RectTarget::SideDistances => if sides_known {
            done(RectOp::CalculateSideDistances, "Found distances from intersection point using sides")
        } else {
            PlanStep::Requires(RectTarget::Sides)
        },
        RectTarget::SideXDiagonalAngle => if !k.contains(RectTraitKey::Diagonal) {
            PlanStep::Requires(RectTarget::Diagonal)
        } else if sides_known {
            done(RectOp::AngleBetweenSideAndDiagonal, "Found angle between diagonal and side")
        } else {
            PlanStep::Requires(RectTarget::Sides)
        },
        RectTarget::DiagonalDiagonalAngle => if !k.contains(RectTraitKey::Diagonal) {
            PlanStep::Requires(RectTarget::Diagonal)
        } else if k.contains(RectTraitKey::Area) {
            done(RectOp::AngleBetweenDiagonals, "Found intersection angle between diagonals")
        } else {
            PlanStep::Requires(RectTarget::Area)
        },
        RectTarget::SmallerSide => if k.contains(RectTraitKey::SmallerSide) {
            PlanStep::Resolved { op: None, note: None }
        } else if sides_known {
            done(RectOp::FindBiggerSmallerSide, "Found smaller side")
        } else {
            PlanStep::Requires(RectTarget::Sides)
        },
        RectTarget::BiggerSide => if k.contains(RectTraitKey::BiggerSide) {
            PlanStep::Resolved { op: None, note: None }
        } else if sides_known {
            done(RectOp::FindBiggerSmallerSide, "Found bigger side")
        } else {
            PlanStep::Requires(RectTarget::Sides)
        },
        RectTarget::CircumscribedCircleRadius => if k.contains(RectTraitKey::CircumscribedCircleRadius) {
            PlanStep::Resolved { op: None, note: None }
        } else if k.contains(RectTraitKey::Diagonal) || k.contains(RectTraitKey::CircumscribedCircleDiameter) {
            done(
                RectOp::CircumscribedCircleRadius,
                "Found circumscribed circle radius using diagonal/diameter",
            )
        } else if k.contains(RectTraitKey::CircumscribedCirclePerimeter) {
            done(
                RectOp::FindRadiusByCirclePerimeter,
                "Found circumscribed circle radius using its perimeter",
            )
        } else if k.contains(RectTraitKey::CircumscribedCircleArea) {
            done(RectOp::FindRadiusByCircleArea, "Found circumscribed circle radius using its area")
        } else {
            PlanStep::Requires(RectTarget::Diagonal)
        },
        RectTarget::CircumscribedCircleDiameter => if k.contains(RectTraitKey::CircumscribedCircleDiameter) {
            PlanStep::Resolved { op: None, note: None }
        } else if k.contains(RectTraitKey::Diagonal) || k.contains(RectTraitKey::CircumscribedCircleRadius) {
            done(
                RectOp::CircumscribedCircleDiameter,
                "Found circumscribed circle diameter using its radius/rectangle diagonal",
            )
        } else {
            PlanStep::Requires(RectTarget::Diagonal)
        },
        RectTarget::CircumscribedCircleArea => if k.contains(RectTraitKey::CircumscribedCircleArea) {
            PlanStep::Resolved { op: None, note: None }
        } else if k.contains(RectTraitKey::CircumscribedCircleRadius) {
            done(RectOp::CircumscribedCircleArea, "Found circumscribed circle area using its radius")
        } else {
            PlanStep::Requires(RectTarget::CircumscribedCircleRadius)
        },
        RectTarget::CircumscribedCirclePerimeter => if k.contains(
            RectTraitKey::CircumscribedCirclePerimeter,
        ) {
            PlanStep::Resolved { op: None, note: None }
        } else if k.contains(RectTraitKey::CircumscribedCircleRadius) {
            done(
                RectOp::CircumscribedCirclePerimeter,
                "Found circumscribed circle perimeter using its radius",
            )
        } else {
            PlanStep::Requires(RectTarget::CircumscribedCircleRadius)
        },
        RectTarget::SideYDiagonalAngle => PlanStep::Stalled,
    }
}

/// The asked quantities after a planner decision.
pub open spec fn after_step(g: Seq<RectTarget>, step: PlanStep) -> Seq<RectTarget> {
    match step {
        PlanStep::Resolved { .. } => g.drop_first(),
        PlanStep::Requires(t) => seq![t] + g,
        _ => g,
    }
}

/// The asked quantities once a step is over: an emptied list on a
/// rectangle with a zero side asks for the sides again.
pub open spec fn settled(g: Seq<RectTarget>, w: SideClass, h: SideClass) -> Seq<RectTarget> {
    if g.len() == 0 && (w == SideClass::Zero || h == SideClass::Zero) {
        seq![RectTarget::Sides]
    } else {
        g
    }
}

/// The recorded quantity that an asked quantity names, if there is one.
pub open spec fn target_key(t: RectTarget) -> Option<RectTraitKey> {
    match t {
        RectTarget::Sides => None,
        RectTarget::Perimeter => Some(RectTraitKey::Perimeter),
        RectTarget::Area => Some(RectTraitKey::Area),
        RectTarget::Diagonal => Some(RectTraitKey::Diagonal),
        RectTarget::DiagonalDiagonalAngle => Some(RectTraitKey::DiagonalDiagonalAngle),
        RectTarget::SideXDiagonalAngle => Some(RectTraitKey::SideXDiagonalAngle),
        RectTarget::SideYDiagonalAngle => Some(RectTraitKey::SideYDiagonalAngle),
        RectTarget::SmallerSide => Some(RectTraitKey::SmallerSide),
        RectTarget::BiggerSide => Some(RectTraitKey::BiggerSide),
        RectTarget::SideDistances => Some(RectTraitKey::SideDistances),
        RectTarget::CircumscribedCircleRadius => Some(RectTraitKey::CircumscribedCircleRadius),
        RectTarget::CircumscribedCircleDiameter => Some(RectTraitKey::CircumscribedCircleDiameter),
        RectTarget::CircumscribedCircleArea => Some(RectTraitKey::CircumscribedCircleArea),
        RectTarget::CircumscribedCirclePerimeter => Some(RectTraitKey::CircumscribedCirclePerimeter),
    }
}

/// A planner decision never makes an asked quantity depend on itself: a
/// required quantity differs from the one being asked.
pub proof fn lemma_plan_requires_other(head: RectTarget, k: Seq<RectTraitKey>, w: SideClass, h: SideClass)
    ensures
        plan(head, k, w, h) matches PlanStep::Requires(t) ==> t != head,
{
}

/// A quantity is settled without any derivation only when it is already
/// recorded.
pub proof fn lemma_plan_no_op_only_when_known(head: RectTarget, k: Seq<RectTraitKey>, w: SideClass, h: SideClass)
    ensures
        plan(head, k, w, h) matches PlanStep::Resolved { op: None, .. } ==> (target_key(head) matches Some(key) && k.contains(key)),
{
}

/// The recorded quantities that a derivation produces.
pub open spec fn op_yields(op: RectOp) -> Seq<RectTraitKey> {
    match op {
        RectOp::Perimeter | RectOp::FindPerimeterByArea | RectOp::FindPerimeterByDiagonal => seq![
            RectTraitKey::Perimeter,
        ],
        RectOp::Area | RectOp::FindAreaByPerimeter | RectOp::FindAreaByDiagonal => seq![RectTraitKey::Area],
        RectOp::Diagonal | RectOp::DiagonalFromRadiusOrDiameter | RectOp::FindDiagonalByDiagonalsAngleAndArea
        | RectOp::FindDiagonalByPerimeter | RectOp::FindDiagonalByArea | RectOp::FindDiagonalByAngleAndSide => seq![
            RectTraitKey::Diagonal,
        ],
        RectOp::FindSidesBySideDistances | RectOp::FindSideByPerimeter | RectOp::FindSidesFromAreaAndDiagonal
        | RectOp::FindSideByArea | RectOp::FindSideByDiagonal => Seq::empty(),
        RectOp::CalculateSideDistances => seq![RectTraitKey::SideDistances],
        RectOp::AngleBetweenSideAndDiagonal => seq![RectTraitKey::SideXDiagonalAngle, RectTraitKey::SideYDiagonalAngle],
        RectOp::AngleBetweenDiagonals => seq![RectTraitKey::DiagonalDiagonalAngle],
        RectOp::FindBiggerSmallerSide => seq![RectTraitKey::SmallerSide, RectTraitKey::BiggerSide],
        RectOp::CircumscribedCircleRadius | RectOp::FindRadiusByCirclePerimeter | RectOp::FindRadiusByCircleArea => seq![
            RectTraitKey::CircumscribedCircleRadius,
        ],
        RectOp::CircumscribedCircleDiameter => seq![RectTraitKey::CircumscribedCircleDiameter],
        RectOp::CircumscribedCircleArea => seq![RectTraitKey::CircumscribedCircleArea],
        RectOp::CircumscribedCirclePerimeter => seq![RectTraitKey::CircumscribedCirclePerimeter],
    }
}

/// The recorded quantities that a derivation reads.
pub open spec fn op_needs(op: RectOp) -> Seq<RectTraitKey> {
    match op {
        RectOp::FindPerimeterByArea | RectOp::FindDiagonalByArea | RectOp::FindSideByArea => seq![RectTraitKey::Area],
        RectOp::FindPerimeterByDiagonal | RectOp::FindAreaByDiagonal | RectOp::FindSideByDiagonal
        | RectOp::AngleBetweenSideAndDiagonal => seq![RectTraitKey::Diagonal],
        RectOp::FindAreaByPerimeter | RectOp::FindDiagonalByPerimeter | RectOp::FindSideByPerimeter => seq![
            RectTraitKey::Perimeter,
        ],
        RectOp::FindDiagonalByDiagonalsAngleAndArea => seq![RectTraitKey::DiagonalDiagonalAngle, RectTraitKey::Area],
        RectOp::FindSidesBySideDistances => seq![RectTraitKey::SideDistances],
        RectOp::FindSidesFromAreaAndDiagonal | RectOp::AngleBetweenDiagonals => seq![
            RectTraitKey::Area,
            RectTraitKey::Diagonal,
        ],
        RectOp::FindDiagonalByAngleAndSide => seq![RectTraitKey::DiagonalDiagonalAngle],
        RectOp::FindRadiusByCirclePerimeter => seq![RectTraitKey::CircumscribedCirclePerimeter],
        RectOp::FindRadiusByCircleArea => seq![RectTraitKey::CircumscribedCircleArea],
        RectOp::CircumscribedCircleArea | RectOp::CircumscribedCirclePerimeter => seq![
            RectTraitKey::CircumscribedCircleRadius,
        ],
        _ => Seq::empty(),
    }
}

/// Derivations that compute from both sides.
pub open spec fn needs_both_sides(op: RectOp) -> bool {
    op == RectOp::Perimeter || op == RectOp::Area || op == RectOp::Diagonal || op == RectOp::CalculateSideDistances
        || op == RectOp::AngleBetweenSideAndDiagonal || op == RectOp::FindBiggerSmallerSide
}

/// A settled step derives what was asked, from what is known: the
/// derivation produces the asked quantity, every quantity it reads is
/// recorded, and one that computes from the sides runs only when both are
/// nonzero.  When the perimeter, area or diagonal is asked, is not known,
/// and both sides are nonzero, it is computed from the sides.
pub proof fn lemma_plan_derives_what_is_asked(head: RectTarget, k: Seq<RectTraitKey>, w: SideClass, h: SideClass)
    ensures
        plan(head, k, w, h) matches PlanStep::Resolved { op: Some(op), .. } ==> {
            &&& target_key(head) matches Some(key) ==> op_yields(op).contains(key)
            &&& forall|j: int| 0 <= j < op_needs(op).len() ==> k.contains(#[trigger] op_needs(op)[j])
            &&& needs_both_sides(op) ==> nonzero(w) && nonzero(h)
        },
        head == RectTarget::Perimeter && !k.contains(RectTraitKey::Perimeter) && nonzero(w) && nonzero(h)
            ==> plan(head, k, w, h) == done(RectOp::Perimeter, "Found perimeter using sides"),
        head == RectTarget::Area && !k.contains(RectTraitKey::Area) && nonzero(w) && nonzero(h)
            ==> plan(head, k, w, h) == done(RectOp::Area, "Found area using sides"),
        head == RectTarget::Diagonal && !k.contains(RectTraitKey::Diagonal) && nonzero(w) && nonzero(h)
            ==> plan(head, k, w, h) == done(RectOp::Diagonal, "Found diagonal using sides"),
{
    if let PlanStep::Resolved { op: Some(op), .. } = plan(head, k, w, h) {
        let ys = op_yields(op);
        let ns = op_needs(op);
        if ys.len() > 0 {
            assert(ys.contains(ys[0]));
        }
        if ys.len() > 1 {
            assert(ys.contains(ys[1]));
        }
        assert forall|j: int| 0 <= j < ns.len() implies k.contains(#[trigger] ns[j]) by {
            if j == 0 {
            } else {
            }
        }
    }
}

/// A given diagonal is recorded as the diagonal: outside the asked part,
/// at the word `діагональ` with no side, `вона` or `перетинатися` before the
/// next number, the step records the next number's position in the
/// diagonal slot and changes nothing else.
pub proof fn lemma_given_diagonal(ws: Seq<Seq<char>>, i: int, d: TaskData, g: Seq<RectTarget>)
    requires
        0 <= i < ws.len(),
        ws[i] == "діагональ"@,
        !word_before_number("сторона"@, ws, i + 1),
        !word_before_number("вона"@, ws, i + 1),
        !word_before_number("перетинатися"@, ws, i + 1),
    ensures
        task_word(ws, i, false, d, g) == match next_number(ws, i + 1) {
            Some(k) => (i, false, TaskData { diagonal: Some(RectData::Diagonal(k as usize)), ..d }, g),
            None => (i, false, d, g),
        },
{
    lemma_keyword_check_never_fires(ws, i + 1);
    reveal_strlit("діагональ");
    reveal_strlit("периметр");
    reveal_strlit("площа");
    assert("діагональ"@[0] != "периметр"@[0]);
    assert("діагональ"@ != "периметр"@);
    assert("діагональ"@ != "площа"@);
    assert(task_word(ws, i, false, d, g) == arm_diagonal(ws, i, false, d, g));
}

/// The ratio rule: with a known perimeter the sides come from it, else from
/// a known diagonal, else from one known side.
pub open spec fn ratio_method_of(task: TaskData) -> Option<RatioMethod> {
    match task.ratio {
        Some(RectData::Ratio(_, _)) => Some(
            if task.perimeter matches Some(RectData::Perimeter(_)) {
                RatioMethod::FromPerimeter
            } else if task.diagonal matches Some(RectData::Diagonal(_)) {
                RatioMethod::FromDiagonal
            } else {
                RatioMethod::FromOneSide
            },
        ),
        _ => None,
    }
}

/// The recorded quantity that a given datum states, for the kinds of datum
/// that are recorded as such when solving starts.
pub open spec fn data_key(d: RectData) -> Option<RectTraitKey> {
    match d {
        RectData::Perimeter(_) => Some(RectTraitKey::Perimeter),
        RectData::Area(_) => Some(RectTraitKey::Area),
        RectData::Diagonal(_) => Some(RectTraitKey::Diagonal),
        RectData::SideDistances(_, _) => Some(RectTraitKey::SideDistances),
        RectData::BiggerSide(_) => Some(RectTraitKey::BiggerSide),
        RectData::SmallerSide(_) => Some(RectTraitKey::SmallerSide),
        RectData::CircumscribedCircleDiameter(_) => Some(RectTraitKey::CircumscribedCircleDiameter),
        RectData::CircumscribedCircleArea(_) => Some(RectTraitKey::CircumscribedCircleArea),
        RectData::CircumscribedCirclePerimeter(_) => Some(RectTraitKey::CircumscribedCirclePerimeter),
        RectData::CircumscribedCircleRadius(_) => Some(RectTraitKey::CircumscribedCircleRadius),
        RectData::DiagonalDiagonalAngle(_) => Some(RectTraitKey::DiagonalDiagonalAngle),
        _ => None,
    }
}

/// The slot's datum, recorded as `key`, when the slot holds a datum of
/// that kind.
pub open spec fn slot_entry(key: RectTraitKey, slot: Option<RectData>) -> Seq<(RectTraitKey, RectData)> {
    match slot {
        Some(d) => if data_key(d) == Some(key) {
            seq![(key, d)]
        } else {
            Seq::empty()
        },
        None => Seq::empty(),
    }
}

/// The quantities recorded when solving starts, each with the datum that
/// gives its value, in the order they are recorded.  A diameter is only
/// recorded when its slot holds a diameter datum.
pub open spec fn initial_known_of(task: TaskData) -> Seq<(RectTraitKey, RectData)> {
    slot_entry(RectTraitKey::Perimeter, task.perimeter)
        + slot_entry(RectTraitKey::Area, task.area)
        + slot_entry(RectTraitKey::Diagonal, task.diagonal)
        + slot_entry(RectTraitKey::SideDistances, task.side_distances)
        + slot_entry(RectTraitKey::BiggerSide, task.bigger_side)
        + slot_entry(RectTraitKey::SmallerSide, task.smaller_side)
        + slot_entry(RectTraitKey::CircumscribedCircleDiameter, task.diameter)
        + slot_entry(RectTraitKey::CircumscribedCircleArea, task.circle_area)
        + slot_entry(RectTraitKey::CircumscribedCirclePerimeter, task.circle_perimeter)
        + slot_entry(RectTraitKey::CircumscribedCircleRadius, task.radius)
        + slot_entry(RectTraitKey::DiagonalDiagonalAngle, task.diagonal_angle)
}

fn data_key_of(d: RectData) -> (r: Option<RectTraitKey>)
    ensures
        r == data_key(d),
{
    match d {
        RectData::Perimeter(_) => Some(RectTraitKey::Perimeter),
        RectData::Area(_) => Some(RectTraitKey::Area),
        RectData::Diagonal(_) => Some(RectTraitKey::Diagonal),
        RectData::SideDistances(_, _) => Some(RectTraitKey::SideDistances),
        RectData::BiggerSide(_) => Some(RectTraitKey::BiggerSide),
        RectData::SmallerSide(_) => Some(RectTraitKey::SmallerSide),
        RectData::CircumscribedCircleDiameter(_) => Some(RectTraitKey::CircumscribedCircleDiameter),
        RectData::CircumscribedCircleArea(_) => Some(RectTraitKey::CircumscribedCircleArea),
        RectData::CircumscribedCirclePerimeter(_) => Some(RectTraitKey::CircumscribedCirclePerimeter),
        RectData::CircumscribedCircleRadius(_) => Some(RectTraitKey::CircumscribedCircleRadius),
        RectData::DiagonalDiagonalAngle(_) => Some(RectTraitKey::DiagonalDiagonalAngle),
        _ => None,
    }
}

fn push_slot(v: &mut Vec<(RectTraitKey, RectData)>, key: RectTraitKey, slot: Option<RectData>)
    ensures
        final(v)@ == old(v)@ + slot_entry(key, slot),
{
    if let Some(d) = slot {
        if data_key_of(d) == Some(key) {
            v.push((key, d));
            assert(v@ =~= old(v)@ + seq![(key, d)]);
            return;
        }
    }
    assert(v@ =~= old(v)@ + Seq::<(RectTraitKey, RectData)>::empty());
}

fn knows(known: &Vec<RectTraitKey>, key: RectTraitKey) -> (r: bool)
    ensures
        r == known@.contains(key),
{
    let mut i: usize = 0;
    while i < known.len()
        invariant
            i <= known.len(),
            forall|j: int| 0 <= j < i ==> known@[j] != key,
        decreases known.len() - i,
    {
        if known[i] == key {
            return true;
        }
        i = i + 1;
    }
    false
}

fn is_nonzero(c: SideClass) -> (r: bool)
    ensures
        r == nonzero(c),
{
    c != SideClass::Zero
}

fn is_positive(c: SideClass) -> (r: bool)
    ensures
        r == positive(c),
{
    c == SideClass::Positive
}

fn is_nonpositive(c: SideClass) -> (r: bool)
    ensures
        r == nonpositive(c),
{
    c == SideClass::Negative || c == SideClass::Zero
}


impl Solver {
    fn decide(head: RectTarget, state: &RectState) -> (step: PlanStep)
        ensures
            step == plan(head, state.known@, state.width, state.height),
    {
        let k = &state.known;
        let w = state.width;
        let h = state.height;
        let sides_known = is_nonzero(w) && is_nonzero(h);
        let one_side = is_positive(w) || is_positive(h);
        match head {
            RectTarget::Perimeter => if knows(k, RectTraitKey::Perimeter) {
                PlanStep::Resolved { op: None, note: Some("Perimeter is already known") }
            } else if sides_known {
                PlanStep::Resolved { op: Some(RectOp::Perimeter), note: Some("Found perimeter using sides") }
            } else if one_side && knows(k, RectTraitKey::Area) {
                PlanStep::Resolved { op: Some(RectOp::FindPerimeterByArea), note: Some("Found perimeter using side and area") }
            } else if one_side && knows(k, RectTraitKey::Diagonal) {
                PlanStep::Resolved { op: Some(RectOp::FindPerimeterByDiagonal), note: Some("Found perimeter using side and diagonal") }
            } else {
                PlanStep::Requires(RectTarget::Sides)
            },
            RectTarget::Area => if knows(k, RectTraitKey::Area) {
                PlanStep::Resolved { op: None, note: Some("Area is already known") }
            } else if sides_known {
                PlanStep::Resolved { op: Some(RectOp::Area), note: Some("Found area using sides") }
            } else if one_side && knows(k, RectTraitKey::Perimeter) {
                PlanStep::Resolved { op: Some(RectOp::FindAreaByPerimeter), note: Some("Found area using side and perimeter") }
            } else if one_side && knows(k, RectTraitKey::Diagonal) {
                PlanStep::Resolved { op: Some(RectOp::FindAreaByDiagonal), note: Some("Found area using side and diagonal") }
            } else {
                PlanStep::Requires(RectTarget::Sides)
            },
            RectTarget::Diagonal => if knows(k, RectTraitKey::Diagonal) {
                PlanStep::Resolved { op: None, note: Some("Diagonal is already known") }
            } else if sides_known {
                PlanStep::Resolved { op: Some(RectOp::Diagonal), note: Some("Found diagonal using sides") }
            } else if knows(k, RectTraitKey::CircumscribedCircleRadius) || knows(k, RectTraitKey::CircumscribedCircleDiameter) {
                PlanStep::Resolved { op: Some(RectOp::DiagonalFromRadiusOrDiameter), note: Some("Found diagonal using circumscribed circle radius") }
            } else if knows(k, RectTraitKey::CircumscribedCircleArea) || knows(k, RectTraitKey::CircumscribedCirclePerimeter) {
                PlanStep::Requires(RectTarget::CircumscribedCircleRadius)
            } else if knows(k, RectTraitKey::DiagonalDiagonalAngle) && knows(k, RectTraitKey::Area) {
                PlanStep::Resolved { op: Some(RectOp::FindDiagonalByDiagonalsAngleAndArea), note: Some("Found diagonal using angle between diagonals and area") }
            } else if one_side && knows(k, RectTraitKey::Perimeter) {
                PlanStep::Resolved { op: Some(RectOp::FindDiagonalByPerimeter), note: Some("Found diagonal using side and perimeter") }
            } else if one_side && knows(k, RectTraitKey::Area) {
                PlanStep::Resolved { op: Some(RectOp::FindDiagonalByArea), note: Some("Found diagonal using side and area") }
            } else {
                PlanStep::Requires(RectTarget::Sides)
            },
            RectTarget::Sides => if knows(k, RectTraitKey::SideDistances) {
                PlanStep::Resolved { op: Some(RectOp::FindSidesBySideDistances), note: Some("Found sides using distances from diagonal intersection point") }
            } else if knows(k, RectTraitKey::Perimeter) {
                PlanStep::Resolved { op: Some(RectOp::FindSideByPerimeter), note: Some("Found sides using side and perimeter") }
            } else if knows(k, RectTraitKey::Area) {
                if is_nonpositive(w) && is_nonpositive(h) {
                    if knows(k, RectTraitKey::Diagonal) {
                        PlanStep::Resolved { op: Some(RectOp::FindSidesFromAreaAndDiagonal), note: Some("Found sides using area and diagonal") }
                    } else {
                        PlanStep::Stalled
                    }
                } else {
                    PlanStep::Resolved { op: Some(RectOp::FindSideByArea), note: Some("Found sides using side and area") }
                }
            } else if knows(k, RectTraitKey::Diagonal) {
                PlanStep::Resolved { op: Some(RectOp::FindSideByDiagonal), note: Some("Found sides using side and diagonal") }
            } else if knows(k, RectTraitKey::DiagonalDiagonalAngle) && (knows(k, RectTraitKey::SmallerSide) || knows(k, RectTraitKey::BiggerSide)) {
                PlanStep::Resolved { op: Some(RectOp::FindDiagonalByAngleAndSide), note: Some("Found sides using side and angle between diagonal and side") }
            } else if knows(k, RectTraitKey::CircumscribedCircleRadius) || knows(k, RectTraitKey::CircumscribedCircleDiameter) {
                PlanStep::Requires(RectTarget::Diagonal)
            } else {
                PlanStep::GiveUp
            },
            RectTarget::SideDistances => if sides_known {
                PlanStep::Resolved { op: Some(RectOp::CalculateSideDistances), note: Some("Found distances from intersection point using sides") }
            } else {
                PlanStep::Requires(RectTarget::Sides)
            },
            RectTarget::SideXDiagonalAngle => if !knows(k, RectTraitKey::Diagonal) {
                PlanStep::Requires(RectTarget::Diagonal)
            } else if sides_known {
                PlanStep::Resolved { op: Some(RectOp::AngleBetweenSideAndDiagonal), note: Some("Found angle between diagonal and side") }
            } else {
                PlanStep::Requires(RectTarget::Sides)
            },
            RectTarget::DiagonalDiagonalAngle => if !knows(k, RectTraitKey::Diagonal) {
                PlanStep::Requires(RectTarget::Diagonal)
            } else if knows(k, RectTraitKey::Area) {
                PlanStep::Resolved { op: Some(RectOp::AngleBetweenDiagonals), note: Some("Found intersection angle between diagonals") }
            } else {
                PlanStep::Requires(RectTarget::Area)
            },
            RectTarget::SmallerSide => if knows(k, RectTraitKey::SmallerSide) {
                PlanStep::Resolved { op: None, note: None }
            } else if sides_known {
                PlanStep::Resolved { op: Some(RectOp::FindBiggerSmallerSide), note: Some("Found smaller side") }
            } else {
                PlanStep::Requires(RectTarget::Sides)
            },
            RectTarget::BiggerSide => if knows(k, RectTraitKey::BiggerSide) {
                PlanStep::Resolved { op: None, note: None }
            } else if sides_known {
                PlanStep::Resolved { op: Some(RectOp::FindBiggerSmallerSide), note: Some("Found bigger side") }
            } else {
                PlanStep::Requires(RectTarget::Sides)
            },
            RectTarget::CircumscribedCircleRadius => if knows(k, RectTraitKey::CircumscribedCircleRadius) {
                PlanStep::Resolved { op: None, note: None }
            } else if knows(k, RectTraitKey::Diagonal) || knows(k, RectTraitKey::CircumscribedCircleDiameter) {
                PlanStep::Resolved { op: Some(RectOp::CircumscribedCircleRadius), note: Some("Found circumscribed circle radius using diagonal/diameter") }
            } else if knows(k, RectTraitKey::CircumscribedCirclePerimeter) {
                PlanStep::Resolved { op: Some(RectOp::FindRadiusByCirclePerimeter), note: Some("Found circumscribed circle radius using its perimeter") }
            } else if knows(k, RectTraitKey::CircumscribedCircleArea) {
                PlanStep::Resolved { op: Some(RectOp::FindRadiusByCircleArea), note: Some("Found circumscribed circle radius using its area") }
            } else {
                PlanStep::Requires(RectTarget::Diagonal)
            },
            RectTarget::CircumscribedCircleDiameter => if knows(k, RectTraitKey::CircumscribedCircleDiameter) {
                PlanStep::Resolved { op: None, note: None }
            } else if knows(k, RectTraitKey::Diagonal) || knows(k, RectTraitKey::CircumscribedCircleRadius) {
                PlanStep::Resolved { op: Some(RectOp::CircumscribedCircleDiameter), note: Some("Found circumscribed circle diameter using its radius/rectangle diagonal") }
            } else {
                PlanStep::Requires(RectTarget::Diagonal)
            },
            RectTarget::CircumscribedCircleArea => if knows(k, RectTraitKey::CircumscribedCircleArea) {
                PlanStep::Resolved { op: None, note: None }
            } else if knows(k, RectTraitKey::CircumscribedCircleRadius) {
                PlanStep::Resolved { op: Some(RectOp::CircumscribedCircleArea), note: Some("Found circumscribed circle area using its radius") }
            } else {
                PlanStep::Requires(RectTarget::CircumscribedCircleRadius)
            },
            RectTarget::CircumscribedCirclePerimeter => if knows(k, RectTraitKey::CircumscribedCirclePerimeter) {
                PlanStep::Resolved { op: None, note: None }
            } else if knows(k, RectTraitKey::CircumscribedCircleRadius) {
                PlanStep::Resolved { op: Some(RectOp::CircumscribedCirclePerimeter), note: Some("Found circumscribed circle perimeter using its radius") }
            } else {
                PlanStep::Requires(RectTarget::CircumscribedCircleRadius)
            },
            RectTarget::SideYDiagonalAngle => PlanStep::Stalled,
        }
    }

    /// Decides what to do about the first asked quantity and updates the
    /// list of asked quantities: a settled quantity leaves the list, a
    /// required one is put in front of it.
    pub fn plan_step(targets: &mut Vec<RectTarget>, state: &RectState) -> (step: PlanStep)
        requires
            old(targets)@.len() > 0,
        ensures
            step == plan(old(targets)@[0], state.known@, state.width, state.height),
            final(targets)@ == after_step(old(targets)@, step),
    {
        let head = targets[0];
        let step = Self::decide(head, state);
        match step {
            PlanStep::Resolved { .. } => {
                targets.remove(0);
                assert(targets@ =~= old(targets)@.drop_first());
            },
            PlanStep::Requires(t) => {
                targets.insert(0, t);
                assert(targets@ =~= seq![t] + old(targets)@);
            },
            _ => {},
        }
        step
    }

    /// Ends a step: when no quantity is asked any more but a side is zero,
    /// the sides are asked for.
    pub fn settle(targets: &mut Vec<RectTarget>, width: SideClass, height: SideClass)
        ensures
            final(targets)@ == settled(old(targets)@, width, height),
    {
        if targets.len() == 0 && (width == SideClass::Zero || height == SideClass::Zero) {
            targets.insert(0, RectTarget::Sides);
            assert(targets@ =~= seq![RectTarget::Sides]);
        }
    }

    /// The quantities recorded when solving starts, each with the datum
    /// that gives its value.
    pub fn initial_known(task: &TaskData) -> (r: Vec<(RectTraitKey, RectData)>)
        ensures
            r@ == initial_known_of(*task),
    {
        let mut v: Vec<(RectTraitKey, RectData)> = Vec::new();
        push_slot(&mut v, RectTraitKey::Perimeter, task.perimeter);
        push_slot(&mut v, RectTraitKey::Area, task.area);
        push_slot(&mut v, RectTraitKey::Diagonal, task.diagonal);
        push_slot(&mut v, RectTraitKey::SideDistances, task.side_distances);
        push_slot(&mut v, RectTraitKey::BiggerSide, task.bigger_side);
        push_slot(&mut v, RectTraitKey::SmallerSide, task.smaller_side);
        push_slot(&mut v, RectTraitKey::CircumscribedCircleDiameter, task.diameter);
        push_slot(&mut v, RectTraitKey::CircumscribedCircleArea, task.circle_area);
        push_slot(&mut v, RectTraitKey::CircumscribedCirclePerimeter, task.circle_perimeter);
        push_slot(&mut v, RectTraitKey::CircumscribedCircleRadius, task.radius);
        push_slot(&mut v, RectTraitKey::DiagonalDiagonalAngle, task.diagonal_angle);
        assert(v@ =~= initial_known_of(*task));
        v
    }

    /// How the sides are found from the problem's ratio, if it states one.
    pub fn ratio_method(task: &TaskData) -> (r: Option<RatioMethod>)
        ensures
            r == ratio_method_of(*task),
    {
        match task.ratio {
            Some(RectData::Ratio(_, _)) => {
                if let Some(RectData::Perimeter(_)) = task.perimeter {
                    Some(RatioMethod::FromPerimeter)
                } else if let Some(RectData::Diagonal(_)) = task.diagonal {
                    Some(RatioMethod::FromDiagonal)
                } else {
                    Some(RatioMethod::FromOneSide)
                }
            },
            _ => None,
        }
    }
}

/// Reads geometry word problems.
pub struct GeometryTaskAnalyser;

/// Plans the derivation of asked quantities.
pub struct Solver;

} // verus!
