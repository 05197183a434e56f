//! Rectangles on the integer grid, as the rectangle command language
//! describes them: four named corners, a width and a height, and the
//! quantities computed so far.

use vstd::prelude::*;

use crate::pattern::{
    compile, find_all, is_match, regex_compiles, regex_find_all, regex_is_match, Pattern,
};
use crate::text::{append_str, concat3, is_word};

verus! {

/// The kinds of error a rectangle command can meet.
#[derive(Clone, Copy, Debug, PartialEq, Eq, Structural)]
pub enum ErrorKind {
    IncorrectName,
    IncorrectValues,
    IncorrectCoordinates,
    IncorrectInput,
    RectangleNotFound,
    PatternRejected,
}

/// An error of a rectangle command, with its message.  `PatternRejected`
/// holds a pattern that the regular-expression engine did not compile.
#[derive(Clone, Debug)]
pub enum ParseError {
    IncorrectName(String),
    IncorrectValues(String),
    IncorrectCoordinates(String),
    IncorrectInput(String),
    RectangleNotFound(String),
    PatternRejected(String),
}

impl View for ParseError {
    type V = (ErrorKind, Seq<char>);

    open spec fn view(&self) -> (ErrorKind, Seq<char>) {
        match self {
            ParseError::IncorrectName(m) => (ErrorKind::IncorrectName, m@),
            ParseError::IncorrectValues(m) => (ErrorKind::IncorrectValues, m@),
            ParseError::IncorrectCoordinates(m) => (ErrorKind::IncorrectCoordinates, m@),
            ParseError::IncorrectInput(m) => (ErrorKind::IncorrectInput, m@),
            ParseError::RectangleNotFound(m) => (ErrorKind::RectangleNotFound, m@),
            ParseError::PatternRejected(m) => (ErrorKind::PatternRejected, m@),
        }
    }
}

/// A named corner.
#[derive(Clone, Debug)]
pub struct Point {
    pub x: i32,
    pub y: i32,
    pub name: String,
}

/// A quantity computed for a rectangle.  The area and perimeter are exact
/// integers; the diagonal is kept as its square, its length being the
/// square root of that.
#[derive(Clone, Copy, Debug, PartialEq, Eq, Structural)]
pub enum RectangleProperties {
    Perimeter(i64),
    Area(i32),
    Diagonal(i32),
    IsIntersection(bool),
}

/// A rectangle: width, height, four named corners (in the order origin,
/// origin + height, opposite corner, origin + width), its name, and the
/// quantities computed for it.
#[derive(Clone, Debug)]
pub struct Rectangle {
    w: i32,
    h: i32,
    points: Vec<Point>,
    name: String,
    properties: Vec<RectangleProperties>,
}

/// The pattern of one point name inside a rectangle name.
pub const POINT_PIECE_PATTERN: &'static str = r"[A-Z][0-9]*";

/// The pattern of a whole point name.
pub const POINT_NAME_ONLY_PATTERN: &'static str = r"^[A-Z][0-9]*$";

pub open spec fn fits_i32(v: int) -> bool {
    i32::MIN <= v <= i32::MAX
}

/// The message for a name that does not hold four point names.
pub open spec fn count_message(name: Seq<char>) -> Seq<char> {
    "Incorrect name format: "@ + name + ". Must contain exactly 4 unique point names."@
}

/// The message for a name whose point names repeat.
pub open spec fn duplicate_message(name: Seq<char>) -> Seq<char> {
    "Duplicate point names in: "@ + name + ". Points must be unique."@
}

/// The point names a rectangle name holds, given the pieces of the name
/// that the point pattern found: exactly four, all different.
pub open spec fn names_from_matches(ps: Seq<Seq<char>>, name: Seq<char>) -> Result<
    Seq<Seq<char>>,
    (ErrorKind, Seq<char>),
> {
    if ps.len() != 4 {
        Err((ErrorKind::IncorrectName, count_message(name)))
    } else if !ps.no_duplicates() {
        Err((ErrorKind::IncorrectName, duplicate_message(name)))
    } else {
        Ok(ps)
    }
}

/// The point names a rectangle name holds, or why it holds none.
pub open spec fn point_names_of(name: Seq<char>) -> Result<Seq<Seq<char>>, (ErrorKind, Seq<char>)> {
    if !regex_compiles(POINT_PIECE_PATTERN@) {
        Err((ErrorKind::PatternRejected, POINT_PIECE_PATTERN@))
    } else {
        names_from_matches(regex_find_all(POINT_PIECE_PATTERN@, name), name)
    }
}

pub open spec fn name_ok(name: Seq<char>) -> bool {
    point_names_of(name) is Ok
}

/// The corners of the rectangle with origin `(x, y)`, width `w`, height `h`.
pub open spec fn corners_of(x: int, y: int, w: int, h: int) -> Seq<(int, int)> {
    seq![(x, y), (x, y + h), (x + w, y + h), (x + w, y)]
}

impl Rectangle {
    /// Four corners, each name a non-empty text.
    pub closed spec fn inv(&self) -> bool {
        self.points@.len() == 4
    }

    pub closed spec fn width(&self) -> int {
        self.w as int
    }

    pub closed spec fn height(&self) -> int {
        self.h as int
    }

    /// The corners' coordinates, in order.
    pub closed spec fn corners(&self) -> Seq<(int, int)> {
        self.points@.map_values(|p: Point| (p.x as int, p.y as int))
    }

    /// The corners' names, in order.
    pub closed spec fn point_names(&self) -> Seq<Seq<char>> {
        self.points@.map_values(|p: Point| p.name@)
    }

    pub closed spec fn title(&self) -> Seq<char> {
        self.name@
    }

    pub closed spec fn props(&self) -> Seq<RectangleProperties> {
        self.properties@
    }

    fn name_error(kind_count: bool, name: &String) -> (e: ParseError)
        ensures
            e@ == (ErrorKind::IncorrectName, if kind_count {
                count_message(name@)
            } else {
                duplicate_message(name@)
            }),
    {
        if kind_count {
            ParseError::IncorrectName(
                concat3(
                    "Incorrect name format: ",
                    name.as_str(),
                    ". Must contain exactly 4 unique point names.",
                ),
            )
        } else {
            ParseError::IncorrectName(
                concat3("Duplicate point names in: ", name.as_str(), ". Points must be unique."),
            )
        }
    }

    /// The point names of the rectangle named `name`, from the pieces of
    /// the name that the point pattern found: there must be exactly four,
    /// all different.
    pub fn point_names_from_matches(matches: Vec<String>, name: &String) -> (r: Result<Vec<String>, ParseError>)
        ensures
            match names_from_matches(matches@.map_values(|s: String| s@), name@) {
                Ok(ps) => r matches Ok(v) && v@.map_values(|s: String| s@) == ps,
                Err(e) => r matches Err(x) && x@ == e,
            },
    {
        let ghost ps = matches@.map_values(|s: String| s@);
        if matches.len() != 4 {
            return Err(Self::name_error(true, name));
        }
        let mut i: usize = 0;
        while i < 4
            invariant
                matches@.len() == 4,
                ps == matches@.map_values(|s: String| s@),
                i <= 4,
                forall|a: int, b: int| 0 <= a < b < 4 && a < i ==> ps[a] != ps[b],
            decreases 4 - i,
        {
            let mut j = i + 1;
            while j < 4
                invariant
                    matches@.len() == 4,
                    ps == matches@.map_values(|s: String| s@),
                    i < 4,
                    i < j <= 4,
                    forall|a: int, b: int| 0 <= a < b < 4 && a < i ==> ps[a] != ps[b],
                    forall|b: int| i < b < j ==> ps[i as int] != ps[b],
                decreases 4 - j,
            {
                assert(ps[i as int] == matches@[i as int]@ && ps[j as int] == matches@[j as int]@);
                if matches[i] == matches[j] {
                    assert(!ps.no_duplicates());
                    return Err(Self::name_error(false, name));
                }
                j = j + 1;
            }
            i = i + 1;
        }
        Ok(matches)
    }

    /// The four point names held by a rectangle name: exactly four, all
    /// different.
    fn process_name(name: &String) -> (r: Result<Vec<String>, ParseError>)
        ensures
            match r {
                Ok(v) => point_names_of(name@) == Ok::<Seq<Seq<char>>, (ErrorKind, Seq<char>)>(
                    v@.map_values(|s: String| s@),
                ),
                Err(e) => point_names_of(name@) == Err::<Seq<Seq<char>>, (ErrorKind, Seq<char>)>(e@),
            },
    {
        let re = match compile(POINT_PIECE_PATTERN) {
            Ok(p) => p,
            Err(_) => {
                return Err(ParseError::PatternRejected(POINT_PIECE_PATTERN.to_owned()));
            },
        };
        let names = find_all(&re, name.as_str());
        Self::point_names_from_matches(names, name)
    }
}

pub open spec fn dist2(a: (int, int), b: (int, int)) -> int {
    (a.0 - b.0) * (a.0 - b.0) + (a.1 - b.1) * (a.1 - b.1)
}

pub open spec fn abs(v: int) -> int {
    if v < 0 { -v } else { v }
}

pub open spec fn max(a: int, b: int) -> int {
    if a >= b { a } else { b }
}

pub open spec fn min(a: int, b: int) -> int {
    if a <= b { a } else { b }
}

pub open spec fn coord_seq(c: Seq<(i32, i32)>) -> Seq<(int, int)> {
    c.map_values(|p: (i32, i32)| (p.0 as int, p.1 as int))
}

/// Opposite sides of the quadrilateral `c` have equal lengths.
pub open spec fn sides_match(c: Seq<(int, int)>) -> bool {
    dist2(c[0], c[1]) == dist2(c[2], c[3]) && dist2(c[1], c[2]) == dist2(c[3], c[0])
}

/// The arithmetic on four corners stays within `i32`.
pub open spec fn coords_fit(c: Seq<(int, int)>) -> bool {
    &&& dist2(c[0], c[1]) <= i32::MAX
    &&& dist2(c[1], c[2]) <= i32::MAX
    &&& dist2(c[2], c[3]) <= i32::MAX
    &&& dist2(c[3], c[0]) <= i32::MAX
    &&& sides_match(c) ==> i32::MIN < c[2].1 - c[0].1 <= i32::MAX
}

/// Width and height of the rectangle with corners `c`.
pub open spec fn size_of_corners(c: Seq<(int, int)>) -> (int, int) {
    (max(abs(c[1].0 - c[0].0), abs(c[3].0 - c[0].0)), max(abs(c[2].1 - c[0].1), abs(c[3].1 - c[0].1)))
}

pub open spec fn names_from(name: Seq<char>) -> Seq<Seq<char>> {
    point_names_of(name)->Ok_0
}

pub open spec fn four_msg() -> Seq<char> {
    "Exactly 4 coordinates are required to define a rectangle."@
}

pub open spec fn not_rect_msg() -> Seq<char> {
    "Provided coordinates do not form a rectangle."@
}

pub open spec fn ratio_msg() -> Seq<char> {
    "Incorrect ratio."@
}

impl Rectangle {
    fn point(x: i32, y: i32, name: &String) -> (p: Point)
        ensures
            p.x == x && p.y == y && p.name@ == name@,
    {
        Point { x, y, name: name.clone() }
    }

    /// A rectangle with origin `(x, y)`, width `w` and height `h`, whose
    /// corners take the four point names of `name` in order.
    pub fn new(x: i32, y: i32, w: i32, h: i32, name: &String) -> (r: Result<Rectangle, ParseError>)
        requires
            name_ok(name@) ==> fits_i32(x + w) && fits_i32(y + h),
        ensures
            r is Ok <==> name_ok(name@),
            r matches Err(e) ==> point_names_of(name@) == Err::<Seq<Seq<char>>, (ErrorKind, Seq<char>)>(e@),
            r matches Ok(rect) ==> {
                &&& rect.inv()
                &&& rect.width() == w && rect.height() == h
                &&& rect.corners() == corners_of(x as int, y as int, w as int, h as int)
                &&& rect.point_names() == names_from(name@)
                &&& rect.title() == name@
                &&& rect.props() == Seq::<RectangleProperties>::empty()
            },
    {
        let names = Self::process_name(name)?;
        let ghost ns = names@.map_values(|s: String| s@);
        assert(ns[0] == names@[0]@ && ns[1] == names@[1]@ && ns[2] == names@[2]@ && ns[3] == names@[3]@);
        let p1 = Self::point(x, y, &names[0]);
        let p2 = Self::point(x, y + h, &names[1]);
        let p3 = Self::point(x + w, y + h, &names[2]);
        let p4 = Self::point(x + w, y, &names[3]);
        let points = vec![p1, p2, p3, p4];
        let rect = Rectangle { w, h, points, name: name.clone(), properties: Vec::new() };
        assert(rect.corners() =~= corners_of(x as int, y as int, w as int, h as int));
        assert(rect.point_names() =~= ns);
        Ok(rect)
    }

    fn diff_sq(a: (i32, i32), b: (i32, i32)) -> (r: i64)
        requires
            dist2((a.0 as int, a.1 as int), (b.0 as int, b.1 as int)) <= i32::MAX,
        ensures
            r == dist2((a.0 as int, a.1 as int), (b.0 as int, b.1 as int)),
    {
        let dx = a.0 as i64 - b.0 as i64;
        let dy = a.1 as i64 - b.1 as i64;
        assert(0 <= dx * dx) by (nonlinear_arith);
        assert(0 <= dy * dy) by (nonlinear_arith);
        dx * dx + dy * dy
    }

    fn abs_diff(a: i32, b: i32) -> (r: i32)
        requires
            i32::MIN < a - b <= i32::MAX,
        ensures
            r == abs(a - b),
    {
        let d = a - b;
        if d < 0 { -d } else { d }
    }

    /// A rectangle from its four corners, named by the four point names of
    /// `name`; the corners must have equal opposite sides.
    pub fn new_from_coords(name: &String, coords: &[(i32, i32)]) -> (r: Result<Rectangle, ParseError>)
        requires
            name_ok(name@) && coords@.len() == 4 ==> coords_fit(coord_seq(coords@)),
        ensures
            r is Ok <==> (name_ok(name@) && coords@.len() == 4 && sides_match(coord_seq(coords@))),
            r matches Err(e) ==> (if !name_ok(name@) {
                point_names_of(name@) == Err::<Seq<Seq<char>>, (ErrorKind, Seq<char>)>(e@)
            } else if coords@.len() != 4 {
                e@ == (ErrorKind::IncorrectInput, four_msg())
            } else {
                e@ == (ErrorKind::IncorrectInput, not_rect_msg())
            }),
            r matches Ok(rect) ==> {
                &&& rect.inv()
                &&& (rect.width(), rect.height()) == size_of_corners(coord_seq(coords@))
                &&& rect.corners() == coord_seq(coords@)
                &&& rect.point_names() == names_from(name@)
                &&& rect.title() == name@
                &&& rect.props() == Seq::<RectangleProperties>::empty()
            },
    {
        let names = Self::process_name(name)?;
        let ghost ns = names@.map_values(|s: String| s@);
        if coords.len() != 4 {
            return Err(ParseError::IncorrectInput(
                "Exactly 4 coordinates are required to define a rectangle.".to_owned(),
            ));
        }
        let ghost c = coord_seq(coords@);
        assert(c[0] == (coords@[0].0 as int, coords@[0].1 as int));
        assert(c[1] == (coords@[1].0 as int, coords@[1].1 as int));
        assert(c[2] == (coords@[2].0 as int, coords@[2].1 as int));
        assert(c[3] == (coords@[3].0 as int, coords@[3].1 as int));
        assert(ns[0] == names@[0]@ && ns[1] == names@[1]@ && ns[2] == names@[2]@ && ns[3] == names@[3]@);
        let p1 = Self::point(coords[0].0, coords[0].1, &names[0]);
        let p2 = Self::point(coords[1].0, coords[1].1, &names[1]);
        let p3 = Self::point(coords[2].0, coords[2].1, &names[2]);
        let p4 = Self::point(coords[3].0, coords[3].1, &names[3]);
        let side1 = Self::diff_sq(coords[0], coords[1]);
        let side2 = Self::diff_sq(coords[1], coords[2]);
        let side3 = Self::diff_sq(coords[2], coords[3]);
        let side4 = Self::diff_sq(coords[3], coords[0]);
        if side1 != side3 || side2 != side4 {
            return Err(ParseError::IncorrectInput(
                "Provided coordinates do not form a rectangle.".to_owned(),
            ));
        }
        assert(0 <= (c[0].0 - c[1].0) * (c[0].0 - c[1].0)) by (nonlinear_arith);
        assert(0 <= (c[0].1 - c[1].1) * (c[0].1 - c[1].1)) by (nonlinear_arith);
        assert(0 <= (c[3].0 - c[0].0) * (c[3].0 - c[0].0)) by (nonlinear_arith);
        assert(0 <= (c[3].1 - c[0].1) * (c[3].1 - c[0].1)) by (nonlinear_arith);
        assert(i32::MIN < c[1].0 - c[0].0 <= i32::MAX) by (nonlinear_arith)
            requires
                (c[0].0 - c[1].0) * (c[0].0 - c[1].0) <= i32::MAX,
        ;
        assert(i32::MIN < c[3].0 - c[0].0 <= i32::MAX) by (nonlinear_arith)
            requires
                (c[3].0 - c[0].0) * (c[3].0 - c[0].0) <= i32::MAX,
        ;
        assert(i32::MIN < c[3].1 - c[0].1 <= i32::MAX) by (nonlinear_arith)
            requires
                (c[3].1 - c[0].1) * (c[3].1 - c[0].1) <= i32::MAX,
        ;
        let wa = Self::abs_diff(p2.x, p1.x);
        let wb = Self::abs_diff(p4.x, p1.x);
        let ha = Self::abs_diff(p3.y, p1.y);
        let hb = Self::abs_diff(p4.y, p1.y);
        let w = if wa >= wb { wa } else { wb };
        let h = if ha >= hb { ha } else { hb };
        let rect = Rectangle { w, h, points: vec![p1, p2, p3, p4], name: name.clone(), properties: Vec::new() };
        assert(rect.corners() =~= c);
        assert(rect.point_names() =~= ns);
        Ok(rect)
    }
}

/// The kind of a computed quantity.
#[derive(Clone, Copy, Debug, PartialEq, Eq, Structural)]
pub enum PropertyKind {
    Perimeter,
    Area,
    Diagonal,
    IsIntersection,
}

pub open spec fn kind(p: RectangleProperties) -> PropertyKind {
    match p {
        RectangleProperties::Perimeter(_) => PropertyKind::Perimeter,
        RectangleProperties::Area(_) => PropertyKind::Area,
        RectangleProperties::Diagonal(_) => PropertyKind::Diagonal,
        RectangleProperties::IsIntersection(_) => PropertyKind::IsIntersection,
    }
}

/// `ps` without its entries of kind `k`.
pub open spec fn drop_kind(ps: Seq<RectangleProperties>, k: PropertyKind) -> Seq<RectangleProperties>
    decreases ps.len(),
{
    if ps.len() == 0 {
        ps
    } else {
        let r = drop_kind(ps.drop_last(), k);
        if kind(ps.last()) == k {
            r
        } else {
            r.push(ps.last())
        }
    }
}

/// Records `p`, replacing any earlier entry of its kind.
pub open spec fn record(ps: Seq<RectangleProperties>, p: RectangleProperties) -> Seq<RectangleProperties> {
    drop_kind(ps, kind(p)).push(p)
}

pub open spec fn count_kind(ps: Seq<RectangleProperties>, k: PropertyKind) -> nat
    decreases ps.len(),
{
    if ps.len() == 0 {
        0
    } else {
        count_kind(ps.drop_last(), k) + if kind(ps.last()) == k { 1nat } else { 0nat }
    }
}

pub open spec fn has_kind(ps: Seq<RectangleProperties>, k: PropertyKind) -> bool {
    exists|i: int| 0 <= i < ps.len() && kind(#[trigger] ps[i]) == k
}

/// The largest `r` with `r * r <= n`.
pub open spec fn is_isqrt(n: int, r: int) -> bool {
    0 <= r && r * r <= n && n < (r + 1) * (r + 1)
}

pub open spec fn moved(c: Seq<(int, int)>, dx: int, dy: int) -> Seq<(int, int)> {
    c.map_values(|p: (int, int)| (p.0 + dx, p.1 + dy))
}

pub open spec fn corners_move_fits(c: Seq<(int, int)>, dx: int, dy: int) -> bool {
    forall|i: int| 0 <= i < c.len() ==> fits_i32((#[trigger] c[i]).0 + dx) && fits_i32(c[i].1 + dy)
}

/// The corners mirrored about the first corner: `X` mirrors the vertical
/// coordinates, `Y` the horizontal ones; other axes leave them as they are.
pub open spec fn reflected(c: Seq<(int, int)>, axis: char) -> Seq<(int, int)> {
    let o = c[0];
    if axis == 'X' {
        c.map_values(|p: (int, int)| (p.0, o.1 - (p.1 - o.1)))
    } else if axis == 'Y' {
        c.map_values(|p: (int, int)| (o.0 - (p.0 - o.0), p.1))
    } else {
        c
    }
}

pub open spec fn point_reflect_fits(o: (int, int), p: (int, int), axis: char) -> bool {
    &&& axis == 'X' ==> fits_i32(p.1 - o.1) && fits_i32(o.1 - (p.1 - o.1))
    &&& axis == 'Y' ==> fits_i32(p.0 - o.0) && fits_i32(o.0 - (p.0 - o.0))
}

pub open spec fn reflect_fits(c: Seq<(int, int)>, axis: char) -> bool {
    forall|i: int| 0 <= i < c.len() ==> point_reflect_fits(c[0], #[trigger] c[i], axis)
}

/// The overlap box of two rectangles given by their corners:
/// `(x1, y1, x2, y2)`, nonempty when `x1 < x2` and `y1 < y2`.
pub open spec fn overlap(a: Seq<(int, int)>, b: Seq<(int, int)>) -> (int, int, int, int) {
    (max(a[0].0, b[0].0), max(a[0].1, b[0].1), min(a[2].0, b[2].0), min(a[1].1, b[1].1))
}

pub open spec fn overlaps(a: Seq<(int, int)>, b: Seq<(int, int)>) -> bool {
    let o = overlap(a, b);
    o.0 < o.2 && o.1 < o.3
}

/// The name of an intersection: `I`, then the first character of each
/// rectangle's name (`X` and `Y` for empty names).
pub open spec fn intersection_name(a: Seq<char>, b: Seq<char>) -> Seq<char> {
    seq!['I', if a.len() > 0 { a[0] } else { 'X' }, if b.len() > 0 { b[0] } else { 'Y' }]
}

pub open spec fn concat_names(ns: Seq<Seq<char>>) -> Seq<char>
    decreases ns.len(),
{
    if ns.len() == 0 {
        Seq::empty()
    } else {
        concat_names(ns.drop_last()) + ns.last()
    }
}

pub open spec fn first_named(ns: Seq<Seq<char>>, n: Seq<char>) -> int
    decreases ns.len(),
{
    if ns.len() == 0 {
        -1
    } else {
        let r = first_named(ns.drop_last(), n);
        if r >= 0 {
            r
        } else if ns.last() == n {
            ns.len() - 1
        } else {
            -1
        }
    }
}

pub open spec fn format_msg(new_name: Seq<char>) -> Seq<char> {
    "Incorrect new name format: "@ + new_name + ".Must be a capital letter and optional digits."@
}

pub open spec fn used_msg(new_name: Seq<char>) -> Seq<char> {
    "The point name "@ + new_name + " is already used in the rectangle."@
}

pub open spec fn missing_msg(old_name: Seq<char>) -> Seq<char> {
    "Point "@ + old_name + " not found."@
}

/// What renaming point `old_name` to `new_name` yields: the new point names,
/// or the error.
pub open spec fn rename_result(ns: Seq<Seq<char>>, old_name: Seq<char>, new_name: Seq<char>) -> Result<
    Seq<Seq<char>>,
    (ErrorKind, Seq<char>),
> {
    if !regex_compiles(POINT_NAME_ONLY_PATTERN@) {
        Err((ErrorKind::PatternRejected, POINT_NAME_ONLY_PATTERN@))
    } else if !regex_is_match(POINT_NAME_ONLY_PATTERN@, new_name) {
        Err((ErrorKind::IncorrectName, format_msg(new_name)))
    } else if ns.contains(new_name) {
        Err((ErrorKind::IncorrectName, used_msg(new_name)))
    } else if first_named(ns, old_name) < 0 {
        Err((ErrorKind::IncorrectName, missing_msg(old_name)))
    } else {
        Ok(ns.update(first_named(ns, old_name), new_name))
    }
}

/// The recorded quantities after recomputing, in order, the area, the
/// perimeter and the diagonal of a rectangle of width `w` and height `h`,
/// each only if it was recorded.
pub open spec fn recomputed(ps: Seq<RectangleProperties>, w: int, h: int) -> Seq<RectangleProperties> {
    let ps1 = if has_kind(ps, PropertyKind::Area) {
        record(ps, RectangleProperties::Area((abs(w) * abs(h)) as i32))
    } else {
        ps
    };
    let ps2 = if has_kind(ps1, PropertyKind::Perimeter) {
        record(ps1, RectangleProperties::Perimeter((2 * (abs(w) + abs(h))) as i64))
    } else {
        ps1
    };
    if has_kind(ps2, PropertyKind::Diagonal) {
        record(ps2, RectangleProperties::Diagonal((w * w + h * h) as i32))
    } else {
        ps2
    }
}

/// Recording a computed quantity keeps exactly one entry of its kind.
pub proof fn lemma_record_keeps_one(ps: Seq<RectangleProperties>, p: RectangleProperties)
    ensures
        count_kind(record(ps, p), kind(p)) == 1,
        forall|k: PropertyKind| k != kind(p) ==> count_kind(record(ps, p), k) == count_kind(ps, k),
{
    lemma_drop_kind_count(ps, kind(p));
    assert(record(ps, p).drop_last() =~= drop_kind(ps, kind(p)));
}

proof fn lemma_drop_kind_count(ps: Seq<RectangleProperties>, k: PropertyKind)
    ensures
        count_kind(drop_kind(ps, k), k) == 0,
        forall|j: PropertyKind| j != k ==> count_kind(drop_kind(ps, k), j) == count_kind(ps, j),
    decreases ps.len(),
{
    if ps.len() > 0 {
        lemma_drop_kind_count(ps.drop_last(), k);
        let r = drop_kind(ps.drop_last(), k);
        if kind(ps.last()) != k {
            assert(r.push(ps.last()).drop_last() =~= r);
        }
        assert forall|j: PropertyKind| j != k implies count_kind(drop_kind(ps, k), j) == count_kind(ps, j) by {
            assert(count_kind(ps, j) == count_kind(ps.drop_last(), j) + if kind(ps.last()) == j { 1nat } else { 0nat });
            if kind(ps.last()) != k {
                assert(r.push(ps.last()).drop_last() =~= r);
                assert(count_kind(r.push(ps.last()), j) == count_kind(r, j) + if kind(ps.last()) == j { 1nat } else { 0nat });
            }
        }
    }
}

proof fn lemma_count_has(ps: Seq<RectangleProperties>, k: PropertyKind)
    ensures
        has_kind(ps, k) <==> count_kind(ps, k) > 0,
    decreases ps.len(),
{
    if ps.len() > 0 {
        lemma_count_has(ps.drop_last(), k);
        if has_kind(ps, k) {
            let i = choose|i: int| 0 <= i < ps.len() && kind(#[trigger] ps[i]) == k;
            if i < ps.len() - 1 {
                assert(ps.drop_last()[i] == ps[i]);
            }
        }
        if has_kind(ps.drop_last(), k) {
            let i = choose|i: int| 0 <= i < ps.drop_last().len() && kind(#[trigger] ps.drop_last()[i]) == k;
            assert(ps[i] == ps.drop_last()[i]);
        }
    }
}

/// Recording a quantity leaves the presence of the other kinds as it was.
proof fn lemma_record_has(ps: Seq<RectangleProperties>, p: RectangleProperties, k: PropertyKind)
    ensures
        k != kind(p) ==> (has_kind(record(ps, p), k) <==> has_kind(ps, k)),
        has_kind(record(ps, p), kind(p)),
{
    lemma_record_keeps_one(ps, p);
    lemma_count_has(record(ps, p), k);
    lemma_count_has(ps, k);
    lemma_count_has(record(ps, p), kind(p));
}

/// Moving a rectangle by a vector and back restores its corners.
pub proof fn lemma_move_back(c: Seq<(int, int)>, dx: int, dy: int)
    ensures
        moved(moved(c, dx, dy), -dx, -dy) == c,
{
    assert(moved(moved(c, dx, dy), -dx, -dy) =~= c);
}

/// Mirroring twice about the same axis restores the corners.
pub proof fn lemma_reflect_twice(c: Seq<(int, int)>, axis: char)
    requires
        c.len() > 0,
    ensures
        reflected(reflected(c, axis), axis) == c,
{
    let r = reflected(c, axis);
    assert(r[0] == c[0]);
    assert(reflected(r, axis) =~= c);
}

/// Renaming a point and then renaming it back restores the point names,
/// when the old name is itself a valid point name and the names are
/// distinct.
pub proof fn lemma_rename_back(ns: Seq<Seq<char>>, old_name: Seq<char>, new_name: Seq<char>)
    requires
        ns.no_duplicates(),
        regex_is_match(POINT_NAME_ONLY_PATTERN@, old_name),
        rename_result(ns, old_name, new_name) is Ok,
    ensures
        rename_result(rename_result(ns, old_name, new_name)->Ok_0, new_name, old_name)
            == Ok::<Seq<Seq<char>>, (ErrorKind, Seq<char>)>(ns),
{
    let k = first_named(ns, old_name);
    let ns2 = ns.update(k, new_name);
    lemma_first_named_spec(ns, old_name);
    lemma_first_named_spec(ns2, new_name);
    assert(ns2[k] == new_name);
    assert forall|j: int| 0 <= j < ns2.len() implies ns2[j] != old_name by {
        if j != k {
            assert(ns[j] != ns[k]);
        }
    }
    assert(!ns2.contains(old_name));
    assert(first_named(ns2, new_name) == k) by {
        assert forall|j: int| 0 <= j < k implies ns2[j] != new_name by {
            assert(ns2[j] == ns[j]);
            assert(!ns.contains(new_name));
        }
    }
    assert(ns2.update(k, old_name) =~= ns);
}

/// `i` is the rectangle where `a` and `b` overlap: its corners, size and
/// names, and the mark that it is an intersection.
pub open spec fn is_intersection_of(a: Rectangle, b: Rectangle, i: Rectangle) -> bool {
    let o = overlap(a.corners(), b.corners());
    let n = intersection_name(a.title(), b.title());
    &&& i.inv()
    &&& i.corners() == seq![(o.0, o.1), (o.0, o.3), (o.2, o.3), (o.2, o.1)]
    &&& i.width() == o.2 - o.0 && i.height() == o.3 - o.1
    &&& i.title() == n
    &&& i.point_names() == seq![n.push('1'), n.push('2'), n.push('3'), n.push('4')]
    &&& i.props() == seq![RectangleProperties::IsIntersection(true)]
}

/// The intersection of `a` and `b` and that of `b` and `a` have the same
/// corners, size and marks; only their names differ.
pub proof fn lemma_intersection_symmetric(a: Rectangle, b: Rectangle, i: Rectangle, j: Rectangle)
    requires
        is_intersection_of(a, b, i),
        is_intersection_of(b, a, j),
    ensures
        overlaps(a.corners(), b.corners()) == overlaps(b.corners(), a.corners()),
        i.corners() == j.corners(),
        i.width() == j.width() && i.height() == j.height(),
        i.props() == j.props(),
{
    lemma_overlap_symmetric(a.corners(), b.corners());
}

/// The overlap of two rectangles does not depend on their order.
pub proof fn lemma_overlap_symmetric(a: Seq<(int, int)>, b: Seq<(int, int)>)
    ensures
        overlap(a, b) == overlap(b, a),
        overlaps(a, b) == overlaps(b, a),
{
}

impl Rectangle {
    pub fn has_point(&self, name: &String) -> (r: bool)
        ensures
            r == self.point_names().contains(name@),
    {
        let mut i: usize = 0;
        while i < self.points.len()
            invariant
                i <= self.points@.len(),
                forall|j: int| 0 <= j < i ==> self.point_names()[j] != name@,
            decreases self.points@.len() - i,
        {
            assert(self.point_names()[i as int] == self.points@[i as int].name@);
            if self.points[i].name == *name {
                return true;
            }
            i = i + 1;
        }
        false
    }

    fn replace_property(&mut self, p: RectangleProperties)
        ensures
            final(self).props() == record(old(self).props(), p),
            final(self).w == old(self).w,
            final(self).h == old(self).h,
            final(self).points == old(self).points,
            final(self).name == old(self).name,
    {
        let mut kept: Vec<RectangleProperties> = Vec::new();
        let mut i: usize = 0;
        let ghost ps = self.properties@;
        while i < self.properties.len()
            invariant
                i <= self.properties@.len(),
                ps == self.properties@,
                kept@ == drop_kind(ps.take(i as int), kind(p)),
            decreases self.properties@.len() - i,
        {
            assert(ps.take(i + 1).drop_last() =~= ps.take(i as int));
            let q = self.properties[i];
            let same = match (q, p) {
                (RectangleProperties::Perimeter(_), RectangleProperties::Perimeter(_)) => true,
                (RectangleProperties::Area(_), RectangleProperties::Area(_)) => true,
                (RectangleProperties::Diagonal(_), RectangleProperties::Diagonal(_)) => true,
                (RectangleProperties::IsIntersection(_), RectangleProperties::IsIntersection(_)) => true,
                _ => false,
            };
            if !same {
                kept.push(q);
            }
            i = i + 1;
        }
        assert(ps.take(ps.len() as int) =~= ps);
        kept.push(p);
        self.properties = kept;
    }

    fn abs_side(v: i32) -> (r: i32)
        requires
            v != i32::MIN,
        ensures
            r == abs(v as int),
    {
        if v < 0 { -v } else { v }
    }

    /// Records and returns the area `|w| * |h|`.
    pub fn area(&mut self) -> (r: i32)
        requires
            old(self).width() != i32::MIN && old(self).height() != i32::MIN,
            abs(old(self).width()) * abs(old(self).height()) <= i32::MAX,
        ensures
            r == abs(old(self).width()) * abs(old(self).height()),
            final(self).props() == record(old(self).props(), RectangleProperties::Area(r)),
            final(self).same_shape(*old(self)),
    {
        let a = Self::abs_side(self.w);
        let b = Self::abs_side(self.h);
        assert(0 <= (a as int) * (b as int)) by (nonlinear_arith)
            requires
                a >= 0 && b >= 0,
        ;
        let v = a * b;
        self.replace_property(RectangleProperties::Area(v));
        v
    }

    /// Records the perimeter `2 (|w| + |h|)` and returns it, capped at
    /// `i32::MAX`.
    pub fn perimeter(&mut self) -> (r: i32)
        requires
            old(self).width() != i32::MIN && old(self).height() != i32::MIN,
        ensures
            final(self).props() == record(
                old(self).props(),
                RectangleProperties::Perimeter((2 * (abs(old(self).width()) + abs(old(self).height()))) as i64),
            ),
            r == min(2 * (abs(old(self).width()) + abs(old(self).height())), i32::MAX as int),
            final(self).same_shape(*old(self)),
    {
        let a = Self::abs_side(self.w) as i64;
        let b = Self::abs_side(self.h) as i64;
        let p = 2 * (a + b);
        self.replace_property(RectangleProperties::Perimeter(p));
        if p > i32::MAX as i64 {
            i32::MAX
        } else {
            p as i32
        }
    }

    fn isqrt(n: i32) -> (r: i32)
        requires
            n >= 0,
        ensures
            is_isqrt(n as int, r as int),
    {
        let mut r: i64 = 0;
        loop
            invariant
                0 <= r <= 46340,
                r * r <= n,
                n >= 0,
            ensures
                is_isqrt(n as int, r as int),
            decreases n - r * r,
        {
            let next = r + 1;
            assert(next * next <= 46341 * 46341) by (nonlinear_arith)
                requires
                    0 <= next <= 46341,
            ;
            if next * next > n as i64 {
                break;
            }
            assert(next <= 46340) by (nonlinear_arith)
                requires
                    next * next <= n,
                    n <= i32::MAX,
                    next >= 0,
            ;
            assert(next * next > r * r) by (nonlinear_arith)
                requires
                    next == r + 1,
                    r >= 0,
            ;
            r = next;
        }
        r as i32
    }

    /// Records the diagonal (kept as `w² + h²`) and returns its length
    /// rounded down.
    pub fn diagonal(&mut self) -> (r: i32)
        requires
            old(self).width() * old(self).width() + old(self).height() * old(self).height() <= i32::MAX,
        ensures
            final(self).props() == record(
                old(self).props(),
                RectangleProperties::Diagonal(
                    (old(self).width() * old(self).width() + old(self).height() * old(self).height()) as i32,
                ),
            ),
            is_isqrt(old(self).width() * old(self).width() + old(self).height() * old(self).height(), r as int),
            final(self).same_shape(*old(self)),
    {
        let w = self.w as i64;
        let h = self.h as i64;
        assert(0 <= w * w && 0 <= h * h) by (nonlinear_arith);
        let sq = (w * w + h * h) as i32;
        self.replace_property(RectangleProperties::Diagonal(sq));
        Self::isqrt(sq)
    }

    /// Same size, corners, names and title.
    pub closed spec fn same_shape(&self, other: Rectangle) -> bool {
        &&& self.w == other.w
        &&& self.h == other.h
        &&& self.points == other.points
        &&& self.name == other.name
    }

    /// Rectangles of the same shape agree on everything but the recorded
    /// quantities.
    pub proof fn lemma_same_shape(a: Rectangle, b: Rectangle)
        requires
            a.same_shape(b),
        ensures
            a.inv() == b.inv(),
            a.width() == b.width() && a.height() == b.height(),
            a.corners() == b.corners(),
            a.point_names() == b.point_names(),
            a.title() == b.title(),
    {
    }

    /// The arithmetic that recomputing the recorded quantities does stays
    /// within `i32`.
    pub open spec fn recompute_fits(&self) -> bool {
        &&& has_kind(self.props(), PropertyKind::Area) ==> (self.width() != i32::MIN && self.height()
            != i32::MIN && abs(self.width()) * abs(self.height()) <= i32::MAX)
        &&& has_kind(self.props(), PropertyKind::Perimeter) ==> (self.width() != i32::MIN
            && self.height() != i32::MIN)
        &&& has_kind(self.props(), PropertyKind::Diagonal) ==> self.width() * self.width()
            + self.height() * self.height() <= i32::MAX
    }

    fn has_property(&self, k: PropertyKind) -> (r: bool)
        ensures
            r == has_kind(self.props(), k),
    {
        let mut i: usize = 0;
        while i < self.properties.len()
            invariant
                i <= self.properties@.len(),
                forall|j: int| 0 <= j < i ==> kind(#[trigger] self.properties@[j]) != k,
            decreases self.properties@.len() - i,
        {
            let q = self.properties[i];
            let qk = match q {
                RectangleProperties::Perimeter(_) => PropertyKind::Perimeter,
                RectangleProperties::Area(_) => PropertyKind::Area,
                RectangleProperties::Diagonal(_) => PropertyKind::Diagonal,
                RectangleProperties::IsIntersection(_) => PropertyKind::IsIntersection,
            };
            if qk == k {
                return true;
            }
            i = i + 1;
        }
        false
    }

    /// Recomputes the area, perimeter and diagonal, each if it was recorded.
    fn update_calculations(&mut self)
        requires
            old(self).recompute_fits(),
        ensures
            final(self).same_shape(*old(self)),
            final(self).props() == recomputed(old(self).props(), old(self).width(), old(self).height()),
    {
        let ghost ps = self.props();
        proof {
            lemma_record_has(ps, RectangleProperties::Area((abs(self.width()) * abs(self.height())) as i32), PropertyKind::Perimeter);
            lemma_record_has(ps, RectangleProperties::Area((abs(self.width()) * abs(self.height())) as i32), PropertyKind::Diagonal);
        }
        if self.has_property(PropertyKind::Area) {
            self.area();
        }
        let ghost ps1 = self.props();
        proof {
            lemma_record_has(ps1, RectangleProperties::Perimeter((2 * (abs(self.width()) + abs(self.height()))) as i64), PropertyKind::Diagonal);
        }
        if self.has_property(PropertyKind::Perimeter) {
            self.perimeter();
        }
        if self.has_property(PropertyKind::Diagonal) {
            self.diagonal();
        }
    }

    /// The first corner.
    pub fn get_position(&self) -> (r: (i32, i32))
        requires
            self.inv(),
        ensures
            (r.0 as int, r.1 as int) == self.corners()[0],
    {
        (self.points[0].x, self.points[0].y)
    }

    /// Moves every corner by `(dx, dy)`.
    pub fn move_rectangle(&mut self, dx: i32, dy: i32)
        requires
            old(self).inv(),
            corners_move_fits(old(self).corners(), dx as int, dy as int),
        ensures
            final(self).inv(),
            final(self).corners() == moved(old(self).corners(), dx as int, dy as int),
            final(self).point_names() == old(self).point_names(),
            final(self).title() == old(self).title(),
            final(self).width() == old(self).width() && final(self).height() == old(self).height(),
            final(self).props() == old(self).props(),
    {
        let mut i: usize = 0;
        let ghost c0 = self.corners();
        let ghost n0 = self.point_names();
        while i < 4
            invariant
                i <= 4,
                self.points@.len() == 4,
                c0.len() == 4,
                corners_move_fits(c0, dx as int, dy as int),
                forall|j: int| 0 <= j < i ==> #[trigger] self.corners()[j] == (c0[j].0 + dx, c0[j].1 + dy),
                forall|j: int| i <= j < 4 ==> #[trigger] self.corners()[j] == c0[j],
                self.point_names() == n0,
                self.name == old(self).name,
                self.w == old(self).w && self.h == old(self).h,
                self.properties == old(self).properties,
            decreases 4 - i,
        {
            assert(self.corners()[i as int] == c0[i as int]);
            assert(fits_i32(c0[i as int].0 + dx) && fits_i32(c0[i as int].1 + dy));
            let p = Point {
                x: self.points[i].x + dx,
                y: self.points[i].y + dy,
                name: self.points[i].name.clone(),
            };
            let ghost before = self.corners();
            self.points.set(i, p);
            assert(self.corners() =~= before.update(i as int, (p.x as int, p.y as int)));
            assert(self.point_names() =~= n0);
            i = i + 1;
        }
        assert(self.corners() =~= moved(c0, dx as int, dy as int));
    }

    /// Places the rectangle with its first corner at `(x, y)`, keeping its
    /// size.
    pub fn move_to(&mut self, x: i32, y: i32)
        requires
            old(self).inv(),
            fits_i32(x + old(self).width()),
            fits_i32(y + old(self).height()),
        ensures
            final(self).inv(),
            final(self).corners() == corners_of(x as int, y as int, old(self).width(), old(self).height()),
            final(self).point_names() == old(self).point_names(),
            final(self).title() == old(self).title(),
            final(self).width() == old(self).width() && final(self).height() == old(self).height(),
            final(self).props() == old(self).props(),
    {
        let w = self.w;
        let h = self.h;
        let ghost n0 = self.point_names();
        let targets = [(x, y), (x, y + h), (x + w, y + h), (x + w, y)];
        let mut i: usize = 0;
        while i < 4
            invariant
                i <= 4,
                self.points@.len() == 4,
                targets@ == seq![(x, y), (x, (y + h) as i32), ((x + w) as i32, (y + h) as i32), ((x + w) as i32, y)],
                fits_i32(x + w) && fits_i32(y + h),
                w == self.w && h == self.h,
                forall|j: int| 0 <= j < i ==> #[trigger] self.corners()[j] == (targets@[j].0 as int, targets@[j].1 as int),
                self.point_names() == n0,
                self.name == old(self).name,
                self.w == old(self).w && self.h == old(self).h,
                self.properties == old(self).properties,
            decreases 4 - i,
        {
            let p = Point { x: targets[i].0, y: targets[i].1, name: self.points[i].name.clone() };
            let ghost before = self.corners();
            self.points.set(i, p);
            assert(self.corners() =~= before.update(i as int, (p.x as int, p.y as int)));
            assert(self.point_names() =~= n0);
            i = i + 1;
        }
        assert(self.corners() =~= corners_of(x as int, y as int, w as int, h as int));
    }

    /// Mirrors the rectangle about its first corner: `X` flips it vertically,
    /// `Y` horizontally; any other axis leaves it as it is.
    pub fn reflect_rectangle(&mut self, axis: char)
        requires
            old(self).inv(),
            reflect_fits(old(self).corners(), axis),
        ensures
            final(self).inv(),
            final(self).corners() == reflected(old(self).corners(), axis),
            final(self).point_names() == old(self).point_names(),
            final(self).title() == old(self).title(),
            final(self).width() == old(self).width() && final(self).height() == old(self).height(),
            final(self).props() == old(self).props(),
    {
        let pos = self.get_position();
        let ghost c0 = self.corners();
        let ghost n0 = self.point_names();
        let ghost r0 = reflected(c0, axis);
        let mut i: usize = 0;
        while i < 4
            invariant
                i <= 4,
                self.points@.len() == 4,
                c0.len() == 4,
                (pos.0 as int, pos.1 as int) == c0[0],
                r0 == reflected(c0, axis),
                reflect_fits(c0, axis),
                forall|j: int| 0 <= j < i ==> #[trigger] self.corners()[j] == r0[j],
                forall|j: int| i <= j < 4 ==> #[trigger] self.corners()[j] == c0[j],
                self.point_names() == n0,
                self.name == old(self).name,
                self.w == old(self).w && self.h == old(self).h,
                self.properties == old(self).properties,
            decreases 4 - i,
        {
            assert(self.corners()[i as int] == c0[i as int]);
            let q = &self.points[i];
            assert(self.corners()[i as int] == (q.x as int, q.y as int));
            assert(point_reflect_fits(c0[0], c0[i as int], axis));
            let p = if axis == 'X' {
                Point { x: q.x, y: pos.1 - (q.y - pos.1), name: q.name.clone() }
            } else if axis == 'Y' {
                Point { x: pos.0 - (q.x - pos.0), y: q.y, name: q.name.clone() }
            } else {
                Point { x: q.x, y: q.y, name: q.name.clone() }
            };
            let ghost before = self.corners();
            self.points.set(i, p);
            assert(self.corners() =~= before.update(i as int, (p.x as int, p.y as int)));
            assert(self.point_names() =~= n0);
            i = i + 1;
        }
        assert(self.corners() =~= r0);
    }
}

impl Rectangle {
    fn first_char_or(s: &String, d: char) -> (c: char)
        ensures
            c == if s@.len() > 0 { s@[0] } else { d },
    {
        let v = crate::text::chars_of(s.as_str());
        if v.len() > 0 { v[0] } else { d }
    }

    fn named_point(x: i32, y: i32, base: &Vec<char>, digit: char) -> (p: Point)
        ensures
            p.x == x && p.y == y && p.name@ == base@.push(digit),
    {
        let mut n = base.clone();
        n.push(digit);
        Point { x, y, name: crate::text::string_from_chars(&n) }
    }

    /// The overlap of two rectangles as a rectangle named `I` plus the first
    /// characters of both names, its corners named by that name and the
    /// digits 1 to 4; `None` when they do not overlap.
    pub fn intersection(&self, other: &Rectangle) -> (r: Option<Rectangle>)
        requires
            self.inv(),
            other.inv(),
            overlaps(self.corners(), other.corners()) ==> ({
                let o = overlap(self.corners(), other.corners());
                fits_i32(o.2 - o.0) && fits_i32(o.3 - o.1)
            }),
        ensures
            r is Some <==> overlaps(self.corners(), other.corners()),
            r matches Some(i) ==> is_intersection_of(*self, *other, i),
    {
        let a = self.points[0].x;
        let b = other.points[0].x;
        let x1 = if a >= b { a } else { b };
        let a = self.points[0].y;
        let b = other.points[0].y;
        let y1 = if a >= b { a } else { b };
        let a = self.points[2].x;
        let b = other.points[2].x;
        let x2 = if a <= b { a } else { b };
        let a = self.points[1].y;
        let b = other.points[1].y;
        let y2 = if a <= b { a } else { b };
        let ghost o = overlap(self.corners(), other.corners());
        assert(self.corners()[0] == (self.points@[0].x as int, self.points@[0].y as int));
        assert(self.corners()[1] == (self.points@[1].x as int, self.points@[1].y as int));
        assert(self.corners()[2] == (self.points@[2].x as int, self.points@[2].y as int));
        assert(other.corners()[0] == (other.points@[0].x as int, other.points@[0].y as int));
        assert(other.corners()[1] == (other.points@[1].x as int, other.points@[1].y as int));
        assert(other.corners()[2] == (other.points@[2].x as int, other.points@[2].y as int));
        assert(o == (x1 as int, y1 as int, x2 as int, y2 as int));
        if x1 < x2 && y1 < y2 {
            let c1 = Self::first_char_or(&self.name, 'X');
            let c2 = Self::first_char_or(&other.name, 'Y');
            let base = vec!['I', c1, c2];
            let points = vec![
                Self::named_point(x1, y1, &base, '1'),
                Self::named_point(x1, y2, &base, '2'),
                Self::named_point(x2, y2, &base, '3'),
                Self::named_point(x2, y1, &base, '4'),
            ];
            let rect = Rectangle {
                w: x2 - x1,
                h: y2 - y1,
                points,
                name: crate::text::string_from_chars(&base),
                properties: vec![RectangleProperties::IsIntersection(true)],
            };
            let ghost n = intersection_name(self.title(), other.title());
            assert(base@ =~= n);
            assert(rect.corners() =~= seq![(o.0, o.1), (o.0, o.3), (o.2, o.3), (o.2, o.1)]);
            assert(rect.point_names() =~= seq![n.push('1'), n.push('2'), n.push('3'), n.push('4')]);
            assert(rect.props() =~= seq![RectangleProperties::IsIntersection(true)]);
            Some(rect)
        } else {
            None
        }
    }

    fn name_error_with(prefix: &str, middle: &String, suffix: &str) -> (e: ParseError)
        ensures
            e@ == (ErrorKind::IncorrectName, prefix@ + middle@ + suffix@),
    {
        ParseError::IncorrectName(concat3(prefix, middle.as_str(), suffix))
    }

    fn joined_point_names(&self) -> (s: String)
        ensures
            s@ == concat_names(self.point_names()),
    {
        let mut s = String::new();
        let mut i: usize = 0;
        while i < self.points.len()
            invariant
                i <= self.points@.len(),
                s@ == concat_names(self.point_names().take(i as int)),
            decreases self.points@.len() - i,
        {
            assert(self.point_names().take(i + 1).drop_last() =~= self.point_names().take(i as int));
            assert(self.point_names()[i as int] == self.points@[i as int].name@);
            append_str(&mut s, self.points[i].name.as_str());
            i = i + 1;
        }
        assert(self.point_names().take(self.points@.len() as int) =~= self.point_names());
        s
    }

    /// Renames the first corner named `old_name` to `new_name`, which must be
    /// a point name not yet used; the rectangle's name becomes its corners'
    /// names joined.
    pub fn rename_point(&mut self, old_name: &str, new_name: &str) -> (r: Result<(), ParseError>)
        requires
            old(self).inv(),
        ensures
            final(self).inv(),
            match rename_result(old(self).point_names(), old_name@, new_name@) {
                Ok(ns) => r is Ok && final(self).point_names() == ns && final(self).title() == concat_names(ns),
                Err(e) => r matches Err(x) && x@ == e && final(self).point_names() == old(self).point_names()
                    && final(self).title() == old(self).title(),
            },
            final(self).corners() == old(self).corners(),
            final(self).width() == old(self).width() && final(self).height() == old(self).height(),
            final(self).props() == old(self).props(),
    {
        let re = match compile(POINT_NAME_ONLY_PATTERN) {
            Ok(p) => p,
            Err(_) => {
                return Err(ParseError::PatternRejected(POINT_NAME_ONLY_PATTERN.to_owned()));
            },
        };
        let new_owned = new_name.to_owned();
        let old_owned = old_name.to_owned();
        if !is_match(&re, new_name) {
            return Err(Self::name_error_with(
                "Incorrect new name format: ",
                &new_owned,
                ".Must be a capital letter and optional digits.",
            ));
        }
        if self.has_point(&new_owned) {
            return Err(Self::name_error_with(
                "The point name ",
                &new_owned,
                " is already used in the rectangle.",
            ));
        }
        let ghost ns = self.point_names();
        let mut i: usize = 0;
        while i < self.points.len()
            invariant
                i <= self.points@.len(),
                self.points@.len() == 4,
                ns == self.point_names(),
                ns == old(self).point_names(),
                first_named(ns.take(i as int), old_name@) < 0,
                self.points == old(self).points,
                self.name == old(self).name,
                self.w == old(self).w && self.h == old(self).h,
                self.properties == old(self).properties,
                regex_compiles(POINT_NAME_ONLY_PATTERN@),
                regex_is_match(POINT_NAME_ONLY_PATTERN@, new_name@),
                !ns.contains(new_name@),
                new_owned@ == new_name@,
                old_owned@ == old_name@,
            decreases self.points@.len() - i,
        {
            assert(ns.take(i + 1).drop_last() =~= ns.take(i as int));
            assert(ns[i as int] == self.points@[i as int].name@);
            if self.points[i].name == old_owned {
                proof {
                    lemma_first_named_prefix(ns, old_name@, i as int + 1);
                }
                let p = Point { x: self.points[i].x, y: self.points[i].y, name: new_owned };
                let ghost before_c = self.corners();
                let ghost before_n = self.point_names();
                self.points.set(i, p);
                assert(self.corners() =~= before_c);
                assert(self.point_names() =~= before_n.update(i as int, p.name@));
                assert(self.point_names() =~= ns.update(i as int, new_name@));
                self.name = self.joined_point_names();
                return Ok(());
            }
            i = i + 1;
        }
        proof {
            assert(ns.take(4) =~= ns);
        }
        Err(Self::name_error_with("Point ", &old_owned, " not found."))
    }

    /// Checks a request for a rectangle with sides in a given ratio: the name
    /// must hold four distinct point names and neither ratio term may be 0.
    pub fn check_ratio(name: &String, ratio: (u32, u32)) -> (r: Result<(), ParseError>)
        ensures
            r is Ok <==> (name_ok(name@) && ratio.0 != 0 && ratio.1 != 0),
            r matches Err(e) ==> (if !name_ok(name@) {
                point_names_of(name@) == Err::<Seq<Seq<char>>, (ErrorKind, Seq<char>)>(e@)
            } else {
                e@ == (ErrorKind::IncorrectInput, ratio_msg())
            }),
    {
        Self::process_name(name)?;
        if ratio.0 == 0 || ratio.1 == 0 {
            return Err(ParseError::IncorrectInput("Incorrect ratio.".to_owned()));
        }
        Ok(())
    }

    /// Puts the corners at `corners`, in order.
    pub fn set_corners(&mut self, corners: &[(i32, i32)])
        requires
            old(self).inv(),
            corners@.len() == 4,
        ensures
            final(self).inv(),
            final(self).corners() == coord_seq(corners@),
            final(self).point_names() == old(self).point_names(),
            final(self).title() == old(self).title(),
            final(self).width() == old(self).width() && final(self).height() == old(self).height(),
            final(self).props() == old(self).props(),
    {
        let ghost n0 = self.point_names();
        let mut i: usize = 0;
        while i < 4
            invariant
                i <= 4,
                corners@.len() == 4,
                self.points@.len() == 4,
                forall|j: int| 0 <= j < i ==> #[trigger] self.corners()[j] == coord_seq(corners@)[j],
                self.point_names() == n0,
                self.name == old(self).name,
                self.w == old(self).w && self.h == old(self).h,
                self.properties == old(self).properties,
            decreases 4 - i,
        {
            let p = Point { x: corners[i].0, y: corners[i].1, name: self.points[i].name.clone() };
            let ghost before = self.corners();
            self.points.set(i, p);
            assert(self.corners() =~= before.update(i as int, (p.x as int, p.y as int)));
            assert(self.point_names() =~= n0);
            i = i + 1;
        }
        assert(self.corners() =~= coord_seq(corners@));
    }

    /// Gives the rectangle a new size and corners, then recomputes each
    /// recorded area, perimeter and diagonal.
    pub fn rescale(&mut self, w: i32, h: i32, corners: &[(i32, i32)])
        requires
            old(self).inv(),
            corners@.len() == 4,
            has_kind(old(self).props(), PropertyKind::Area) ==> (w != i32::MIN && h != i32::MIN && abs(
                w as int,
            ) * abs(h as int) <= i32::MAX),
            has_kind(old(self).props(), PropertyKind::Perimeter) ==> (w != i32::MIN && h != i32::MIN),
            has_kind(old(self).props(), PropertyKind::Diagonal) ==> w * w + h * h <= i32::MAX,
        ensures
            final(self).inv(),
            final(self).corners() == coord_seq(corners@),
            final(self).width() == w && final(self).height() == h,
            final(self).point_names() == old(self).point_names(),
            final(self).title() == old(self).title(),
            final(self).props() == recomputed(old(self).props(), w as int, h as int),
    {
        self.set_corners(corners);
        self.w = w;
        self.h = h;
        self.update_calculations();
    }

    /// Whether `name` holds four distinct point names.
    pub fn validate_name(name: &String) -> (r: Result<(), ParseError>)
        ensures
            r is Ok <==> name_ok(name@),
            r matches Err(e) ==> point_names_of(name@) == Err::<Seq<Seq<char>>, (ErrorKind, Seq<char>)>(e@),
    {
        Self::process_name(name)?;
        Ok(())
    }

    pub fn get_width(&self) -> (r: i32)
        ensures
            r == self.width(),
    {
        self.w
    }

    pub fn get_height(&self) -> (r: i32)
        ensures
            r == self.height(),
    {
        self.h
    }

    pub fn get_name(&self) -> (r: &String)
        ensures
            r@ == self.title(),
    {
        &self.name
    }

    pub fn get_points(&self) -> (r: &Vec<Point>)
        ensures
            r@.map_values(|p: Point| (p.x as int, p.y as int)) == self.corners(),
            r@.map_values(|p: Point| p.name@) == self.point_names(),
            self.inv() ==> r@.len() == 4,
    {
        &self.points
    }

    pub fn get_properties(&self) -> (r: &Vec<RectangleProperties>)
        ensures
            r@ == self.props(),
    {
        &self.properties
    }
}

pub proof fn lemma_first_named_prefix(ns: Seq<Seq<char>>, n: Seq<char>, k: int)
    requires
        0 < k <= ns.len(),
        first_named(ns.take(k - 1), n) < 0,
        ns[k - 1] == n,
    ensures
        first_named(ns, n) == k - 1,
    decreases ns.len() - k,
{
    assert(ns.take(k).drop_last() =~= ns.take(k - 1));
    assert(ns.take(k).last() == n);
    if k < ns.len() {
        lemma_first_named_extend(ns, n, k);
        lemma_first_named_prefix_done(ns, n, k);
    } else {
        assert(ns.take(k) =~= ns);
    }
}

/// `first_named` finds the first position holding `n`, or -1 when none does.
pub proof fn lemma_first_named_spec(ns: Seq<Seq<char>>, n: Seq<char>)
    ensures
        first_named(ns, n) >= 0 ==> (first_named(ns, n) < ns.len() && ns[first_named(ns, n)] == n
            && forall|j: int| 0 <= j < first_named(ns, n) ==> ns[j] != n),
        first_named(ns, n) < 0 ==> first_named(ns, n) == -1 && forall|j: int| 0 <= j < ns.len() ==> ns[j] != n,
    decreases ns.len(),
{
    if ns.len() > 0 {
        let d = ns.drop_last();
        lemma_first_named_spec(d, n);
        assert forall|j: int| 0 <= j < d.len() implies d[j] == ns[j] by {}
        if first_named(d, n) < 0 {
            assert forall|j: int| 0 <= j < ns.len() - 1 implies ns[j] != n by {
                assert(d[j] == ns[j]);
            }
        }
    }
}

proof fn lemma_first_named_extend(ns: Seq<Seq<char>>, n: Seq<char>, k: int)
    requires
        0 < k <= ns.len(),
        first_named(ns.take(k), n) >= 0,
    ensures
        forall|m: int| k <= m <= ns.len() ==> first_named(ns.take(m), n) == first_named(ns.take(k), n),
    decreases ns.len() - k,
{
    if k < ns.len() {
        assert(ns.take(k + 1).drop_last() =~= ns.take(k));
        lemma_first_named_extend(ns, n, k + 1);
    }
}

proof fn lemma_first_named_prefix_done(ns: Seq<Seq<char>>, n: Seq<char>, k: int)
    requires
        0 < k <= ns.len(),
        forall|m: int| k <= m <= ns.len() ==> first_named(ns.take(m), n) == first_named(ns.take(k), n),
    ensures
        first_named(ns, n) == first_named(ns.take(k), n),
{
    assert(ns.take(ns.len() as int) =~= ns);
}

} // verus!
