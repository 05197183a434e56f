//! The state that a script of rectangle commands works on: the rectangles
//! by name and the rectangle last spoken of, with one operation per
//! command.  A command that names no rectangle is about the last one.

use vstd::prelude::*;

use crate::rectangles::{
    abs, coord_seq, coords_fit, corners_move_fits, corners_of, fits_i32, first_named,
    lemma_first_named_prefix, lemma_first_named_spec, name_ok, overlap, overlaps, record,
    reflect_fits, ErrorKind, ParseError, Rectangle, RectangleProperties,
};
use crate::text::concat3;

verus! {

/// The text of a rectangle table entry: its name and rectangle.
pub type Entry = (Seq<char>, Rectangle);

pub open spec fn keys(t: Seq<Entry>) -> Seq<Seq<char>> {
    t.map_values(|e: Entry| e.0)
}

/// The rectangle stored under `n`.
pub open spec fn lookup(t: Seq<Entry>, n: Seq<char>) -> Option<Rectangle> {
    let k = first_named(keys(t), n);
    if k >= 0 {
        Some(t[k].1)
    } else {
        None
    }
}

/// The table after storing `r` under `n`, replacing what was stored there.
pub open spec fn upsert(t: Seq<Entry>, n: Seq<char>, r: Rectangle) -> Seq<Entry> {
    let k = first_named(keys(t), n);
    if k >= 0 {
        t.update(k, (n, r))
    } else {
        t.push((n, r))
    }
}

/// The table without the entry named `n`.
pub open spec fn without(t: Seq<Entry>, n: Seq<char>) -> Seq<Entry> {
    let k = first_named(keys(t), n);
    if k >= 0 {
        t.remove(k)
    } else {
        t
    }
}

/// The rectangle a command is about: the one it names, else the last one.
pub open spec fn resolved(explicit: Option<Seq<char>>, last: Option<Seq<char>>) -> Result<
    Seq<char>,
    (ErrorKind, Seq<char>),
> {
    match explicit {
        Some(n) => Ok(n),
        None => match last {
            Some(n) => Ok(n),
            None => Err((ErrorKind::RectangleNotFound, "No rectangle specified."@)),
        },
    }
}

pub open spec fn missing(n: Seq<char>) -> (ErrorKind, Seq<char>) {
    (ErrorKind::RectangleNotFound, "Rectangle "@ + n + " not found"@)
}

/// The table holds the same names as before and the same rectangles, but
/// possibly at position `k`.
pub open spec fn same_except(a: Seq<Entry>, b: Seq<Entry>, k: int) -> bool {
    &&& a.len() == b.len()
    &&& 0 <= k < a.len()
    &&& b[k].0 == a[k].0
    &&& forall|j: int| 0 <= j < a.len() && j != k ==> #[trigger] b[j] == a[j]
}

/// Reading back a stored rectangle gives it back.
pub proof fn lemma_lookup_upsert(t: Seq<Entry>, n: Seq<char>, m: Seq<char>, r: Rectangle)
    ensures
        lookup(upsert(t, n, r), n) == Some(r),
        m != n ==> lookup(upsert(t, n, r), m) == lookup(t, m),
{
    let k = first_named(keys(t), n);
    lemma_first_named_spec(keys(t), n);
    lemma_first_named_spec(keys(t), m);
    if k >= 0 {
        assert(keys(upsert(t, n, r)) =~= keys(t));
    } else {
        let u = upsert(t, n, r);
        assert(keys(u) =~= keys(t).push(n));
        assert(keys(u).drop_last() =~= keys(t));
    }
}

/// Removing a name leaves the other names' rectangles as they were.
pub proof fn lemma_lookup_without(t: Seq<Entry>, n: Seq<char>, m: Seq<char>)
    requires
        keys(t).no_duplicates(),
    ensures
        lookup(without(t, n), n) is None,
        m != n ==> lookup(without(t, n), m) == lookup(t, m),
{
    let k = first_named(keys(t), n);
    lemma_first_named_spec(keys(t), n);
    lemma_first_named_spec(keys(t), m);
    let w = without(t, n);
    lemma_first_named_spec(keys(w), n);
    lemma_first_named_spec(keys(w), m);
    if k >= 0 {
        assert(keys(w) =~= keys(t).remove(k));
        if first_named(keys(w), n) >= 0 {
            let j = first_named(keys(w), n);
            if j < k {
                assert(keys(w)[j] == keys(t)[j]);
            } else {
                assert(keys(w)[j] == keys(t)[j + 1]);
            }
        }
        if m != n {
            let jm = first_named(keys(t), m);
            let jw = first_named(keys(w), m);
            if jm >= 0 {
                if jm < k {
                    assert(keys(w)[jm] == m);
                } else {
                    assert(keys(w)[jm - 1] == m);
                }
            }
            if jw >= 0 {
                if jw < k {
                    assert(keys(t)[jw] == m);
                    assert(w[jw] == t[jw]);
                } else {
                    assert(keys(t)[jw + 1] == m);
                    assert(w[jw] == t[jw + 1]);
                }
            }
        }
    }
}

/// A rectangle given by its shape in a definition.
#[derive(Clone, Debug)]
pub enum Shape {
    /// Four corners.
    Coordinates(Vec<(i32, i32)>),
    /// A width and height, with the first corner at `(x, y)`.
    Size { width: i32, height: i32, x: i32, y: i32 },
    /// Nothing given: 10 wide and 20 high at the origin.
    Default,
    /// A shape that is none of these; the definition does nothing.
    Unrecognized,
}

/// One command of the rectangle language, with the values it carries.
/// A `None` name means the last rectangle.
#[derive(Clone, Debug)]
pub enum Command {
    Define { name: Option<String>, shape: Shape },
    Area { name: Option<String> },
    Perimeter { name: Option<String> },
    Diagonal { name: Option<String> },
    MoveBy { name: Option<String>, dx: i32, dy: i32 },
    MoveTo { name: Option<String>, x: i32, y: i32 },
    Reflect { name: Option<String>, axis: char },
    MarkIntersection { first: String, second: Option<String> },
    RenamePoint { name: Option<String>, old_name: String, new_name: String },
}

/// What a command that went through reports.
#[derive(Clone, Debug)]
pub enum Outcome {
    Defined,
    Ignored,
    Area { name: String, value: i32 },
    Perimeter { name: String, value: i32 },
    Diagonal { name: String, value: i32 },
    Moved,
    /// The intersection was stored under this name.
    IntersectionAdded { name: String },
    NoIntersection { first: String, second: String },
    Renamed,
    /// The rename was refused; the rectangle is no longer stored.
    RenameFailed(ParseError),
}

/// The rectangles by name, and the name of the last rectangle spoken of.
pub struct RectangleStore {
    entries: Vec<(String, Rectangle)>,
    last: Option<String>,
}

pub open spec fn opt_view(o: Option<String>) -> Option<Seq<char>> {
    match o {
        Some(s) => Some(s@),
        None => None,
    }
}

impl RectangleStore {
    pub closed spec fn table(&self) -> Seq<Entry> {
        self.entries@.map_values(|e: (String, Rectangle)| (e.0@, e.1))
    }

    pub closed spec fn last_name(&self) -> Option<Seq<char>> {
        opt_view(self.last)
    }

    /// Names are distinct and every stored rectangle is well formed.
    pub open spec fn wf(&self) -> bool {
        &&& keys(self.table()).no_duplicates()
        &&& forall|i: int| 0 <= i < self.table().len() ==> (#[trigger] self.table()[i]).1.inv()
    }

    pub fn new() -> (s: RectangleStore)
        ensures
            s.wf(),
            s.table() == Seq::<Entry>::empty(),
            s.last_name() is None,
    {
        let s = RectangleStore { entries: Vec::new(), last: None };
        assert(s.table() =~= Seq::<Entry>::empty());
        s
    }

    /// The rectangles in storage order.
    pub fn rectangles(&self) -> (r: Vec<&Rectangle>)
        ensures
            r@.len() == self.table().len(),
            forall|i: int| 0 <= i < r@.len() ==> *#[trigger] r@[i] == self.table()[i].1,
    {
        let mut r: Vec<&Rectangle> = Vec::new();
        let mut i: usize = 0;
        while i < self.entries.len()
            invariant
                i <= self.entries@.len(),
                r@.len() == i,
                forall|j: int| 0 <= j < i ==> *#[trigger] r@[j] == self.table()[j].1,
            decreases self.entries@.len() - i,
        {
            r.push(&self.entries[i].1);
            i = i + 1;
        }
        r
    }

    fn find(&self, name: &String) -> (r: Option<usize>)
        ensures
            match r {
                Some(k) => first_named(keys(self.table()), name@) == k as int && k < self.table().len()
                    && self.table()[k as int].0 == name@,
                None => first_named(keys(self.table()), name@) < 0,
            },
    {
        let ghost ks = keys(self.table());
        proof {
            lemma_first_named_spec(ks, name@);
        }
        let mut i: usize = 0;
        while i < self.entries.len()
            invariant
                i <= self.entries@.len(),
                ks == keys(self.table()),
                ks.len() == self.entries@.len(),
                first_named(ks.take(i as int), name@) < 0,
            decreases self.entries@.len() - i,
        {
            assert(ks.take(i + 1).drop_last() =~= ks.take(i as int));
            assert(ks[i as int] == self.entries@[i as int].0@);
            if self.entries[i].0 == *name {
                proof {
                    lemma_first_named_prefix(ks, name@, i as int + 1);
                }
                return Some(i);
            }
            i = i + 1;
        }
        assert(ks.take(ks.len() as int) =~= ks);
        None
    }

    /// The rectangle stored under `name`.
    pub fn get(&self, name: &String) -> (r: Option<&Rectangle>)
        ensures
            match r {
                Some(x) => lookup(self.table(), name@) == Some(*x),
                None => lookup(self.table(), name@) is None,
            },
    {
        match self.find(name) {
            Some(k) => {
                assert(self.table()[k as int].1 == self.entries@[k as int].1);
                Some(&self.entries[k].1)
            },
            None => None,
        }
    }

    /// The name a command is about: the one it names, else the last one.
    pub fn resolve(&self, explicit: &Option<String>) -> (r: Result<String, ParseError>)
        ensures
            match resolved(opt_view(*explicit), self.last_name()) {
                Ok(n) => r matches Ok(s) && s@ == n,
                Err(e) => r matches Err(x) && x@ == e,
            },
    {
        match explicit {
            Some(n) => Ok(n.clone()),
            None => match &self.last {
                Some(n) => Ok(n.clone()),
                None => Err(ParseError::RectangleNotFound("No rectangle specified.".to_owned())),
            },
        }
    }

    /// Stores `rect` under `name`, replacing what was stored there.
    pub fn store(&mut self, name: String, rect: Rectangle)
        requires
            old(self).wf(),
            rect.inv(),
        ensures
            final(self).wf(),
            final(self).table() == upsert(old(self).table(), name@, rect),
            final(self).last_name() == old(self).last_name(),
    {
        let ghost t = self.table();
        proof {
            lemma_first_named_spec(keys(t), name@);
        }
        match self.find(&name) {
            Some(k) => {
                let ghost n = name@;
                self.entries.set(k, (name, rect));
                assert(self.table() =~= t.update(k as int, (n, rect)));
                assert(keys(self.table()) =~= keys(t));
            },
            None => {
                let ghost n = name@;
                self.entries.push((name, rect));
                assert(self.table() =~= t.push((n, rect)));
                assert(keys(self.table()) =~= keys(t).push(n));
                assert forall|a: int, b: int| 0 <= a < b < keys(self.table()).len() implies keys(self.table())[a] != keys(self.table())[b] by {
                    if b == keys(t).len() {
                        assert(keys(t)[a] != n);
                    }
                }
            },
        }
    }

    /// Makes `name` the last rectangle spoken of.
    pub fn select(&mut self, name: &String)
        ensures
            final(self).table() == old(self).table(),
            final(self).last_name() == Some(name@),
    {
        self.last = Some(name.clone());
    }

    fn missing_error(name: &String) -> (e: ParseError)
        ensures
            e@ == missing(name@),
    {
        ParseError::RectangleNotFound(concat3("Rectangle ", name.as_str(), " not found"))
    }

    /// The name a command is about, which must be stored; it becomes the
    /// last rectangle spoken of.
    pub fn target(&mut self, explicit: &Option<String>) -> (r: Result<(String, usize), ParseError>)
        ensures
            final(self).table() == old(self).table(),
            match resolved(opt_view(*explicit), old(self).last_name()) {
                Err(e) => r matches Err(x) && x@ == e && final(self).last_name() == old(self).last_name(),
                Ok(n) => if first_named(keys(old(self).table()), n) >= 0 {
                    r matches Ok((s, k)) && s@ == n && k == first_named(keys(old(self).table()), n)
                        && final(self).last_name() == Some(n)
                } else {
                    r matches Err(x) && x@ == missing(n) && final(self).last_name() == old(self).last_name()
                },
            },
    {
        let name = self.resolve(explicit)?;
        match self.find(&name) {
            Some(k) => {
                self.select(&name);
                Ok((name, k))
            },
            None => Err(Self::missing_error(&name)),
        }
    }
}

/// What a command about one stored rectangle does to the store: an unknown
/// or missing rectangle gives the error and changes nothing; otherwise the
/// rectangle becomes the last one spoken of and `edit` relates it before
/// and after, the other entries staying as they were.
pub open spec fn edits(
    old_t: Seq<Entry>,
    new_t: Seq<Entry>,
    old_last: Option<Seq<char>>,
    new_last: Option<Seq<char>>,
    explicit: Option<Seq<char>>,
    err: Option<(ErrorKind, Seq<char>)>,
    edit: spec_fn(Rectangle, Rectangle) -> bool,
) -> bool {
    match resolved(explicit, old_last) {
        Err(e) => err == Some(e) && new_t == old_t && new_last == old_last,
        Ok(n) => if first_named(keys(old_t), n) < 0 {
            err == Some(missing(n)) && new_t == old_t && new_last == old_last
        } else {
            let k = first_named(keys(old_t), n);
            &&& err is None
            &&& same_except(old_t, new_t, k)
            &&& edit(old_t[k].1, new_t[k].1)
            &&& new_last == Some(n)
        },
    }
}

/// The rectangle a command is about, when it is stored.
pub open spec fn subject(t: Seq<Entry>, last: Option<Seq<char>>, explicit: Option<Seq<char>>) -> Option<Rectangle> {
    match resolved(explicit, last) {
        Ok(n) => lookup(t, n),
        Err(_) => None,
    }
}

pub open spec fn err_of<T>(r: Result<T, ParseError>) -> Option<(ErrorKind, Seq<char>)> {
    match r {
        Ok(_) => None,
        Err(e) => Some(e@),
    }
}

/// What the area command does: the rectangle records its area, which is
/// reported under its name.
pub open spec fn area_effect(
    t: Seq<Entry>,
    l: Option<Seq<char>>,
    explicit: Option<Seq<char>>,
    t2: Seq<Entry>,
    l2: Option<Seq<char>>,
    r: Result<Outcome, ParseError>,
) -> bool {
    &&& edits(t, t2, l, l2, explicit, err_of(r), |a: Rectangle, b: Rectangle|
        b.same_shape(a) && b.props() == record(a.props(), RectangleProperties::Area(
            (abs(a.width()) * abs(a.height())) as i32)))
    &&& r matches Ok(o) ==> (o matches Outcome::Area { name, value } && Some(name@) == l2
        && value == abs(subject(t, l, explicit)->0.width()) * abs(subject(t, l, explicit)->0.height()))
}

/// What the perimeter command does: the rectangle records its perimeter,
/// which is reported (capped at `i32::MAX`) under its name.
pub open spec fn perimeter_effect(
    t: Seq<Entry>,
    l: Option<Seq<char>>,
    explicit: Option<Seq<char>>,
    t2: Seq<Entry>,
    l2: Option<Seq<char>>,
    r: Result<Outcome, ParseError>,
) -> bool {
    &&& edits(t, t2, l, l2, explicit, err_of(r), |a: Rectangle, b: Rectangle|
        b.same_shape(a) && b.props() == record(a.props(), RectangleProperties::Perimeter(
            (2 * (abs(a.width()) + abs(a.height()))) as i64)))
    &&& r matches Ok(o) ==> (o matches Outcome::Perimeter { name, value } && Some(name@) == l2
        && value == crate::rectangles::min(2 * (abs(subject(t, l, explicit)->0.width())
            + abs(subject(t, l, explicit)->0.height())), i32::MAX as int))
}

/// What the diagonal command does: the rectangle records the square of its
/// diagonal, whose integer square root is reported under its name.
pub open spec fn diagonal_effect(
    t: Seq<Entry>,
    l: Option<Seq<char>>,
    explicit: Option<Seq<char>>,
    t2: Seq<Entry>,
    l2: Option<Seq<char>>,
    r: Result<Outcome, ParseError>,
) -> bool {
    &&& edits(t, t2, l, l2, explicit, err_of(r), |a: Rectangle, b: Rectangle|
        b.same_shape(a) && b.props() == record(a.props(), RectangleProperties::Diagonal(
            (a.width() * a.width() + a.height() * a.height()) as i32)))
    &&& r matches Ok(o) ==> (o matches Outcome::Diagonal { name, value } && Some(name@) == l2
        && crate::rectangles::is_isqrt({
            let x = subject(t, l, explicit)->0;
            x.width() * x.width() + x.height() * x.height()
        }, value as int))
}

/// The rectangle keeps its names, size and records; only its corners change.
pub open spec fn same_but_corners(a: Rectangle, b: Rectangle) -> bool {
    b.point_names() == a.point_names() && b.title() == a.title()
        && b.width() == a.width() && b.height() == a.height() && b.props() == a.props()
}

/// What moving by `(dx, dy)` does.
pub open spec fn move_by_effect(
    t: Seq<Entry>,
    l: Option<Seq<char>>,
    explicit: Option<Seq<char>>,
    dx: int,
    dy: int,
    t2: Seq<Entry>,
    l2: Option<Seq<char>>,
    r: Result<Outcome, ParseError>,
) -> bool {
    &&& edits(t, t2, l, l2, explicit, err_of(r), |a: Rectangle, b: Rectangle|
        b.corners() == crate::rectangles::moved(a.corners(), dx, dy) && same_but_corners(a, b))
    &&& r matches Ok(o) ==> o is Moved
}

/// What moving the first corner to `(x, y)` does.
pub open spec fn move_to_effect(
    t: Seq<Entry>,
    l: Option<Seq<char>>,
    explicit: Option<Seq<char>>,
    x: int,
    y: int,
    t2: Seq<Entry>,
    l2: Option<Seq<char>>,
    r: Result<Outcome, ParseError>,
) -> bool {
    &&& edits(t, t2, l, l2, explicit, err_of(r), |a: Rectangle, b: Rectangle|
        b.corners() == corners_of(x, y, a.width(), a.height()) && same_but_corners(a, b))
    &&& r matches Ok(o) ==> o is Moved
}

/// What mirroring about `axis` does.
pub open spec fn reflect_effect(
    t: Seq<Entry>,
    l: Option<Seq<char>>,
    explicit: Option<Seq<char>>,
    axis: char,
    t2: Seq<Entry>,
    l2: Option<Seq<char>>,
    r: Result<Outcome, ParseError>,
) -> bool {
    &&& edits(t, t2, l, l2, explicit, err_of(r), |a: Rectangle, b: Rectangle|
        b.corners() == crate::rectangles::reflected(a.corners(), axis) && same_but_corners(a, b))
    &&& r matches Ok(o) ==> o is Moved
}

pub open spec fn area_fits(r: Rectangle) -> bool {
    r.width() != i32::MIN && r.height() != i32::MIN && abs(r.width()) * abs(r.height()) <= i32::MAX
}

pub open spec fn perimeter_fits(r: Rectangle) -> bool {
    r.width() != i32::MIN && r.height() != i32::MIN
}

pub open spec fn diagonal_fits(r: Rectangle) -> bool {
    r.width() * r.width() + r.height() * r.height() <= i32::MAX
}

pub open spec fn move_to_fits(r: Rectangle, x: int, y: int) -> bool {
    fits_i32(x + r.width()) && fits_i32(y + r.height())
}

/// The name a definition uses, and whether its arithmetic stays within
/// `i32`.
pub open spec fn define_fits(name: Seq<char>, shape: Shape) -> bool {
    match shape {
        Shape::Coordinates(c) => name_ok(name) && c@.len() == 4 ==> coords_fit(coord_seq(c@)),
        Shape::Size { width, height, x, y } => name_ok(name) ==> fits_i32(x + width) && fits_i32(y + height),
        _ => true,
    }
}

impl RectangleStore {
    fn take_out(&mut self, k: usize) -> (r: (String, Rectangle))
        requires
            k < old(self).entries@.len(),
        ensures
            final(self).entries@ == old(self).entries@.remove(k as int),
            r == old(self).entries@[k as int],
            final(self).last == old(self).last,
    {
        self.entries.remove(k)
    }

    fn put_back(&mut self, k: usize, name: String, rect: Rectangle)
        requires
            k <= old(self).entries@.len(),
        ensures
            final(self).entries@ == old(self).entries@.insert(k as int, (name, rect)),
            final(self).last == old(self).last,
    {
        self.entries.insert(k, (name, rect));
    }

    proof fn lemma_reinserted(&self, mid: Seq<(String, Rectangle)>, t: Seq<Entry>, k: int, rect: Rectangle)
        requires
            0 <= k < mid.len(),
            mid.map_values(|e: (String, Rectangle)| (e.0@, e.1)) == t,
            self.entries@ == mid.remove(k).insert(k, (self.entries@[k].0, rect)),
            self.entries@[k].0@ == t[k].0,
            keys(t).no_duplicates(),
            forall|i: int| 0 <= i < t.len() ==> (#[trigger] t[i]).1.inv(),
            rect.inv(),
        ensures
            same_except(t, self.table(), k),
            self.table()[k].1 == rect,
            self.wf(),
    {
        assert forall|j: int| 0 <= j < t.len() && j != k implies self.table()[j] == t[j] by {
            assert(self.entries@[j] == mid[j]);
        }
        self.lemma_put_back_same(t, k, rect);
    }

    proof fn lemma_put_back_same(&self, before: Seq<Entry>, k: int, rect: Rectangle)
        requires
            0 <= k < before.len(),
            self.table().len() == before.len(),
            forall|j: int| 0 <= j < before.len() && j != k ==> self.table()[j] == before[j],
            self.table()[k] == (before[k].0, rect),
            keys(before).no_duplicates(),
            forall|i: int| 0 <= i < before.len() ==> (#[trigger] before[i]).1.inv(),
            rect.inv(),
        ensures
            same_except(before, self.table(), k),
            self.wf(),
    {
        assert(keys(self.table()) =~= keys(before));
        assert forall|i: int| 0 <= i < self.table().len() implies (#[trigger] self.table()[i]).1.inv() by {
            if i != k {
                assert(self.table()[i] == before[i]);
            }
        }
    }

    /// Records and reports the area of the rectangle a command is about.
    pub fn calculate_area(&mut self, explicit: &Option<String>) -> (r: Result<Outcome, ParseError>)
        requires
            old(self).wf(),
            subject(old(self).table(), old(self).last_name(), opt_view(*explicit)) matches Some(x) ==> area_fits(x),
        ensures
            final(self).wf(),
            area_effect(old(self).table(), old(self).last_name(), opt_view(*explicit), final(self).table(), final(self).last_name(), r),
    {
        let ghost t = self.table();
        proof { lemma_first_named_spec(keys(t), resolved(opt_view(*explicit), self.last_name())->Ok_0); }
        let (name, k) = self.target(explicit)?;
        let ghost mid = self.entries@;
        let (n, mut rect) = self.take_out(k);
        assert(rect == t[k as int].1 && n@ == t[k as int].0);
        let ghost before = rect;
        let value = rect.area();
        proof {
            Rectangle::lemma_same_shape(rect, before);
        }
        self.put_back(k, n, rect);
        proof {
            self.lemma_reinserted(mid, t, k as int, rect);
        }
        Ok(Outcome::Area { name, value })
    }
}

impl RectangleStore {
    /// Records and reports the perimeter of the rectangle a command is about.
    pub fn calculate_perimeter(&mut self, explicit: &Option<String>) -> (r: Result<Outcome, ParseError>)
        requires
            old(self).wf(),
            subject(old(self).table(), old(self).last_name(), opt_view(*explicit)) matches Some(x) ==> perimeter_fits(x),
        ensures
            final(self).wf(),
            perimeter_effect(old(self).table(), old(self).last_name(), opt_view(*explicit), final(self).table(), final(self).last_name(), r),
    {
        let ghost t = self.table();
        proof { lemma_first_named_spec(keys(t), resolved(opt_view(*explicit), self.last_name())->Ok_0); }
        let (name, k) = self.target(explicit)?;
        let ghost mid = self.entries@;
        let (n, mut rect) = self.take_out(k);
        assert(rect == t[k as int].1 && n@ == t[k as int].0);
        let ghost before = rect;
        let value = rect.perimeter();
        proof {
            Rectangle::lemma_same_shape(rect, before);
        }
        self.put_back(k, n, rect);
        proof {
            self.lemma_reinserted(mid, t, k as int, rect);
        }
        Ok(Outcome::Perimeter { name, value })
    }

    /// Records and reports the diagonal of the rectangle a command is about.
    pub fn build_diagonal(&mut self, explicit: &Option<String>) -> (r: Result<Outcome, ParseError>)
        requires
            old(self).wf(),
            subject(old(self).table(), old(self).last_name(), opt_view(*explicit)) matches Some(x) ==> diagonal_fits(x),
        ensures
            final(self).wf(),
            diagonal_effect(old(self).table(), old(self).last_name(), opt_view(*explicit), final(self).table(), final(self).last_name(), r),
    {
        let ghost t = self.table();
        proof { lemma_first_named_spec(keys(t), resolved(opt_view(*explicit), self.last_name())->Ok_0); }
        let (name, k) = self.target(explicit)?;
        let ghost mid = self.entries@;
        let (n, mut rect) = self.take_out(k);
        assert(rect == t[k as int].1 && n@ == t[k as int].0);
        let ghost before = rect;
        let value = rect.diagonal();
        proof {
            Rectangle::lemma_same_shape(rect, before);
        }
        self.put_back(k, n, rect);
        proof {
            self.lemma_reinserted(mid, t, k as int, rect);
        }
        Ok(Outcome::Diagonal { name, value })
    }

    /// Moves the rectangle a command is about by `(dx, dy)`.
    pub fn move_by(&mut self, explicit: &Option<String>, dx: i32, dy: i32) -> (r: Result<Outcome, ParseError>)
        requires
            old(self).wf(),
            subject(old(self).table(), old(self).last_name(), opt_view(*explicit)) matches Some(x)
                ==> corners_move_fits(x.corners(), dx as int, dy as int),
        ensures
            final(self).wf(),
            move_by_effect(old(self).table(), old(self).last_name(), opt_view(*explicit), dx as int, dy as int, final(self).table(), final(self).last_name(), r),
    {
        let ghost t = self.table();
        proof { lemma_first_named_spec(keys(t), resolved(opt_view(*explicit), self.last_name())->Ok_0); }
        let (name, k) = self.target(explicit)?;
        let ghost mid = self.entries@;
        let (n, mut rect) = self.take_out(k);
        assert(rect == t[k as int].1 && n@ == t[k as int].0);
        rect.move_rectangle(dx, dy);
        self.put_back(k, n, rect);
        proof {
            self.lemma_reinserted(mid, t, k as int, rect);
        }
        Ok(Outcome::Moved)
    }

    /// Places the rectangle a command is about with its first corner at
    /// `(x, y)`.
    pub fn move_to(&mut self, explicit: &Option<String>, x: i32, y: i32) -> (r: Result<Outcome, ParseError>)
        requires
            old(self).wf(),
            subject(old(self).table(), old(self).last_name(), opt_view(*explicit)) matches Some(q)
                ==> move_to_fits(q, x as int, y as int),
        ensures
            final(self).wf(),
            move_to_effect(old(self).table(), old(self).last_name(), opt_view(*explicit), x as int, y as int, final(self).table(), final(self).last_name(), r),
    {
        let ghost t = self.table();
        proof { lemma_first_named_spec(keys(t), resolved(opt_view(*explicit), self.last_name())->Ok_0); }
        let (name, k) = self.target(explicit)?;
        let ghost mid = self.entries@;
        let (n, mut rect) = self.take_out(k);
        assert(rect == t[k as int].1 && n@ == t[k as int].0);
        rect.move_to(x, y);
        self.put_back(k, n, rect);
        proof {
            self.lemma_reinserted(mid, t, k as int, rect);
        }
        Ok(Outcome::Moved)
    }

    /// Mirrors the rectangle a command is about (see
    /// `Rectangle::reflect_rectangle`).
    pub fn reflect(&mut self, explicit: &Option<String>, axis: char) -> (r: Result<Outcome, ParseError>)
        requires
            old(self).wf(),
            subject(old(self).table(), old(self).last_name(), opt_view(*explicit)) matches Some(q)
                ==> reflect_fits(q.corners(), axis),
        ensures
            final(self).wf(),
            reflect_effect(old(self).table(), old(self).last_name(), opt_view(*explicit), axis, final(self).table(), final(self).last_name(), r),
    {
        let ghost t = self.table();
        proof { lemma_first_named_spec(keys(t), resolved(opt_view(*explicit), self.last_name())->Ok_0); }
        let (name, k) = self.target(explicit)?;
        let ghost mid = self.entries@;
        let (n, mut rect) = self.take_out(k);
        assert(rect == t[k as int].1 && n@ == t[k as int].0);
        rect.reflect_rectangle(axis);
        self.put_back(k, n, rect);
        proof {
            self.lemma_reinserted(mid, t, k as int, rect);
        }
        Ok(Outcome::Moved)
    }

    /// Gives the stored rectangle `name` a new size and corners and
    /// recomputes its recorded quantities (see `Rectangle::rescale`).
    pub fn rescale(&mut self, name: &String, w: i32, h: i32, corners: &[(i32, i32)])
        requires
            old(self).wf(),
            corners@.len() == 4,
            lookup(old(self).table(), name@) matches Some(q) ==> ({
                &&& crate::rectangles::has_kind(q.props(), crate::rectangles::PropertyKind::Area) ==> (w != i32::MIN && h != i32::MIN && abs(w as int) * abs(h as int) <= i32::MAX)
                &&& crate::rectangles::has_kind(q.props(), crate::rectangles::PropertyKind::Perimeter) ==> (w != i32::MIN && h != i32::MIN)
                &&& crate::rectangles::has_kind(q.props(), crate::rectangles::PropertyKind::Diagonal) ==> w * w + h * h <= i32::MAX
            }),
        ensures
            final(self).wf(),
            final(self).last_name() == old(self).last_name(),
            first_named(keys(old(self).table()), name@) < 0 ==> final(self).table() == old(self).table(),
            first_named(keys(old(self).table()), name@) >= 0 ==> ({
                let k = first_named(keys(old(self).table()), name@);
                let a = old(self).table()[k].1;
                let b = final(self).table()[k].1;
                &&& same_except(old(self).table(), final(self).table(), k)
                &&& b.corners() == coord_seq(corners@) && b.width() == w && b.height() == h
                &&& b.point_names() == a.point_names() && b.title() == a.title()
                &&& b.props() == crate::rectangles::recomputed(a.props(), w as int, h as int)
            }),
    {
        let ghost t = self.table();
        proof { lemma_first_named_spec(keys(t), name@); }
        if let Some(k) = self.find(name) {
            let ghost mid = self.entries@;
            let (n, mut rect) = self.take_out(k);
            assert(rect == t[k as int].1 && n@ == t[k as int].0);
            rect.rescale(w, h, corners);
            self.put_back(k, n, rect);
            proof {
                self.lemma_reinserted(mid, t, k as int, rect);
            }
        }
    }

    /// Puts the corners of the stored rectangle `name` at `corners`.
    pub fn place_corners(&mut self, name: &String, corners: &[(i32, i32)])
        requires
            old(self).wf(),
            corners@.len() == 4,
        ensures
            final(self).wf(),
            final(self).last_name() == old(self).last_name(),
            first_named(keys(old(self).table()), name@) < 0 ==> final(self).table() == old(self).table(),
            first_named(keys(old(self).table()), name@) >= 0 ==> ({
                let k = first_named(keys(old(self).table()), name@);
                let a = old(self).table()[k].1;
                let b = final(self).table()[k].1;
                &&& same_except(old(self).table(), final(self).table(), k)
                &&& b.corners() == coord_seq(corners@) && b.width() == a.width() && b.height() == a.height()
                &&& b.point_names() == a.point_names() && b.title() == a.title() && b.props() == a.props()
            }),
    {
        let ghost t = self.table();
        proof { lemma_first_named_spec(keys(t), name@); }
        if let Some(k) = self.find(name) {
            let ghost mid = self.entries@;
            let (n, mut rect) = self.take_out(k);
            assert(rect == t[k as int].1 && n@ == t[k as int].0);
            rect.set_corners(corners);
            self.put_back(k, n, rect);
            proof {
                self.lemma_reinserted(mid, t, k as int, rect);
            }
        }
    }
}

/// The error a definition meets, if any.
pub open spec fn define_error(n: Seq<char>, shape: Shape) -> Option<(ErrorKind, Seq<char>)> {
    match shape {
        Shape::Coordinates(c) => if !name_ok(n) {
            Some(crate::rectangles::point_names_of(n)->Err_0)
        } else if c@.len() != 4 {
            Some((ErrorKind::IncorrectInput, crate::rectangles::four_msg()))
        } else if !crate::rectangles::sides_match(coord_seq(c@)) {
            Some((ErrorKind::IncorrectInput, crate::rectangles::not_rect_msg()))
        } else {
            None
        },
        Shape::Unrecognized => None,
        _ => if !name_ok(n) {
            Some(crate::rectangles::point_names_of(n)->Err_0)
        } else {
            None
        },
    }
}

/// The rectangle `q`, named `n`, is the one a definition of `shape`
/// describes.
pub open spec fn defines(q: Rectangle, n: Seq<char>, shape: Shape) -> bool {
    &&& q.inv()
    &&& q.point_names() == crate::rectangles::names_from(n)
    &&& q.title() == n
    &&& q.props() == Seq::<RectangleProperties>::empty()
    &&& match shape {
        Shape::Coordinates(c) => q.corners() == coord_seq(c@) && (q.width(), q.height())
            == crate::rectangles::size_of_corners(coord_seq(c@)),
        Shape::Size { width, height, x, y } => q.corners() == corners_of(x as int, y as int, width as int, height as int)
            && q.width() == width && q.height() == height,
        Shape::Default => q.corners() == corners_of(0, 0, 10, 20) && q.width() == 10 && q.height() == 20,
        Shape::Unrecognized => false,
    }
}

pub open spec fn rename_missing(n: Seq<char>) -> (ErrorKind, Seq<char>) {
    (ErrorKind::IncorrectInput, "Rectangle "@ + n + " not found."@)
}

pub open spec fn no_point(p: Seq<char>) -> (ErrorKind, Seq<char>) {
    (ErrorKind::IncorrectInput, "The point "@ + p + " was not found in rectangle."@)
}

/// Whether the integer arithmetic of a command stays within `i32` and the
/// rectangles an intersection is taken of are stored.
pub open spec fn command_fits(t: Seq<Entry>, last: Option<Seq<char>>, cmd: Command) -> bool {
    match cmd {
        Command::Define { name, shape } => match resolved(opt_view(name), last) {
            Ok(n) => define_fits(n, shape),
            Err(_) => true,
        },
        Command::Area { name } => subject(t, last, opt_view(name)) matches Some(x) ==> area_fits(x),
        Command::Perimeter { name } => subject(t, last, opt_view(name)) matches Some(x) ==> perimeter_fits(x),
        Command::Diagonal { name } => subject(t, last, opt_view(name)) matches Some(x) ==> diagonal_fits(x),
        Command::MoveBy { name, dx, dy } => subject(t, last, opt_view(name)) matches Some(x)
            ==> corners_move_fits(x.corners(), dx as int, dy as int),
        Command::MoveTo { name, x, y } => subject(t, last, opt_view(name)) matches Some(q)
            ==> move_to_fits(q, x as int, y as int),
        Command::Reflect { name, axis } => subject(t, last, opt_view(name)) matches Some(q)
            ==> reflect_fits(q.corners(), axis),
        Command::MarkIntersection { first, second } => match resolved(opt_view(second), last) {
            Ok(n2) => intersection_fits(t, first@, n2),
            Err(_) => true,
        },
        Command::RenamePoint { .. } => true,
    }
}

/// Both rectangles are stored, and the size of their overlap fits `i32`.
pub open spec fn intersection_fits(t: Seq<Entry>, n1: Seq<char>, n2: Seq<char>) -> bool {
    &&& lookup(t, n1) is Some
    &&& lookup(t, n2) is Some
    &&& overlaps(lookup(t, n1)->0.corners(), lookup(t, n2)->0.corners()) ==> ({
        let o = overlap(lookup(t, n1)->0.corners(), lookup(t, n2)->0.corners());
        fits_i32(o.2 - o.0) && fits_i32(o.3 - o.1)
    })
}

/// What a definition does: the rectangle it describes is stored under the
/// name the command is about, which becomes the last one; a refused
/// definition changes nothing.
pub open spec fn define_effect(
    t: Seq<Entry>,
    l: Option<Seq<char>>,
    explicit: Option<Seq<char>>,
    shape: Shape,
    t2: Seq<Entry>,
    l2: Option<Seq<char>>,
    r: Result<Outcome, ParseError>,
) -> bool {
    match resolved(explicit, l) {
        Err(e) => r matches Err(x) && x@ == e && t2 == t
            && l2 == l,
        Ok(n) => match define_error(n, shape) {
            Some(e) => r matches Err(x) && x@ == e && t2 == t
                && l2 == l,
            None => if shape is Unrecognized {
                r matches Ok(o) && o is Ignored && t2 == t
                    && l2 == l
            } else {
                &&& r matches Ok(o) && o is Defined
                &&& lookup(t2, n) is Some
                &&& defines(lookup(t2, n)->0, n, shape)
                &&& t2 == upsert(t, n, lookup(t2, n)->0)
                &&& l2 == Some(n)
            },
        },
    }
}

/// What marking an intersection does: when the rectangles overlap, their
/// overlap is stored under its own name.
pub open spec fn intersection_effect(
    t: Seq<Entry>,
    l: Option<Seq<char>>,
    first: Seq<char>,
    second: Option<Seq<char>>,
    t2: Seq<Entry>,
    r: Result<Outcome, ParseError>,
) -> bool {
    match resolved(second, l) {
        Err(e) => r matches Err(x) && x@ == e && t2 == t,
        Ok(n2) => {
            let a = lookup(t, first)->0;
            let b = lookup(t, n2)->0;
            if overlaps(a.corners(), b.corners()) {
                let iname = crate::rectangles::intersection_name(a.title(), b.title());
                &&& r matches Ok(o) && o matches Outcome::IntersectionAdded { name } && name@ == iname
                &&& lookup(t2, iname) is Some
                &&& t2 == upsert(t, iname, lookup(t2, iname)->0)
                &&& crate::rectangles::is_intersection_of(a, b, lookup(t2, iname)->0)
            } else {
                r matches Ok(o) && o matches Outcome::NoIntersection { first: f, second: s }
                    && f@ == first && s@ == n2 && t2 == t
            }
        },
    }
}

/// What renaming a point does: the rectangle leaves the store and comes
/// back under its new name only when the rename succeeds.
pub open spec fn rename_effect(
    t: Seq<Entry>,
    l: Option<Seq<char>>,
    explicit: Option<Seq<char>>,
    old_name: Seq<char>,
    new_name: Seq<char>,
    t2: Seq<Entry>,
    r: Result<Outcome, ParseError>,
) -> bool {
    match resolved(explicit, l) {
        Err(e) => r matches Err(x) && x@ == e && t2 == t,
        Ok(n) => match lookup(t, n) {
            None => r matches Err(x) && x@ == rename_missing(n) && t2 == t,
            Some(q) => if !q.point_names().contains(old_name) {
                r matches Err(x) && x@ == no_point(old_name) && t2 == without(t, n)
            } else {
                match crate::rectangles::rename_result(q.point_names(), old_name, new_name) {
                    Ok(ns) => {
                        let nn = crate::rectangles::concat_names(ns);
                        &&& r matches Ok(o) && o is Renamed
                        &&& lookup(t2, nn) is Some
                        &&& t2 == upsert(without(t, n), nn, lookup(t2, nn)->0)
                        &&& lookup(t2, nn)->0.point_names() == ns
                        &&& lookup(t2, nn)->0.title() == nn
                        &&& lookup(t2, nn)->0.corners() == q.corners()
                        &&& lookup(t2, nn)->0.width() == q.width() && lookup(t2, nn)->0.height() == q.height()
                        &&& lookup(t2, nn)->0.props() == q.props()
                    },
                    Err(e) => r matches Ok(o) && o matches Outcome::RenameFailed(x) && x@ == e
                        && t2 == without(t, n),
                }
            },
        },
    }
}

impl RectangleStore {
    /// Defines a rectangle under the name a command is about and makes it
    /// the last one.
    pub fn define(&mut self, explicit: &Option<String>, shape: &Shape) -> (r: Result<Outcome, ParseError>)
        requires
            old(self).wf(),
            resolved(opt_view(*explicit), old(self).last_name()) matches Ok(n) ==> define_fits(n, *shape),
        ensures
            final(self).wf(),
            define_effect(old(self).table(), old(self).last_name(), opt_view(*explicit), *shape, final(self).table(), final(self).last_name(), r),
    {
        let name = self.resolve(explicit)?;
        let rect = match shape {
            Shape::Coordinates(c) => Rectangle::new_from_coords(&name, c.as_slice())?,
            Shape::Size { width, height, x, y } => Rectangle::new(*x, *y, *width, *height, &name)?,
            Shape::Default => Rectangle::new(0, 0, 10, 20, &name)?,
            Shape::Unrecognized => {
                return Ok(Outcome::Ignored);
            },
        };
        let ghost t = self.table();
        let ghost n = name@;
        self.store(name.clone(), rect);
        self.select(&name);
        proof {
            lemma_lookup_upsert(t, n, n, rect);
        }
        Ok(Outcome::Defined)
    }

    /// Stores the intersection of rectangle `first` and the one a command is
    /// about, under the intersection's name, when they overlap.
    pub fn mark_intersection(&mut self, first: &String, second: &Option<String>) -> (r: Result<Outcome, ParseError>)
        requires
            old(self).wf(),
            resolved(opt_view(*second), old(self).last_name()) matches Ok(n2) ==> intersection_fits(
                old(self).table(),
                first@,
                n2,
            ),
        ensures
            final(self).wf(),
            final(self).last_name() == old(self).last_name(),
            intersection_effect(old(self).table(), old(self).last_name(), first@, opt_view(*second), final(self).table(), r),
    {
        let name2 = self.resolve(second)?;
        let ghost t = self.table();
        let inter = {
            let a = self.get(first).unwrap();
            let b = self.get(&name2).unwrap();
            proof {
                lemma_first_named_spec(keys(t), first@);
                lemma_first_named_spec(keys(t), name2@);
            }
            a.intersection(b)
        };
        match inter {
            None => Ok(Outcome::NoIntersection { first: first.clone(), second: name2 }),
            Some(i) => {
                let iname = i.get_name().clone();
                let ghost ir = i;
                self.store(iname.clone(), i);
                proof {
                    lemma_lookup_upsert(t, iname@, iname@, ir);
                }
                Ok(Outcome::IntersectionAdded { name: iname })
            },
        }
    }

    fn remove_at(&mut self, k: usize) -> (r: Rectangle)
        requires
            old(self).wf(),
            k < old(self).entries@.len(),
        ensures
            final(self).wf(),
            final(self).table() == old(self).table().remove(k as int),
            r == old(self).table()[k as int].1,
            final(self).last_name() == old(self).last_name(),
    {
        let ghost t = self.table();
        let (_, rect) = self.entries.remove(k);
        assert(self.table() =~= t.remove(k as int));
        assert(keys(self.table()) =~= keys(t).remove(k as int));
        assert forall|a: int, b: int| 0 <= a < b < keys(self.table()).len() implies keys(self.table())[a] != keys(self.table())[b] by {
            let a2 = if a < k { a } else { a + 1 };
            let b2 = if b < k { b } else { b + 1 };
            assert(keys(self.table())[a] == keys(t)[a2]);
            assert(keys(self.table())[b] == keys(t)[b2]);
        }
        assert forall|i: int| 0 <= i < self.table().len() implies (#[trigger] self.table()[i]).1.inv() by {
            if i < k { assert(self.table()[i] == t[i]); } else { assert(self.table()[i] == t[i + 1]); }
        }
        rect
    }

    fn point_error(prefix: &str, middle: &String, suffix: &str) -> (e: ParseError)
        ensures
            e@ == (ErrorKind::IncorrectInput, prefix@ + middle@ + suffix@),
    {
        ParseError::IncorrectInput(concat3(prefix, middle.as_str(), suffix))
    }

    /// Takes the rectangle a command is about out of the store and renames
    /// its point `old_name` to `new_name`; on success it is stored again
    /// under its new name, otherwise the refusal is reported and the
    /// rectangle stays out.
    pub fn rename_point(&mut self, explicit: &Option<String>, old_name: &String, new_name: &String) -> (r: Result<Outcome, ParseError>)
        requires
            old(self).wf(),
        ensures
            final(self).wf(),
            final(self).last_name() == old(self).last_name(),
            rename_effect(old(self).table(), old(self).last_name(), opt_view(*explicit), old_name@, new_name@, final(self).table(), r),
    {
        let name = self.resolve(explicit)?;
        let ghost t = self.table();
        proof { lemma_first_named_spec(keys(t), name@); }
        let k = match self.find(&name) {
            Some(k) => k,
            None => {
                return Err(Self::point_error("Rectangle ", &name, " not found."));
            },
        };
        let mut rect = self.remove_at(k);
        assert(self.table() =~= without(t, name@));
        if !rect.has_point(old_name) {
            return Err(Self::point_error("The point ", old_name, " was not found in rectangle."));
        }
        match rect.rename_point(old_name.as_str(), new_name.as_str()) {
            Ok(()) => {
                let nn = rect.get_name().clone();
                let ghost rr = rect;
                let ghost w = self.table();
                self.store(nn, rect);
                proof {
                    lemma_lookup_upsert(w, rr.title(), rr.title(), rr);
                }
                Ok(Outcome::Renamed)
            },
            Err(e) => Ok(Outcome::RenameFailed(e)),
        }
    }
}

} // verus!
