//! Running one command of the rectangle language against a store.  Before
//! the command runs, its integer arithmetic is checked to stay within
//! `i32`; a command that would leave that range is not run.

use vstd::prelude::*;

use crate::rectangles::{
    coord_seq, coords_fit, corners_move_fits, dist2, fits_i32, point_reflect_fits, reflect_fits,
    sides_match, Point, Rectangle,
};
use crate::store::{
    area_effect, area_fits, command_fits, define_effect, define_fits, diagonal_effect,
    diagonal_fits, intersection_effect, intersection_fits, keys, lookup, move_by_effect,
    move_to_effect, move_to_fits, opt_view, perimeter_effect, perimeter_fits, reflect_effect,
    rename_effect, resolved, subject, Command, Entry, Outcome, RectangleStore, Shape,
};
use crate::rectangles::{lemma_first_named_spec, ParseError};

verus! {

/// What running `cmd` does to the table and the last rectangle, and what it
/// answers.
pub open spec fn command_effect(
    t: Seq<Entry>,
    l: Option<Seq<char>>,
    cmd: Command,
    t2: Seq<Entry>,
    l2: Option<Seq<char>>,
    r: Result<Outcome, ParseError>,
) -> bool {
    match cmd {
        Command::Define { name, shape } => define_effect(t, l, opt_view(name), shape, t2, l2, r),
        Command::Area { name } => area_effect(t, l, opt_view(name), t2, l2, r),
        Command::Perimeter { name } => perimeter_effect(t, l, opt_view(name), t2, l2, r),
        Command::Diagonal { name } => diagonal_effect(t, l, opt_view(name), t2, l2, r),
        Command::MoveBy { name, dx, dy } => move_by_effect(t, l, opt_view(name), dx as int, dy as int, t2, l2, r),
        Command::MoveTo { name, x, y } => move_to_effect(t, l, opt_view(name), x as int, y as int, t2, l2, r),
        Command::Reflect { name, axis } => reflect_effect(t, l, opt_view(name), axis, t2, l2, r),
        Command::MarkIntersection { first, second } => l2 == l && intersection_effect(
            t,
            l,
            first@,
            opt_view(second),
            t2,
            r,
        ),
        Command::RenamePoint { name, old_name, new_name } => l2 == l && rename_effect(
            t,
            l,
            opt_view(name),
            old_name@,
            new_name@,
            t2,
            r,
        ),
    }
}

/// A stored rectangle is well formed.
proof fn lemma_lookup_inv(t: Seq<Entry>, n: Seq<char>)
    requires
        forall|i: int| 0 <= i < t.len() ==> (#[trigger] t[i]).1.inv(),
    ensures
        lookup(t, n) matches Some(x) ==> x.inv(),
{
    lemma_first_named_spec(keys(t), n);
}

fn within_i32(v: i64) -> (b: bool)
    ensures
        b == fits_i32(v as int),
{
    i32::MIN as i64 <= v && v <= i32::MAX as i64
}

fn area_ok(r: &Rectangle) -> (b: bool)
    ensures
        b == area_fits(*r),
{
    let w = r.get_width();
    let h = r.get_height();
    if w == i32::MIN || h == i32::MIN {
        return false;
    }
    let aw: i64 = if w < 0 { -(w as i64) } else { w as i64 };
    let ah: i64 = if h < 0 { -(h as i64) } else { h as i64 };
    assert(0 <= aw * ah <= 0x7fff_ffff * 0x7fff_ffff) by (nonlinear_arith)
        requires
            0 <= aw <= 0x7fff_ffff,
            0 <= ah <= 0x7fff_ffff,
    ;
    aw * ah <= i32::MAX as i64
}

fn diagonal_ok(r: &Rectangle) -> (b: bool)
    ensures
        b == diagonal_fits(*r),
{
    let w = r.get_width() as i128;
    let h = r.get_height() as i128;
    assert(0 <= w * w <= 0x4000_0000_0000_0000) by (nonlinear_arith)
        requires
            -0x8000_0000 <= w <= 0x7fff_ffff,
    ;
    assert(0 <= h * h <= 0x4000_0000_0000_0000) by (nonlinear_arith)
        requires
            -0x8000_0000 <= h <= 0x7fff_ffff,
    ;
    w * w + h * h <= i32::MAX as i128
}

fn move_to_ok(r: &Rectangle, x: i32, y: i32) -> (b: bool)
    ensures
        b == move_to_fits(*r, x as int, y as int),
{
    within_i32(x as i64 + r.get_width() as i64) && within_i32(y as i64 + r.get_height() as i64)
}

fn move_by_ok(r: &Rectangle, dx: i32, dy: i32) -> (b: bool)
    ensures
        b == corners_move_fits(r.corners(), dx as int, dy as int),
{
    let ps = r.get_points();
    let ghost c = r.corners();
    assert(c.len() == ps@.len());
    let mut i: usize = 0;
    while i < ps.len()
        invariant
            i <= ps@.len(),
            ps@.map_values(|p: Point| (p.x as int, p.y as int)) == c,
            c.len() == ps@.len(),
            c == r.corners(),
            forall|j: int| 0 <= j < i ==> fits_i32((#[trigger] c[j]).0 + dx) && fits_i32(c[j].1 + dy),
        decreases ps@.len() - i,
    {
        let p = &ps[i];
        assert(c[i as int] == (p.x as int, p.y as int));
        if !within_i32(p.x as i64 + dx as i64) || !within_i32(p.y as i64 + dy as i64) {
            assert(!(fits_i32(c[i as int].0 + dx as int) && fits_i32(c[i as int].1 + dy as int)));
            assert(!corners_move_fits(c, dx as int, dy as int));
            return false;
        }
        i = i + 1;
    }
    true
}

fn reflect_ok(r: &Rectangle, axis: char) -> (b: bool)
    requires
        r.inv(),
    ensures
        b == reflect_fits(r.corners(), axis),
{
    let ps = r.get_points();
    let ghost c = r.corners();
    let ox = ps[0].x as i64;
    let oy = ps[0].y as i64;
    assert(c[0] == (ox as int, oy as int));
    assert(c.len() == ps@.len());
    let mut i: usize = 0;
    while i < ps.len()
        invariant
            i <= ps@.len(),
            ps@.map_values(|p: Point| (p.x as int, p.y as int)) == c,
            c.len() == ps@.len(),
            c == r.corners(),
            c[0] == (ox as int, oy as int),
            forall|j: int| 0 <= j < i ==> point_reflect_fits(c[0], #[trigger] c[j], axis),
        decreases ps@.len() - i,
    {
        let p = &ps[i];
        assert(c[i as int] == (p.x as int, p.y as int));
        let px = p.x as i64;
        let py = p.y as i64;
        if axis == 'X' && !(within_i32(py - oy) && within_i32(oy - (py - oy))) {
            assert(!point_reflect_fits(c[0], c[i as int], axis));
            return false;
        }
        if axis == 'Y' && !(within_i32(px - ox) && within_i32(ox - (px - ox))) {
            assert(!point_reflect_fits(c[0], c[i as int], axis));
            return false;
        }
        i = i + 1;
    }
    true
}

fn dist2_of(a: (i32, i32), b: (i32, i32)) -> (r: i128)
    ensures
        r == dist2((a.0 as int, a.1 as int), (b.0 as int, b.1 as int)),
{
    let dx = a.0 as i128 - b.0 as i128;
    let dy = a.1 as i128 - b.1 as i128;
    assert(0 <= dx * dx <= 0x1_0000_0000 * 0x1_0000_0000) by (nonlinear_arith)
        requires
            -0x1_0000_0000 <= dx <= 0x1_0000_0000,
    ;
    assert(0 <= dy * dy <= 0x1_0000_0000 * 0x1_0000_0000) by (nonlinear_arith)
        requires
            -0x1_0000_0000 <= dy <= 0x1_0000_0000,
    ;
    dx * dx + dy * dy
}

fn coords_ok(c: &[(i32, i32)]) -> (b: bool)
    requires
        c@.len() == 4,
    ensures
        b == coords_fit(coord_seq(c@)),
{
    let ghost s = coord_seq(c@);
    assert(s[0] == (c@[0].0 as int, c@[0].1 as int));
    assert(s[1] == (c@[1].0 as int, c@[1].1 as int));
    assert(s[2] == (c@[2].0 as int, c@[2].1 as int));
    assert(s[3] == (c@[3].0 as int, c@[3].1 as int));
    let d01 = dist2_of(c[0], c[1]);
    let d12 = dist2_of(c[1], c[2]);
    let d23 = dist2_of(c[2], c[3]);
    let d30 = dist2_of(c[3], c[0]);
    let m = i32::MAX as i128;
    if d01 > m || d12 > m || d23 > m || d30 > m {
        return false;
    }
    if d01 == d23 && d12 == d30 {
        assert(sides_match(s));
        let dy = c[2].1 as i64 - c[0].1 as i64;
        (i32::MIN as i64) < dy && dy <= i32::MAX as i64
    } else {
        true
    }
}

fn define_ok(n: &String, shape: &Shape) -> (b: bool)
    ensures
        b == define_fits(n@, *shape),
{
    match shape {
        Shape::Coordinates(c) => {
            if c.len() != 4 {
                return true;
            }
            match Rectangle::validate_name(n) {
                Ok(()) => coords_ok(c.as_slice()),
                Err(_) => true,
            }
        },
        Shape::Size { width, height, x, y } => match Rectangle::validate_name(n) {
            Ok(()) => within_i32(*x as i64 + *width as i64) && within_i32(*y as i64 + *height as i64),
            Err(_) => true,
        },
        _ => true,
    }
}

impl RectangleStore {
    /// The rectangle a command is about, when it is stored.
    fn subject_of(&self, explicit: &Option<String>) -> (r: Option<&Rectangle>)
        requires
            self.wf(),
        ensures
            match r {
                Some(x) => subject(self.table(), self.last_name(), opt_view(*explicit)) == Some(*x)
                    && x.inv(),
                None => subject(self.table(), self.last_name(), opt_view(*explicit)) is None,
            },
    {
        match self.resolve(explicit) {
            Ok(n) => {
                proof {
                    lemma_lookup_inv(self.table(), n@);
                }
                self.get(&n)
            },
            Err(_) => None,
        }
    }

    fn intersection_ok(&self, first: &String, second: &String) -> (b: bool)
        requires
            self.wf(),
        ensures
            b == intersection_fits(self.table(), first@, second@),
    {
        proof {
            lemma_lookup_inv(self.table(), first@);
            lemma_lookup_inv(self.table(), second@);
        }
        let a = match self.get(first) {
            Some(a) => a,
            None => {
                return false;
            },
        };
        let b = match self.get(second) {
            Some(b) => b,
            None => {
                return false;
            },
        };
        let pa = a.get_points();
        let pb = b.get_points();
        let ghost ca = a.corners();
        let ghost cb = b.corners();
        assert(ca[0] == (pa@[0].x as int, pa@[0].y as int));
        assert(ca[1] == (pa@[1].x as int, pa@[1].y as int));
        assert(ca[2] == (pa@[2].x as int, pa@[2].y as int));
        assert(cb[0] == (pb@[0].x as int, pb@[0].y as int));
        assert(cb[1] == (pb@[1].x as int, pb@[1].y as int));
        assert(cb[2] == (pb@[2].x as int, pb@[2].y as int));
        let x1: i64 = if pa[0].x >= pb[0].x { pa[0].x as i64 } else { pb[0].x as i64 };
        let y1: i64 = if pa[0].y >= pb[0].y { pa[0].y as i64 } else { pb[0].y as i64 };
        let x2: i64 = if pa[2].x <= pb[2].x { pa[2].x as i64 } else { pb[2].x as i64 };
        let y2: i64 = if pa[1].y <= pb[1].y { pa[1].y as i64 } else { pb[1].y as i64 };
        if x1 < x2 && y1 < y2 {
            within_i32(x2 - x1) && within_i32(y2 - y1)
        } else {
            true
        }
    }

    /// Whether the integer arithmetic of `cmd` stays within `i32` on this
    /// store, and an intersection's rectangles are stored.
    pub fn command_fits(&self, cmd: &Command) -> (b: bool)
        requires
            self.wf(),
        ensures
            b == command_fits(self.table(), self.last_name(), *cmd),
    {
        match cmd {
            Command::Define { name, shape } => match self.resolve(name) {
                Ok(n) => define_ok(&n, shape),
                Err(_) => true,
            },
            Command::Area { name } => match self.subject_of(name) {
                Some(x) => area_ok(x),
                None => true,
            },
            Command::Perimeter { name } => match self.subject_of(name) {
                Some(x) => x.get_width() != i32::MIN && x.get_height() != i32::MIN,
                None => true,
            },
            Command::Diagonal { name } => match self.subject_of(name) {
                Some(x) => diagonal_ok(x),
                None => true,
            },
            Command::MoveBy { name, dx, dy } => match self.subject_of(name) {
                Some(x) => move_by_ok(x, *dx, *dy),
                None => true,
            },
            Command::MoveTo { name, x, y } => match self.subject_of(name) {
                Some(q) => move_to_ok(q, *x, *y),
                None => true,
            },
            Command::Reflect { name, axis } => match self.subject_of(name) {
                Some(q) => reflect_ok(q, *axis),
                None => true,
            },
            Command::MarkIntersection { first, second } => match self.resolve(second) {
                Ok(n2) => self.intersection_ok(first, &n2),
                Err(_) => true,
            },
            Command::RenamePoint { .. } => true,
        }
    }

    /// Runs one command: `None` when its integer arithmetic would leave
    /// `i32` (the store is then unchanged), else what the command answers.
    pub fn execute(&mut self, cmd: &Command) -> (r: Option<Result<Outcome, ParseError>>)
        requires
            old(self).wf(),
        ensures
            final(self).wf(),
            r is None <==> !command_fits(old(self).table(), old(self).last_name(), *cmd),
            r is None ==> final(self).table() == old(self).table() && final(self).last_name()
                == old(self).last_name(),
            r matches Some(res) ==> command_effect(
                old(self).table(),
                old(self).last_name(),
                *cmd,
                final(self).table(),
                final(self).last_name(),
                res,
            ),
    {
        if !self.command_fits(cmd) {
            return None;
        }
        let res = match cmd {
            Command::Define { name, shape } => self.define(name, shape),
            Command::Area { name } => self.calculate_area(name),
            Command::Perimeter { name } => self.calculate_perimeter(name),
            Command::Diagonal { name } => self.build_diagonal(name),
            Command::MoveBy { name, dx, dy } => self.move_by(name, *dx, *dy),
            Command::MoveTo { name, x, y } => self.move_to(name, *x, *y),
            Command::Reflect { name, axis } => self.reflect(name, *axis),
            Command::MarkIntersection { first, second } => self.mark_intersection(first, second),
            Command::RenamePoint { name, old_name, new_name } => self.rename_point(name, old_name, new_name),
        };
        Some(res)
    }
}

} // verus!
