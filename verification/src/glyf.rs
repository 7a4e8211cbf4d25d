//! Decoder for the quadratic (`glyf`/`loca`) outline format.
//!
//! A glyph id is resolved to a byte range through the offset index, and
//! the glyph's simple or composite outline is decoded and streamed to the
//! caller's sink.  Composite glyphs recurse into their children with an
//! explicit depth counter, so crafted cyclic references fail cleanly with
//! a typed error instead of exhausting the call stack.

use vstd::prelude::*;

use crate::Error;
use crate::OutlineBuilder;
use crate::OutlineEvent;
use crate::Rect;
use crate::coords::COORD_MAX;
use crate::coords::cadd;
use crate::coords::clamp_coord;
use crate::coords::clamp_wide;
use crate::coords::in_coord_range;
use crate::parser::Stream;
use crate::parser::read_u16_at;
use crate::parser::read_u32_at;

verus! {

broadcast use vstd::slice::axiom_spec_len;

/// Bound on composite-glyph recursion depth: deeper nestings fail with
/// [`Error::RecursionLimitReached`] rather than exhausting the stack.
pub const MAX_COMPONENT_DEPTH: u8 = 16;

/// Unit of the linear part of a [`Transform`]: components are stored
/// multiplied by this factor (the 2.14 fixed-point convention of
/// composite-glyph records).
pub const TRANSFORM_ONE: i32 = 16384;

/// Floor division by [`TRANSFORM_ONE`].
pub fn div_transform_one(v: i64) -> (r: i64)
    requires
        -0x4000_0000_0000_0000 <= v <= 0x4000_0000_0000_0000,
    ensures
        r == v as int / 16384,
{
    if v >= 0 {
        let q = (v as u64) / 16384;
        q as i64
    } else {
        let m = (-v) as u64;
        let q = m / 16384;
        let rem = m % 16384;
        proof {
            crate::coords::lemma_neg_div(m as int, 16384);
        }
        if rem == 0 {
            -(q as i64)
        } else {
            -(q as i64) - 1
        }
    }
}

/// Floor of the average of two coordinates.
pub fn avg_floor(a: i32, b: i32) -> (r: i32)
    requires
        in_coord_range(a as int),
        in_coord_range(b as int),
    ensures
        r == (a + b) / 2,
        in_coord_range(r as int),
{
    let s: i64 = a as i64 + b as i64;
    if s >= 0 {
        let q = (s as u64) / 2;
        q as i64 as i32
    } else {
        let m = (-s) as u64;
        let q = m / 2;
        let rem = m % 2;
        proof {
            crate::coords::lemma_neg_div(m as int, 2);
        }
        if rem == 0 {
            -(q as i64) as i32
        } else {
            (-(q as i64) - 1) as i32
        }
    }
}

/// Product of two values bounded by `m` and `n` is bounded by `m * n`.
proof fn lemma_mul_bound(a: int, x: int, m: int, n: int)
    by (nonlinear_arith)
    requires
        -m <= a <= m,
        -n <= x <= n,
        m >= 0,
        n >= 0,
    ensures
        -(m * n) <= a * x <= m * n,
{
}

/// An affine transform applied to every coordinate a composite-glyph
/// component emits: `x' = (a*x + c*y) / `[`TRANSFORM_ONE`]` + e` and
/// `y' = (b*x + d*y) / `[`TRANSFORM_ONE`]` + f`, clamped into the
/// coordinate range.
#[derive(Clone, Copy, PartialEq, Eq, Structural, Debug)]
pub struct Transform {
    pub a: i32,
    pub b: i32,
    pub c: i32,
    pub d: i32,
    pub e: i32,
    pub f: i32,
}

impl Transform {
    /// All components lie in the coordinate range.
    pub open spec fn wf(&self) -> bool {
        &&& in_coord_range(self.a as int)
        &&& in_coord_range(self.b as int)
        &&& in_coord_range(self.c as int)
        &&& in_coord_range(self.d as int)
        &&& in_coord_range(self.e as int)
        &&& in_coord_range(self.f as int)
    }

    /// The identity transform.
    pub fn identity() -> (t: Self)
        ensures
            t == Self::spec_identity(),
    {
        Transform { a: TRANSFORM_ONE, b: 0, c: 0, d: TRANSFORM_ONE, e: 0, f: 0 }
    }

    /// The identity transform.
    pub open spec fn spec_identity() -> Self {
        Transform { a: TRANSFORM_ONE, b: 0i32, c: 0i32, d: TRANSFORM_ONE, e: 0i32, f: 0i32 }
    }

    /// Whether this transform is a pure shift by `(dx, dy)`.
    pub open spec fn is_translation(&self, dx: int, dy: int) -> bool {
        &&& self.a == TRANSFORM_ONE
        &&& self.b == 0
        &&& self.c == 0
        &&& self.d == TRANSFORM_ONE
        &&& self.e == dx
        &&& self.f == dy
    }

    /// The transformed x coordinate of `(x, y)`.
    pub open spec fn map_x(&self, x: int, y: int) -> int {
        clamp_coord((self.a * x + self.c * y) / (TRANSFORM_ONE as int) + self.e)
    }

    /// The transformed y coordinate of `(x, y)`.
    pub open spec fn map_y(&self, x: int, y: int) -> int {
        clamp_coord((self.b * x + self.d * y) / (TRANSFORM_ONE as int) + self.f)
    }

    /// Applies the transform to the x coordinate of a point.
    pub fn apply_x(&self, x: i32, y: i32) -> (r: i32)
        requires
            self.wf(),
            in_coord_range(x as int),
            in_coord_range(y as int),
        ensures
            r == self.map_x(x as int, y as int),
            in_coord_range(r as int),
    {
        proof {
            lemma_mul_bound(self.a as int, x as int, COORD_MAX as int, COORD_MAX as int);
            lemma_mul_bound(self.c as int, y as int, COORD_MAX as int, COORD_MAX as int);
        }
        let lin: i64 = (self.a as i64) * (x as i64) + (self.c as i64) * (y as i64);
        let q = div_transform_one(lin);
        clamp_wide(q + (self.e as i64))
    }

    /// Applies the transform to the y coordinate of a point.
    pub fn apply_y(&self, x: i32, y: i32) -> (r: i32)
        requires
            self.wf(),
            in_coord_range(x as int),
            in_coord_range(y as int),
        ensures
            r == self.map_y(x as int, y as int),
            in_coord_range(r as int),
    {
        proof {
            lemma_mul_bound(self.b as int, x as int, COORD_MAX as int, COORD_MAX as int);
            lemma_mul_bound(self.d as int, y as int, COORD_MAX as int, COORD_MAX as int);
        }
        let lin: i64 = (self.b as i64) * (x as i64) + (self.d as i64) * (y as i64);
        let q = div_transform_one(lin);
        clamp_wide(q + (self.f as i64))
    }

    /// The composition "apply `child`, then apply `self`", with each
    /// component rounded back into 2.14 precision and clamped.
    pub fn combine(&self, child: &Transform) -> (t: Transform)
        requires
            self.wf(),
            child.wf(),
        ensures
            t.wf(),
            t == self.spec_combine(*child),
    {
        Transform {
            a: self.combine_lin(child.a, child.b),
            b: self.combine_lin2(child.a, child.b),
            c: self.combine_lin(child.c, child.d),
            d: self.combine_lin2(child.c, child.d),
            e: cadd(self.combine_lin(child.e, child.f), self.e),
            f: cadd(self.combine_lin2(child.e, child.f), self.f),
        }
    }

    /// The composition "apply `child`, then apply `self`".
    pub open spec fn spec_combine(&self, child: Transform) -> Transform {
        Transform {
            a: clamp_coord((self.a * child.a + self.c * child.b) / (TRANSFORM_ONE as int)) as i32,
            b: clamp_coord((self.b * child.a + self.d * child.b) / (TRANSFORM_ONE as int)) as i32,
            c: clamp_coord((self.a * child.c + self.c * child.d) / (TRANSFORM_ONE as int)) as i32,
            d: clamp_coord((self.b * child.c + self.d * child.d) / (TRANSFORM_ONE as int)) as i32,
            e: clamp_coord(
                clamp_coord((self.a * child.e + self.c * child.f) / (TRANSFORM_ONE as int))
                    + self.e,
            ) as i32,
            f: clamp_coord(
                clamp_coord((self.b * child.e + self.d * child.f) / (TRANSFORM_ONE as int))
                    + self.f,
            ) as i32,
        }
    }

    /// One row of the composition's linear algebra, using `a`/`c`.
    fn combine_lin(&self, u: i32, v: i32) -> (r: i32)
        requires
            self.wf(),
            in_coord_range(u as int),
            in_coord_range(v as int),
        ensures
            r == clamp_coord((self.a * u + self.c * v) / (TRANSFORM_ONE as int)),
            in_coord_range(r as int),
    {
        proof {
            lemma_mul_bound(self.a as int, u as int, COORD_MAX as int, COORD_MAX as int);
            lemma_mul_bound(self.c as int, v as int, COORD_MAX as int, COORD_MAX as int);
        }
        let lin: i64 = (self.a as i64) * (u as i64) + (self.c as i64) * (v as i64);
        clamp_wide(div_transform_one(lin))
    }

    /// One row of the composition's linear algebra, using `b`/`d`.
    fn combine_lin2(&self, u: i32, v: i32) -> (r: i32)
        requires
            self.wf(),
            in_coord_range(u as int),
            in_coord_range(v as int),
        ensures
            r == clamp_coord((self.b * u + self.d * v) / (TRANSFORM_ONE as int)),
            in_coord_range(r as int),
    {
        proof {
            lemma_mul_bound(self.b as int, u as int, COORD_MAX as int, COORD_MAX as int);
            lemma_mul_bound(self.d as int, v as int, COORD_MAX as int, COORD_MAX as int);
        }
        let lin: i64 = (self.b as i64) * (u as i64) + (self.d as i64) * (v as i64);
        clamp_wide(div_transform_one(lin))
    }
}

/// A transform with unit scale and offset `(dx, dy)` shifts every
/// coordinate it is applied to by exactly `(dx, dy)`, whenever the
/// shifted point stays in the coordinate range (as every real font's
/// points do).
pub proof fn lemma_translation_shifts_point(t: Transform, dx: int, dy: int, x: int, y: int)
    requires
        t.is_translation(dx, dy),
        in_coord_range(x),
        in_coord_range(y),
        in_coord_range(x + dx),
        in_coord_range(y + dy),
    ensures
        t.map_x(x, y) == x + dx,
        t.map_y(x, y) == y + dy,
{
    assert((16384 * x + 0 * y) / 16384 == x) by (nonlinear_arith);
    assert((0 * x + 16384 * y) / 16384 == y) by (nonlinear_arith);
}

/// Composing a component transform onto the identity gives back that
/// component transform exactly, provided its offsets stay in range when
/// clamped (component records store them in 16 bits, so they always do).
pub proof fn lemma_identity_combine(c: Transform)
    requires
        c.wf(),
    ensures
        Transform::spec_identity().spec_combine(c) == c,
{
    assert((16384 * (c.a as int) + 0 * (c.b as int)) / 16384 == c.a) by (nonlinear_arith);
    assert((0 * (c.a as int) + 16384 * (c.b as int)) / 16384 == c.b) by (nonlinear_arith);
    assert((16384 * (c.c as int) + 0 * (c.d as int)) / 16384 == c.c) by (nonlinear_arith);
    assert((0 * (c.c as int) + 16384 * (c.d as int)) / 16384 == c.d) by (nonlinear_arith);
    assert((16384 * (c.e as int) + 0 * (c.f as int)) / 16384 == c.e) by (nonlinear_arith);
    assert((0 * (c.e as int) + 16384 * (c.f as int)) / 16384 == c.f) by (nonlinear_arith);
}

/// Whether every coordinate of an outline event lies in the coordinate
/// range.
pub open spec fn event_in_range(ev: OutlineEvent) -> bool {
    match ev {
        OutlineEvent::MoveTo { x, y } => in_coord_range(x as int) && in_coord_range(y as int),
        OutlineEvent::LineTo { x, y } => in_coord_range(x as int) && in_coord_range(y as int),
        OutlineEvent::QuadTo { x1, y1, x, y } => in_coord_range(x1 as int) && in_coord_range(
            y1 as int,
        ) && in_coord_range(x as int) && in_coord_range(y as int),
        OutlineEvent::CurveTo { x1, y1, x2, y2, x, y } => in_coord_range(x1 as int)
            && in_coord_range(y1 as int) && in_coord_range(x2 as int) && in_coord_range(y2 as int)
            && in_coord_range(x as int) && in_coord_range(y as int),
        OutlineEvent::Close => true,
    }
}

/// The event with `t` applied to each of its points: exactly what the
/// decoder forwards to the sink for a component drawn under `t`.
pub open spec fn event_mapped(t: Transform, ev: OutlineEvent) -> OutlineEvent {
    match ev {
        OutlineEvent::MoveTo { x, y } => OutlineEvent::MoveTo {
            x: t.map_x(x as int, y as int) as i32,
            y: t.map_y(x as int, y as int) as i32,
        },
        OutlineEvent::LineTo { x, y } => OutlineEvent::LineTo {
            x: t.map_x(x as int, y as int) as i32,
            y: t.map_y(x as int, y as int) as i32,
        },
        OutlineEvent::QuadTo { x1, y1, x, y } => OutlineEvent::QuadTo {
            x1: t.map_x(x1 as int, y1 as int) as i32,
            y1: t.map_y(x1 as int, y1 as int) as i32,
            x: t.map_x(x as int, y as int) as i32,
            y: t.map_y(x as int, y as int) as i32,
        },
        OutlineEvent::CurveTo { x1, y1, x2, y2, x, y } => OutlineEvent::CurveTo {
            x1: t.map_x(x1 as int, y1 as int) as i32,
            y1: t.map_y(x1 as int, y1 as int) as i32,
            x2: t.map_x(x2 as int, y2 as int) as i32,
            y2: t.map_y(x2 as int, y2 as int) as i32,
            x: t.map_x(x as int, y as int) as i32,
            y: t.map_y(x as int, y as int) as i32,
        },
        OutlineEvent::Close => OutlineEvent::Close,
    }
}

/// The event with every coordinate shifted by `(dx, dy)`.
pub open spec fn event_shifted(dx: int, dy: int, ev: OutlineEvent) -> OutlineEvent {
    match ev {
        OutlineEvent::MoveTo { x, y } => OutlineEvent::MoveTo {
            x: (x + dx) as i32,
            y: (y + dy) as i32,
        },
        OutlineEvent::LineTo { x, y } => OutlineEvent::LineTo {
            x: (x + dx) as i32,
            y: (y + dy) as i32,
        },
        OutlineEvent::QuadTo { x1, y1, x, y } => OutlineEvent::QuadTo {
            x1: (x1 + dx) as i32,
            y1: (y1 + dy) as i32,
            x: (x + dx) as i32,
            y: (y + dy) as i32,
        },
        OutlineEvent::CurveTo { x1, y1, x2, y2, x, y } => OutlineEvent::CurveTo {
            x1: (x1 + dx) as i32,
            y1: (y1 + dy) as i32,
            x2: (x2 + dx) as i32,
            y2: (y2 + dy) as i32,
            x: (x + dx) as i32,
            y: (y + dy) as i32,
        },
        OutlineEvent::Close => OutlineEvent::Close,
    }
}

/// Whether shifting every coordinate of the event by `(dx, dy)` stays in
/// the coordinate range (as it does for every real font).
pub open spec fn event_shift_in_range(dx: int, dy: int, ev: OutlineEvent) -> bool {
    match ev {
        OutlineEvent::MoveTo { x, y } => in_coord_range(x + dx) && in_coord_range(y + dy),
        OutlineEvent::LineTo { x, y } => in_coord_range(x + dx) && in_coord_range(y + dy),
        OutlineEvent::QuadTo { x1, y1, x, y } => in_coord_range(x1 + dx) && in_coord_range(y1 + dy)
            && in_coord_range(x + dx) && in_coord_range(y + dy),
        OutlineEvent::CurveTo { x1, y1, x2, y2, x, y } => in_coord_range(x1 + dx)
            && in_coord_range(y1 + dy) && in_coord_range(x2 + dx) && in_coord_range(y2 + dy)
            && in_coord_range(x + dx) && in_coord_range(y + dy),
        OutlineEvent::Close => true,
    }
}

/// A component transform with unit scale and offset `(dx, dy)` maps every
/// outline event of its child to the same event with each coordinate
/// shifted by exactly `(dx, dy)`.
pub proof fn lemma_translation_shifts_event(t: Transform, dx: int, dy: int, ev: OutlineEvent)
    requires
        t.is_translation(dx, dy),
        event_in_range(ev),
        event_shift_in_range(dx, dy, ev),
    ensures
        event_mapped(t, ev) == event_shifted(dx, dy, ev),
{
    match ev {
        OutlineEvent::MoveTo { x, y } => {
            lemma_translation_shifts_point(t, dx, dy, x as int, y as int);
        },
        OutlineEvent::LineTo { x, y } => {
            lemma_translation_shifts_point(t, dx, dy, x as int, y as int);
        },
        OutlineEvent::QuadTo { x1, y1, x, y } => {
            lemma_translation_shifts_point(t, dx, dy, x1 as int, y1 as int);
            lemma_translation_shifts_point(t, dx, dy, x as int, y as int);
        },
        OutlineEvent::CurveTo { x1, y1, x2, y2, x, y } => {
            lemma_translation_shifts_point(t, dx, dy, x1 as int, y1 as int);
            lemma_translation_shifts_point(t, dx, dy, x2 as int, y2 as int);
            lemma_translation_shifts_point(t, dx, dy, x as int, y as int);
        },
        OutlineEvent::Close => {},
    }
}

/// Emits a MoveTo of the transformed point.
fn emit_move<B: OutlineBuilder>(builder: &mut B, t: &Transform, x: i32, y: i32)
    requires
        t.wf(),
        in_coord_range(x as int),
        in_coord_range(y as int),
    ensures
        final(builder).emitted() == old(builder).emitted().push(
            event_mapped(*t, (OutlineEvent::MoveTo { x, y })),
        ),
{
    let tx = t.apply_x(x, y);
    let ty = t.apply_y(x, y);
    builder.move_to(tx, ty);
}

/// Emits a LineTo of the transformed point.
fn emit_line<B: OutlineBuilder>(builder: &mut B, t: &Transform, x: i32, y: i32)
    requires
        t.wf(),
        in_coord_range(x as int),
        in_coord_range(y as int),
    ensures
        final(builder).emitted() == old(builder).emitted().push(
            event_mapped(*t, (OutlineEvent::LineTo { x, y })),
        ),
{
    let tx = t.apply_x(x, y);
    let ty = t.apply_y(x, y);
    builder.line_to(tx, ty);
}

/// Emits a QuadTo with the transformed control and end points.
fn emit_quad<B: OutlineBuilder>(builder: &mut B, t: &Transform, x1: i32, y1: i32, x: i32, y: i32)
    requires
        t.wf(),
        in_coord_range(x1 as int),
        in_coord_range(y1 as int),
        in_coord_range(x as int),
        in_coord_range(y as int),
    ensures
        final(builder).emitted() == old(builder).emitted().push(
            event_mapped(*t, (OutlineEvent::QuadTo { x1, y1, x, y })),
        ),
{
    let tx1 = t.apply_x(x1, y1);
    let ty1 = t.apply_y(x1, y1);
    let tx = t.apply_x(x, y);
    let ty = t.apply_y(x, y);
    builder.quad_to(tx1, ty1, tx, ty);
}

/// Resolves a glyph id to its byte range in the outline table through
/// the offset index: the short format stores offsets halved, the long
/// format stores them raw; the range is `offsets[id]..offsets[id + 1]`.
/// An index too short to hold both offsets is a no-glyph error.
pub fn glyph_range(loca: &[u8], long_format: bool, glyph_id: u16) -> (r: Result<
    (usize, usize),
    Error,
>)
    ensures
        match r {
            Ok((start, end)) => spec_glyph_range(loca@, long_format, glyph_id) == Some(
                (start as int, end as int),
            ),
            Err(e) => spec_glyph_range(loca@, long_format, glyph_id) is None && e == Error::NoGlyph,
        },
{
    proof {
        assert(loca.len() == loca@.len());
    }
    let id = glyph_id as usize;
    if long_format {
        if loca.len() >= 8 && id <= (loca.len() - 8) / 4 {
            let start = read_u32_at(loca, 4 * id);
            let end = read_u32_at(loca, 4 * id + 4);
            Ok((start as usize, end as usize))
        } else {
            Err(Error::NoGlyph)
        }
    } else {
        if loca.len() >= 4 && id <= (loca.len() - 4) / 2 {
            let start = read_u16_at(loca, 2 * id);
            let end = read_u16_at(loca, 2 * id + 2);
            Ok(((start as usize) * 2, (end as usize) * 2))
        } else {
            Err(Error::NoGlyph)
        }
    }
}

/// The byte range the offset index assigns to a glyph, or `None` when
/// the index is too short to hold both of its offsets.
pub open spec fn spec_glyph_range(loca: Seq<u8>, long_format: bool, glyph_id: u16) -> Option<
    (int, int),
> {
    if long_format {
        if 4 * (glyph_id as int) + 8 <= loca.len() {
            Some(
                (
                    crate::parser::be_u32(loca, 4 * (glyph_id as int)) as int,
                    crate::parser::be_u32(loca, 4 * (glyph_id as int) + 4) as int,
                ),
            )
        } else {
            None
        }
    } else {
        if 2 * (glyph_id as int) + 4 <= loca.len() {
            Some(
                (
                    2 * (crate::parser::be_u16(loca, 2 * (glyph_id as int)) as int),
                    2 * (crate::parser::be_u16(loca, 2 * (glyph_id as int) + 2) as int),
                ),
            )
        } else {
            None
        }
    }
}

/// Decodes one glyph (recursively, for composites) and streams its
/// outline to `builder`, applying `t` to every emitted coordinate.
/// Returns the glyph's header bounding box.
fn outline_impl<B: OutlineBuilder>(
    glyf: &[u8],
    loca: &[u8],
    long_format: bool,
    number_of_glyphs: u16,
    glyph_id: u16,
    t: &Transform,
    depth: u8,
    builder: &mut B,
) -> (r: Result<Rect, Error>)
    requires
        t.wf(),
    ensures
        old(builder).emitted().is_prefix_of(final(builder).emitted()),
        r matches Ok(rect) ==> spec_glyph_range(loca@, long_format, glyph_id) matches Some(rg)
            && rg.0 + 10 <= rg.1 <= glyf@.len() && rect == crate::spec_rect_at(glyf@, rg.0 + 2),
        r matches Err(e) ==> e is NoGlyph || e is NoOutline || e is RecursionLimitReached
            || e is SliceOutOfBounds,
        depth >= 1 && spec_glyph_range(loca@, long_format, glyph_id) is None ==> r == Err::<
            Rect,
            Error,
        >(Error::NoGlyph) && final(builder).emitted() == old(builder).emitted(),
        depth >= 1 ==> match spec_glyph_range(loca@, long_format, glyph_id) {
            Some(rg) => {
                &&& rg.0 >= rg.1 ==> r == Err::<Rect, Error>(Error::NoOutline) && final(builder).emitted() == old(builder).emitted()
                &&& rg.0 < rg.1 && (rg.1 > glyf@.len() || rg.0 + 10 > rg.1) ==> r is Err && final(builder).emitted() == old(builder).emitted()
                &&& rg.0 + 10 <= rg.1 <= glyf@.len() && crate::parser::be_i16(glyf@, rg.0) >= 0
                    ==> match spec_simple_glyph_events(
                    glyf@.subrange(rg.0, rg.1),
                    crate::parser::be_i16(glyf@, rg.0) as u16,
                    *t,
                ) {
                    Some(evs) => r is Ok && final(builder).emitted() == old(builder).emitted()
                        + evs,
                    None => r is Err && final(builder).emitted() == old(builder).emitted(),
                }
            },
            None => true,
        },
    decreases depth as int, 1int,
{
    if depth == 0 {
        return Err(Error::RecursionLimitReached);
    }
    let (start, end) = match glyph_range(loca, long_format, glyph_id) {
        Ok(r) => r,
        Err(e) => {
            return Err(e);
        },
    };
    if start >= end {
        return Err(Error::NoOutline);
    }
    let gdata = match crate::parser::try_slice(glyf, start, end) {
        Ok(s) => s,
        Err(e) => {
            return Err(e);
        },
    };
    let mut s = Stream::new(gdata);
    let number_of_contours = match s.read_i16() {
        Ok(v) => v,
        Err(e) => {
            return Err(e);
        },
    };
    let x_min = match s.read_i16() {
        Ok(v) => v,
        Err(e) => {
            return Err(e);
        },
    };
    let y_min = match s.read_i16() {
        Ok(v) => v,
        Err(e) => {
            return Err(e);
        },
    };
    let x_max = match s.read_i16() {
        Ok(v) => v,
        Err(e) => {
            return Err(e);
        },
    };
    let y_max = match s.read_i16() {
        Ok(v) => v,
        Err(e) => {
            return Err(e);
        },
    };
    let bbox = Rect { x_min, y_min, x_max, y_max };
    proof {
        assert(gdata@ == glyf@.subrange(start as int, end as int));
        assert(bbox == crate::spec_rect_at(glyf@, start + 2)) by {
            assert(forall|k: int| 0 <= k < 10 ==> gdata@[k] == glyf@[start + k]);
        }
    }

    if number_of_contours >= 0 {
        match decode_simple(gdata, number_of_contours as u16, t, builder) {
            Ok(()) => Ok(bbox),
            Err(e) => Err(e),
        }
    } else {
        match decode_composite(
            &mut s,
            glyf,
            loca,
            long_format,
            number_of_glyphs,
            t,
            depth,
            builder,
        ) {
            Ok(()) => Ok(bbox),
            Err(e) => Err(e),
        }
    }
}

/// The contour-end indices of a simple glyph: `n` big-endian words
/// following the ten-byte glyph header.
pub open spec fn spec_end_pts(g: Seq<u8>, n: int) -> Option<Seq<u16>>
    decreases n,
{
    if n <= 0 {
        Some(Seq::empty())
    } else {
        match spec_end_pts(g, n - 1) {
            None => None,
            Some(pts) => {
                if 10 + 2 * (n - 1) + 2 <= g.len() {
                    Some(pts.push(crate::parser::be_u16(g, 10 + 2 * (n - 1))))
                } else {
                    None
                }
            },
        }
    }
}

/// The glyph's point count: one past the last contour's end index.
pub open spec fn spec_point_count(end_pts: Seq<u16>) -> int {
    if end_pts.len() == 0 {
        0
    } else {
        end_pts[end_pts.len() - 1] + 1
    }
}

/// The per-point flags from `pos`, with run-length repeats expanded
/// (capped at the point count), and the position that follows them.
pub open spec fn spec_flags(g: Seq<u8>, pos: int, need: int) -> Option<(Seq<u8>, int)>
    decreases need,
{
    if need <= 0 {
        Some((Seq::empty(), pos))
    } else if pos < 0 || pos >= g.len() {
        None
    } else {
        let f = g[pos];
        if f & 0x08 != 0 {
            if pos + 1 >= g.len() {
                None
            } else {
                let rep = g[pos + 1] as int;
                let take = 1 + if rep <= need - 1 {
                    rep
                } else {
                    need - 1
                };
                match spec_flags(g, pos + 2, need - take) {
                    None => None,
                    Some(rest) => Some((Seq::new(take as nat, |i: int| f) + rest.0, rest.1)),
                }
            }
        } else {
            match spec_flags(g, pos + 1, need - 1) {
                None => None,
                Some(rest) => Some((seq![f] + rest.0, rest.1)),
            }
        }
    }
}

/// The accumulated coordinates of one axis from `pos`, one per flag from
/// `k` on: a delta of one byte (sign from `same_bit`), two bytes, or
/// zero, selected by the flag's bits, added to the previous coordinate
/// with clamping.  Returns the coordinates and the following position.
pub open spec fn spec_coords(
    g: Seq<u8>,
    pos: int,
    flags: Seq<u8>,
    k: int,
    prev: int,
    short_bit: u8,
    same_bit: u8,
) -> Option<(Seq<i32>, int)>
    recommends
        in_coord_range(prev),
    decreases flags.len() - k,
{
    if k < 0 || k >= flags.len() {
        Some((Seq::empty(), pos))
    } else {
        let f = flags[k];
        if f & short_bit != 0 {
            if pos < 0 || pos >= g.len() {
                None
            } else {
                let d: int = if f & same_bit != 0 {
                    g[pos] as int
                } else {
                    -(g[pos] as int)
                };
                let v = crate::coords::spec_cadd(prev, d);
                match spec_coords(g, pos + 1, flags, k + 1, v, short_bit, same_bit) {
                    None => None,
                    Some(rest) => Some((seq![v as i32] + rest.0, rest.1)),
                }
            }
        } else if f & same_bit != 0 {
            let v = crate::coords::spec_cadd(prev, 0);
            match spec_coords(g, pos, flags, k + 1, v, short_bit, same_bit) {
                None => None,
                Some(rest) => Some((seq![v as i32] + rest.0, rest.1)),
            }
        } else {
            if pos < 0 || pos + 2 > g.len() {
                None
            } else {
                let d = crate::parser::be_i16(g, pos) as int;
                let v = crate::coords::spec_cadd(prev, d);
                match spec_coords(g, pos + 2, flags, k + 1, v, short_bit, same_bit) {
                    None => None,
                    Some(rest) => Some((seq![v as i32] + rest.0, rest.1)),
                }
            }
        }
    }
}

/// The events of every contour from `c` on, each over the point range
/// its end index closes (end indices past the point count are capped;
/// an empty or inverted range contributes nothing).
pub open spec fn spec_contours_events(
    flags: Seq<u8>,
    xs: Seq<i32>,
    ys: Seq<i32>,
    t: Transform,
    end_pts: Seq<u16>,
    c: int,
    start: int,
) -> Seq<OutlineEvent>
    decreases end_pts.len() - c,
{
    if c < 0 || c >= end_pts.len() {
        Seq::empty()
    } else {
        let e1 = end_pts[c] + 1;
        let ce: int = if e1 > flags.len() {
            flags.len() as int
        } else {
            e1
        };
        if start < ce {
            spec_contour_events(flags, xs, ys, t, start, ce) + spec_contours_events(
                flags,
                xs,
                ys,
                t,
                end_pts,
                c + 1,
                ce,
            )
        } else {
            spec_contours_events(flags, xs, ys, t, end_pts, c + 1, start)
        }
    }
}

/// What decoding a simple glyph's bytes (header included) emits under
/// `t`, or `None` exactly when the record is malformed: contour-end
/// indices, skipped instructions, run-length flags, and the two delta
/// arrays, emitted contour by contour.
pub open spec fn spec_simple_glyph_events(g: Seq<u8>, num_contours: u16, t: Transform) -> Option<
    Seq<OutlineEvent>,
> {
    match spec_end_pts(g, num_contours as int) {
        None => None,
        Some(end_pts) => {
            if num_contours == 0 {
                Some(Seq::empty())
            } else if 10 + 2 * (num_contours as int) + 2 > g.len() {
                None
            } else {
                let instr_len = crate::parser::be_u16(g, 10 + 2 * (num_contours as int));
                let fpos = 10 + 2 * (num_contours as int) + 2 + instr_len;
                match spec_flags(g, fpos, spec_point_count(end_pts)) {
                    None => None,
                    Some(fl) => match spec_coords(g, fl.1, fl.0, 0, 0, 0x02, 0x10) {
                        None => None,
                        Some(xr) => match spec_coords(g, xr.1, fl.0, 0, 0, 0x04, 0x20) {
                            None => None,
                            Some(yr) => Some(
                                spec_contours_events(fl.0, xr.0, yr.0, t, end_pts, 0, 0),
                            ),
                        },
                    },
                }
            }
        },
    }
}

/// A failing end-index read fails every longer prefix as well.
proof fn lemma_end_pts_none(g: Seq<u8>, m: int, n: int)
    requires
        0 <= m <= n,
        spec_end_pts(g, m) is None,
    ensures
        spec_end_pts(g, n) is None,
    decreases n,
{
    if n > m {
        lemma_end_pts_none(g, m, n - 1);
    }
}

/// The flags already expanded, continued by the flags still to be read.
pub open spec fn spec_flags_cont(g: Seq<u8>, done: Seq<u8>, pos: int, total: int) -> Option<
    (Seq<u8>, int),
> {
    match spec_flags(g, pos, total - done.len()) {
        None => None,
        Some(rest) => Some((done + rest.0, rest.1)),
    }
}

/// The coordinates already accumulated, continued by those still to be
/// read.
pub open spec fn spec_coords_cont(
    g: Seq<u8>,
    done: Seq<i32>,
    pos: int,
    flags: Seq<u8>,
    k: int,
    prev: int,
    short_bit: u8,
    same_bit: u8,
) -> Option<(Seq<i32>, int)> {
    match spec_coords(g, pos, flags, k, prev, short_bit, same_bit) {
        None => None,
        Some(rest) => Some((done + rest.0, rest.1)),
    }
}

/// Decodes a simple glyph's contours from the cursor positioned after
/// the glyph header and emits them: the outcome and the event stream are
/// exactly what [`spec_simple_glyph_events`] gives for the glyph's
/// bytes, and a malformed record emits nothing.
#[verifier::rlimit(100)]
fn decode_simple<B: OutlineBuilder>(
    gdata: &[u8],
    number_of_contours: u16,
    t: &Transform,
    builder: &mut B,
) -> (r: Result<(), Error>)
    requires
        t.wf(),
        gdata@.len() >= 10,
    ensures
        old(builder).emitted().is_prefix_of(final(builder).emitted()),
        r matches Err(e) ==> e is SliceOutOfBounds,
        match spec_simple_glyph_events(gdata@, number_of_contours, *t) {
            Some(evs) => r is Ok && final(builder).emitted() == old(builder).emitted() + evs,
            None => r is Err && final(builder).emitted() == old(builder).emitted(),
        },
{
    let ghost nc = number_of_contours as int;
    let mut s = Stream::new(gdata);
    s.skip(10);
    // Contour-end indices; the glyph's point count is the last one + 1.
    let mut end_pts: Vec<u16> = Vec::new();
    let mut npoints: usize = 0;
    let mut c: usize = 0;
    while c < number_of_contours as usize
        invariant
            end_pts@.len() == c,
            c <= number_of_contours,
            npoints <= 0x10000,
            nc == number_of_contours as int,
            s.bytes() == gdata@,
            s.pos() == 10 + 2 * c,
            spec_end_pts(gdata@, c as int) == Some(end_pts@),
            npoints == spec_point_count(end_pts@),
        decreases number_of_contours as int - c,
    {
        let v = match s.read_u16() {
            Ok(v) => v,
            Err(e) => {
                proof {
                    lemma_end_pts_none(gdata@, c + 1, nc);
                }
                return Err(e);
            },
        };
        end_pts.push(v);
        npoints = v as usize + 1;
        c = c + 1;
    }
    if number_of_contours == 0 {
        return Ok(());
    }

    // Hinting instructions are not executed; skip them.
    let instr_len = match s.read_u16() {
        Ok(v) => v,
        Err(e) => {
            return Err(e);
        },
    };
    s.skip(instr_len as usize);
    let ghost fpos0 = 10 + 2 * nc + 2 + instr_len as int;

    // Per-point flags, with run-length repeats expanded.
    let mut flags: Vec<u8> = Vec::new();
    while flags.len() < npoints
        invariant
            flags@.len() <= npoints,
            1 <= npoints <= 0x10000,
            s.bytes() == gdata@,
            0 <= s.pos() <= gdata@.len(),
            nc == number_of_contours as int,
            1 <= nc,
            spec_end_pts(gdata@, nc) == Some(end_pts@),
            10 + 2 * nc + 2 <= gdata@.len(),
            instr_len == crate::parser::be_u16(gdata@, 10 + 2 * nc),
            fpos0 == 10 + 2 * nc + 2 + instr_len as int,
            npoints == spec_point_count(end_pts@),
            spec_flags_cont(gdata@, flags@, s.pos(), npoints as int) == spec_flags(
                gdata@,
                fpos0,
                npoints as int,
            ),
        decreases npoints - flags@.len(),
    {
        let ghost flags_before = flags@;
        let ghost pos_old = s.pos();
        let ghost need_old = npoints - flags_before.len();
        let f = match s.read_u8() {
            Ok(v) => v,
            Err(e) => {
                return Err(e);
            },
        };
        flags.push(f);
        if f & 0x08 != 0 {
            let rep = match s.read_u8() {
                Ok(v) => v,
                Err(e) => {
                    return Err(e);
                },
            };
            let mut j: usize = 0;
            while j < rep as usize && flags.len() < npoints
                invariant
                    flags_before.len() < flags@.len() <= npoints,
                    flags@.len() == flags_before.len() + 1 + j,
                    j <= rep,
                    flags@ =~= flags_before + Seq::new((1 + j) as nat, |i: int| f),
                decreases npoints - flags@.len(),
            {
                flags.push(f);
                j = j + 1;
            }
            proof {
                let take: int = 1 + if rep as int <= need_old - 1 {
                    rep as int
                } else {
                    need_old - 1
                };
                assert(flags@ =~= flags_before + Seq::new(take as nat, |i: int| f));
                match spec_flags(gdata@, s.pos(), npoints - flags@.len()) {
                    Some(rest) => {
                        assert(flags_before + (Seq::new(take as nat, |i: int| f) + rest.0)
                            =~= flags@ + rest.0);
                    },
                    None => {},
                }
            }
        } else {
            proof {
                assert(flags@ =~= flags_before + seq![f]);
                match spec_flags(gdata@, s.pos(), npoints - flags@.len()) {
                    Some(rest) => {
                        assert(flags_before + (seq![f] + rest.0) =~= flags@ + rest.0);
                    },
                    None => {},
                }
            }
        }
    }
    let ghost xpos0 = s.pos();
    proof {
        assert(flags@ + Seq::<u8>::empty() =~= flags@);
        assert(spec_flags(gdata@, fpos0, npoints as int) == Some((flags@, xpos0)));
    }

    // X deltas (1 or 2 bytes, sign from a flag bit), accumulated.
    let mut xs: Vec<i32> = Vec::new();
    let mut x: i32 = 0;
    let mut i: usize = 0;
    while i < npoints
        invariant
            flags@.len() == npoints,
            xs@.len() == i,
            i <= npoints,
            in_coord_range(x as int),
            forall|k: int| 0 <= k < i ==> in_coord_range(#[trigger] xs@[k] as int),
            s.bytes() == gdata@,
            0 <= s.pos() <= gdata@.len(),
            nc == number_of_contours as int,
            1 <= nc,
            1 <= npoints <= 0x10000,
            spec_end_pts(gdata@, nc) == Some(end_pts@),
            10 + 2 * nc + 2 <= gdata@.len(),
            instr_len == crate::parser::be_u16(gdata@, 10 + 2 * nc),
            fpos0 == 10 + 2 * nc + 2 + instr_len as int,
            npoints == spec_point_count(end_pts@),
            spec_flags(gdata@, fpos0, npoints as int) == Some((flags@, xpos0)),
            spec_coords_cont(gdata@, xs@, s.pos(), flags@, i as int, x as int, 0x02, 0x10)
                == spec_coords(gdata@, xpos0, flags@, 0, 0, 0x02, 0x10),
        decreases npoints - i,
    {
        let ghost xs_before = xs@;
        let f = flags[i];
        let dx: i32 = if f & 0x02 != 0 {
            let b = match s.read_u8() {
                Ok(v) => v,
                Err(e) => {
                    return Err(e);
                },
            };
            if f & 0x10 != 0 {
                b as i32
            } else {
                -(b as i32)
            }
        } else if f & 0x10 != 0 {
            0
        } else {
            let w = match s.read_i16() {
                Ok(v) => v,
                Err(e) => {
                    return Err(e);
                },
            };
            w as i32
        };
        x = cadd(x, dx);
        xs.push(x);
        proof {
            match spec_coords(gdata@, s.pos(), flags@, i + 1, x as int, 0x02, 0x10) {
                Some(rest) => {
                    assert(xs_before + (seq![x] + rest.0) =~= xs@ + rest.0);
                },
                None => {},
            }
        }
        i = i + 1;
    }
    let ghost ypos0 = s.pos();
    proof {
        assert(xs@ + Seq::<i32>::empty() =~= xs@);
        assert(spec_coords(gdata@, xpos0, flags@, 0, 0, 0x02, 0x10) == Some((xs@, ypos0)));
    }

    // Y deltas, the same way.
    let mut ys: Vec<i32> = Vec::new();
    let mut y: i32 = 0;
    let mut i2: usize = 0;
    while i2 < npoints
        invariant
            flags@.len() == npoints,
            xs@.len() == npoints,
            ys@.len() == i2,
            i2 <= npoints,
            in_coord_range(y as int),
            forall|k: int| 0 <= k < npoints ==> in_coord_range(#[trigger] xs@[k] as int),
            forall|k: int| 0 <= k < i2 ==> in_coord_range(#[trigger] ys@[k] as int),
            s.bytes() == gdata@,
            0 <= s.pos() <= gdata@.len(),
            nc == number_of_contours as int,
            1 <= nc,
            1 <= npoints <= 0x10000,
            spec_end_pts(gdata@, nc) == Some(end_pts@),
            10 + 2 * nc + 2 <= gdata@.len(),
            instr_len == crate::parser::be_u16(gdata@, 10 + 2 * nc),
            fpos0 == 10 + 2 * nc + 2 + instr_len as int,
            npoints == spec_point_count(end_pts@),
            spec_flags(gdata@, fpos0, npoints as int) == Some((flags@, xpos0)),
            spec_coords(gdata@, xpos0, flags@, 0, 0, 0x02, 0x10) == Some((xs@, ypos0)),
            spec_coords_cont(gdata@, ys@, s.pos(), flags@, i2 as int, y as int, 0x04, 0x20)
                == spec_coords(gdata@, ypos0, flags@, 0, 0, 0x04, 0x20),
        decreases npoints - i2,
    {
        let ghost ys_before = ys@;
        let f = flags[i2];
        let dy: i32 = if f & 0x04 != 0 {
            let b = match s.read_u8() {
                Ok(v) => v,
                Err(e) => {
                    return Err(e);
                },
            };
            if f & 0x20 != 0 {
                b as i32
            } else {
                -(b as i32)
            }
        } else if f & 0x20 != 0 {
            0
        } else {
            let w = match s.read_i16() {
                Ok(v) => v,
                Err(e) => {
                    return Err(e);
                },
            };
            w as i32
        };
        y = cadd(y, dy);
        ys.push(y);
        proof {
            match spec_coords(gdata@, s.pos(), flags@, i2 + 1, y as int, 0x04, 0x20) {
                Some(rest) => {
                    assert(ys_before + (seq![y] + rest.0) =~= ys@ + rest.0);
                },
                None => {},
            }
        }
        i2 = i2 + 1;
    }
    proof {
        assert(ys@ + Seq::<i32>::empty() =~= ys@);
        assert(spec_coords(gdata@, ypos0, flags@, 0, 0, 0x04, 0x20) == Some((ys@, s.pos())));
    }

    // Emit each contour.
    let ghost all_events = spec_contours_events(flags@, xs@, ys@, *t, end_pts@, 0, 0);
    let mut contour_start: usize = 0;
    let mut c2: usize = 0;
    while c2 < end_pts.len()
        invariant
            t.wf(),
            flags@.len() == npoints,
            xs@.len() == npoints,
            ys@.len() == npoints,
            contour_start <= npoints,
            c2 <= end_pts@.len(),
            forall|k: int| 0 <= k < npoints ==> in_coord_range(#[trigger] xs@[k] as int),
            forall|k: int| 0 <= k < npoints ==> in_coord_range(#[trigger] ys@[k] as int),
            old(builder).emitted().is_prefix_of(builder.emitted()),
            all_events == spec_contours_events(flags@, xs@, ys@, *t, end_pts@, 0, 0),
            builder.emitted() + spec_contours_events(
                flags@,
                xs@,
                ys@,
                *t,
                end_pts@,
                c2 as int,
                contour_start as int,
            ) == old(builder).emitted() + all_events,
        decreases end_pts@.len() - c2,
    {
        let ghost emitted_before = builder.emitted();
        let e = end_pts[c2] as usize;
        let contour_end = if e + 1 > npoints {
            npoints
        } else {
            e + 1
        };
        if contour_start < contour_end {
            emit_contour(&flags, &xs, &ys, contour_start, contour_end, t, builder);
            proof {
                assert(emitted_before + (spec_contour_events(
                    flags@,
                    xs@,
                    ys@,
                    *t,
                    contour_start as int,
                    contour_end as int,
                ) + spec_contours_events(
                    flags@,
                    xs@,
                    ys@,
                    *t,
                    end_pts@,
                    c2 + 1,
                    contour_end as int,
                )) =~= builder.emitted() + spec_contours_events(
                    flags@,
                    xs@,
                    ys@,
                    *t,
                    end_pts@,
                    c2 + 1,
                    contour_end as int,
                ));
            }
            contour_start = contour_end;
        }
        c2 = c2 + 1;
    }
    proof {
        assert(builder.emitted() + Seq::<OutlineEvent>::empty() =~= builder.emitted());
        assert(builder.emitted() =~= old(builder).emitted() + all_events);
        assert(old(builder).emitted() =~= (old(builder).emitted() + all_events).subrange(
            0,
            old(builder).emitted().len() as int,
        ));
    }
    Ok(())
}

/// The midpoint a pair of consecutive off-curve points implies.
pub open spec fn spec_mid(a: i32, b: i32) -> i32 {
    ((a + b) / 2) as i32
}

/// The remaining events of a contour whose points `i..end` are still to
/// be consumed with `pending` as the buffered off-curve control, ending
/// with the closing segment back to the start point `(sx, sy)` and a
/// ClosePath, every point mapped through `t`.
pub open spec fn spec_contour_tail(
    flags: Seq<u8>,
    xs: Seq<i32>,
    ys: Seq<i32>,
    t: Transform,
    i: int,
    end: int,
    pending: Option<(i32, i32)>,
    sx: i32,
    sy: i32,
) -> Seq<OutlineEvent>
    recommends
        0 <= i,
        end <= xs.len(),
        xs.len() == ys.len() == flags.len(),
    decreases end - i,
{
    if 0 <= i < end {
        let on = flags[i] & 0x01 != 0;
        let px = xs[i];
        let py = ys[i];
        match pending {
            None => {
                if on {
                    seq![event_mapped(t, (OutlineEvent::LineTo { x: px, y: py }))]
                        + spec_contour_tail(flags, xs, ys, t, i + 1, end, None, sx, sy)
                } else {
                    spec_contour_tail(flags, xs, ys, t, i + 1, end, Some((px, py)), sx, sy)
                }
            },
            Some(q) => {
                if on {
                    seq![event_mapped(t, (OutlineEvent::QuadTo { x1: q.0, y1: q.1, x: px, y: py }))]
                        + spec_contour_tail(flags, xs, ys, t, i + 1, end, None, sx, sy)
                } else {
                    seq![
                        event_mapped(
                            t,
                            (OutlineEvent::QuadTo {
                                x1: q.0,
                                y1: q.1,
                                x: spec_mid(q.0, px),
                                y: spec_mid(q.1, py),
                            }),
                        ),
                    ] + spec_contour_tail(flags, xs, ys, t, i + 1, end, Some((px, py)), sx, sy)
                }
            },
        }
    } else {
        match pending {
            None => seq![
                event_mapped(t, (OutlineEvent::LineTo { x: sx, y: sy })),
                OutlineEvent::Close,
            ],
            Some(q) => seq![
                event_mapped(t, (OutlineEvent::QuadTo { x1: q.0, y1: q.1, x: sx, y: sy })),
                OutlineEvent::Close,
            ],
        }
    }
}

/// The full event sequence of one closed contour over the points
/// `start..end`: the start point is the first point when it is
/// on-curve, else the last point, else their implied midpoint.
pub open spec fn spec_contour_events(
    flags: Seq<u8>,
    xs: Seq<i32>,
    ys: Seq<i32>,
    t: Transform,
    start: int,
    end: int,
) -> Seq<OutlineEvent>
    recommends
        0 <= start < end <= xs.len(),
        xs.len() == ys.len() == flags.len(),
{
    let first_on = flags[start] & 0x01 != 0;
    let last_on = flags[end - 1] & 0x01 != 0;
    if first_on {
        seq![event_mapped(t, (OutlineEvent::MoveTo { x: xs[start], y: ys[start] }))]
            + spec_contour_tail(flags, xs, ys, t, start + 1, end, None, xs[start], ys[start])
    } else if last_on {
        seq![event_mapped(t, (OutlineEvent::MoveTo { x: xs[end - 1], y: ys[end - 1] }))]
            + spec_contour_tail(flags, xs, ys, t, start, end - 1, None, xs[end - 1], ys[end - 1])
    } else {
        let sx = spec_mid(xs[start], xs[end - 1]);
        let sy = spec_mid(ys[start], ys[end - 1]);
        seq![event_mapped(t, (OutlineEvent::MoveTo { x: sx, y: sy }))] + spec_contour_tail(
            flags,
            xs,
            ys,
            t,
            start + 1,
            end,
            Some((xs[start], ys[start])),
            sx,
            sy,
        )
    }
}

/// Emits the points `start..end` as one closed contour: an on-curve
/// point extends the path, an off-curve point becomes a quadratic
/// control, and two consecutive off-curve points imply an on-curve
/// midpoint between them.
fn emit_contour<B: OutlineBuilder>(
    flags: &Vec<u8>,
    xs: &Vec<i32>,
    ys: &Vec<i32>,
    start: usize,
    end: usize,
    t: &Transform,
    builder: &mut B,
)
    requires
        t.wf(),
        start < end <= flags@.len(),
        xs@.len() == flags@.len(),
        ys@.len() == flags@.len(),
        forall|k: int| 0 <= k < xs@.len() ==> in_coord_range(#[trigger] xs@[k] as int),
        forall|k: int| 0 <= k < ys@.len() ==> in_coord_range(#[trigger] ys@[k] as int),
    ensures
        old(builder).emitted().is_prefix_of(final(builder).emitted()),
        final(builder).emitted() == old(builder).emitted() + spec_contour_events(
            flags@,
            xs@,
            ys@,
            *t,
            start as int,
            end as int,
        ),
{
    let first_on = flags[start] & 0x01 != 0;
    let last_on = flags[end - 1] & 0x01 != 0;

    let (sx, sy, body_start, body_end, mut pending): (
        i32,
        i32,
        usize,
        usize,
        Option<(i32, i32)>,
    ) = if first_on {
        (xs[start], ys[start], start + 1, end, None)
    } else if last_on {
        (xs[end - 1], ys[end - 1], start, end - 1, None)
    } else {
        // Both endpoints are off-curve: start at their implied midpoint.
        (
            avg_floor(xs[start], xs[end - 1]),
            avg_floor(ys[start], ys[end - 1]),
            start + 1,
            end,
            Some((xs[start], ys[start])),
        )
    };

    emit_move(builder, t, sx, sy);
    proof {
        assert(builder.emitted() + spec_contour_tail(
            flags@,
            xs@,
            ys@,
            *t,
            body_start as int,
            body_end as int,
            pending,
            sx,
            sy,
        ) =~= old(builder).emitted() + spec_contour_events(
            flags@,
            xs@,
            ys@,
            *t,
            start as int,
            end as int,
        ));
    }

    let mut i: usize = body_start;
    while i < body_end
        invariant
            t.wf(),
            body_end <= flags@.len(),
            body_start <= i <= body_end,
            xs@.len() == flags@.len(),
            ys@.len() == flags@.len(),
            forall|k: int| 0 <= k < xs@.len() ==> in_coord_range(#[trigger] xs@[k] as int),
            forall|k: int| 0 <= k < ys@.len() ==> in_coord_range(#[trigger] ys@[k] as int),
            pending matches Some(p) ==> in_coord_range(p.0 as int) && in_coord_range(p.1 as int),
            in_coord_range(sx as int),
            in_coord_range(sy as int),
            old(builder).emitted().is_prefix_of(builder.emitted()),
            builder.emitted() + spec_contour_tail(
                flags@,
                xs@,
                ys@,
                *t,
                i as int,
                body_end as int,
                pending,
                sx,
                sy,
            ) == old(builder).emitted() + spec_contour_events(
                flags@,
                xs@,
                ys@,
                *t,
                start as int,
                end as int,
            ),
        decreases body_end - i,
    {
        let ghost pending_in = pending;
        let ghost emitted_in = builder.emitted();
        let on = flags[i] & 0x01 != 0;
        let px = xs[i];
        let py = ys[i];
        match pending {
            None => {
                if on {
                    emit_line(builder, t, px, py);
                } else {
                    pending = Some((px, py));
                }
            },
            Some((qx, qy)) => {
                if on {
                    emit_quad(builder, t, qx, qy, px, py);
                    pending = None;
                } else {
                    let mx = avg_floor(qx, px);
                    let my = avg_floor(qy, py);
                    emit_quad(builder, t, qx, qy, mx, my);
                    pending = Some((px, py));
                }
            },
        }
        proof {
            assert(builder.emitted() + spec_contour_tail(
                flags@,
                xs@,
                ys@,
                *t,
                i + 1,
                body_end as int,
                pending,
                sx,
                sy,
            ) =~= emitted_in + spec_contour_tail(
                flags@,
                xs@,
                ys@,
                *t,
                i as int,
                body_end as int,
                pending_in,
                sx,
                sy,
            ));
        }
        i = i + 1;
    }

    // Close the contour back to its start point.
    let ghost emitted_at_end = builder.emitted();
    match pending {
        None => {
            emit_line(builder, t, sx, sy);
        },
        Some((qx, qy)) => {
            emit_quad(builder, t, qx, qy, sx, sy);
        },
    }
    builder.close();
    proof {
        assert(builder.emitted() =~= emitted_at_end + spec_contour_tail(
            flags@,
            xs@,
            ys@,
            *t,
            body_end as int,
            body_end as int,
            pending,
            sx,
            sy,
        ));
    }
}

/// Decodes a composite glyph: reads component records until the
/// more-components flag clears, recursing into each child with the
/// component's transform composed onto `t`.  Point-matched alignment is
/// not computed and is treated as a zero offset.
fn decode_composite<B: OutlineBuilder>(
    s: &mut Stream,
    glyf: &[u8],
    loca: &[u8],
    long_format: bool,
    number_of_glyphs: u16,
    t: &Transform,
    depth: u8,
    builder: &mut B,
) -> (r: Result<(), Error>)
    requires
        t.wf(),
        depth >= 1,
        old(s).pos() <= old(s).bytes().len(),
    ensures
        old(builder).emitted().is_prefix_of(final(builder).emitted()),
        r matches Err(e) ==> e is NoGlyph || e is NoOutline || e is RecursionLimitReached
            || e is SliceOutOfBounds,
    decreases depth as int, 0int,
{
    let mut more = true;
    while more
        invariant
            t.wf(),
            depth >= 1,
            s.pos() <= s.bytes().len(),
            old(builder).emitted().is_prefix_of(builder.emitted()),
        decreases s.bytes().len() - s.pos(),
    {
        let flags = match s.read_u16() {
            Ok(v) => v,
            Err(e) => {
                return Err(e);
            },
        };
        let child_id = match s.read_u16() {
            Ok(v) => v,
            Err(e) => {
                return Err(e);
            },
        };

        let (arg1, arg2): (i32, i32) = if flags & 0x0001 != 0 {
            let a = match s.read_i16() {
                Ok(v) => v,
                Err(e) => {
                    return Err(e);
                },
            };
            let b = match s.read_i16() {
                Ok(v) => v,
                Err(e) => {
                    return Err(e);
                },
            };
            (a as i32, b as i32)
        } else {
            let a = match s.read_u8() {
                Ok(v) => v,
                Err(e) => {
                    return Err(e);
                },
            };
            let b = match s.read_u8() {
                Ok(v) => v,
                Err(e) => {
                    return Err(e);
                },
            };
            ((a as i8) as i32, (b as i8) as i32)
        };

        // Point-matched alignment (arguments are point indices) is not
        // computed: treated as a zero offset.
        let (dx, dy): (i32, i32) = if flags & 0x0002 != 0 {
            (arg1, arg2)
        } else {
            (0, 0)
        };

        let (ca, cb, cc, cd): (i32, i32, i32, i32) = if flags & 0x0008 != 0 {
            let v = match s.read_i16() {
                Ok(v) => v,
                Err(e) => {
                    return Err(e);
                },
            };
            (v as i32, 0, 0, v as i32)
        } else if flags & 0x0040 != 0 {
            let vx = match s.read_i16() {
                Ok(v) => v,
                Err(e) => {
                    return Err(e);
                },
            };
            let vy = match s.read_i16() {
                Ok(v) => v,
                Err(e) => {
                    return Err(e);
                },
            };
            (vx as i32, 0, 0, vy as i32)
        } else if flags & 0x0080 != 0 {
            let va = match s.read_i16() {
                Ok(v) => v,
                Err(e) => {
                    return Err(e);
                },
            };
            let vb = match s.read_i16() {
                Ok(v) => v,
                Err(e) => {
                    return Err(e);
                },
            };
            let vc = match s.read_i16() {
                Ok(v) => v,
                Err(e) => {
                    return Err(e);
                },
            };
            let vd = match s.read_i16() {
                Ok(v) => v,
                Err(e) => {
                    return Err(e);
                },
            };
            (va as i32, vb as i32, vc as i32, vd as i32)
        } else {
            (TRANSFORM_ONE, 0, 0, TRANSFORM_ONE)
        };

        let child_t = t.combine(&(Transform { a: ca, b: cb, c: cc, d: cd, e: dx, f: dy }));

        if child_id >= number_of_glyphs {
            return Err(Error::NoGlyph);
        }
        match outline_impl(
            glyf,
            loca,
            long_format,
            number_of_glyphs,
            child_id,
            &child_t,
            depth - 1,
            builder,
        ) {
            Ok(_) => (),
            Err(e) => {
                return Err(e);
            },
        }

        more = flags & 0x0020 != 0;
    }
    Ok(())
}

/// Outlines one glyph of the quadratic outline format, streaming its
/// events to `builder` and returning the bounding box stored in the
/// glyph's header.
pub fn outline<B: OutlineBuilder>(
    glyf: &[u8],
    loca: &[u8],
    long_format: bool,
    number_of_glyphs: u16,
    glyph_id: u16,
    builder: &mut B,
) -> (r: Result<Rect, Error>)
    ensures
        old(builder).emitted().is_prefix_of(final(builder).emitted()),
        glyph_id >= number_of_glyphs ==> r == Err::<Rect, Error>(Error::NoGlyph)
            && final(builder).emitted() == old(builder).emitted(),
        r matches Ok(rect) ==> spec_glyph_range(loca@, long_format, glyph_id) matches Some(rg)
            && rg.0 + 10 <= rg.1 <= glyf@.len() && rect == crate::spec_rect_at(glyf@, rg.0 + 2),
        r matches Err(e) ==> e is NoGlyph || e is NoOutline || e is RecursionLimitReached
            || e is SliceOutOfBounds,
        glyph_id < number_of_glyphs && spec_glyph_range(loca@, long_format, glyph_id) is None
            ==> r == Err::<Rect, Error>(Error::NoGlyph) && final(builder).emitted() == old(builder).emitted(),
        glyph_id < number_of_glyphs ==> match spec_glyph_range(loca@, long_format, glyph_id) {
            Some(rg) => {
                &&& rg.0 >= rg.1 ==> r == Err::<Rect, Error>(Error::NoOutline) && final(builder).emitted() == old(builder).emitted()
                &&& rg.0 < rg.1 && (rg.1 > glyf@.len() || rg.0 + 10 > rg.1) ==> r is Err && final(builder).emitted() == old(builder).emitted()
                &&& rg.0 + 10 <= rg.1 <= glyf@.len() && crate::parser::be_i16(glyf@, rg.0) >= 0
                    ==> match spec_simple_glyph_events(
                    glyf@.subrange(rg.0, rg.1),
                    crate::parser::be_i16(glyf@, rg.0) as u16,
                    Transform::spec_identity(),
                ) {
                    Some(evs) => r is Ok && final(builder).emitted() == old(builder).emitted()
                        + evs,
                    None => r is Err && final(builder).emitted() == old(builder).emitted(),
                }
            },
            None => true,
        },
{
    if glyph_id >= number_of_glyphs {
        return Err(Error::NoGlyph);
    }
    let t = Transform::identity();
    outline_impl(
        glyf,
        loca,
        long_format,
        number_of_glyphs,
        glyph_id,
        &t,
        MAX_COMPONENT_DEPTH,
        builder,
    )
}

} // verus!
