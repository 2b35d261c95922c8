//! Which blocks a brush covers, and in what order they are placed.
//!
//! Every brush is three nested ranges of whole numbers with a test on the
//! innermost: the `a` range outermost, then `b`, then `c`. A point is placed
//! for each `(a, b, c)` that passes the test, in that order, at the block
//! [`spot`] names.
use vstd::prelude::*;

use crate::map::{Brush, Shape};

verus! {

pub open spec fn lesser(x: int, y: int) -> int {
    if x <= y {
        x
    } else {
        y
    }
}

pub open spec fn greater(x: int, y: int) -> int {
    if x <= y {
        y
    } else {
        x
    }
}

/// How far a cone reaches out at `level` blocks below its top: the full
/// radius at the top, shrinking linearly to a single block on its last
/// layer, `depth - 1` blocks below, with the integer division truncating.
/// A cone one layer deep is only its top, at the full radius; a negative
/// radius reaches nowhere on any layer.
pub open spec fn cone_span(radius: int, level: int, depth: int) -> int {
    if radius < 0 {
        radius
    } else if depth > 1 {
        (radius * (depth - 1 - level)) / (depth - 1)
    } else {
        radius
    }
}

/// The outermost range, inclusive at both ends.
pub open spec fn axis_a(sh: Shape) -> (int, int) {
    match sh {
        Shape::Box { min, max, .. } => (lesser(min[0] as int, max[0] as int), greater(
            min[0] as int,
            max[0] as int,
        )),
        Shape::Cylinder { radius, .. } => (-radius, radius as int),
        Shape::Sphere { radius, .. } => (-radius, radius as int),
        Shape::Cone { depth, .. } => (0, depth - 1),
    }
}

/// The middle range, given `a`.
pub open spec fn axis_b(sh: Shape, a: int) -> (int, int) {
    match sh {
        Shape::Box { min, max, .. } => (lesser(min[1] as int, max[1] as int), greater(
            min[1] as int,
            max[1] as int,
        )),
        Shape::Cylinder { radius, .. } => (-radius, radius as int),
        Shape::Sphere { radius, .. } => (-radius, radius as int),
        Shape::Cone { radius, depth, .. } => (
            -cone_span(radius as int, a, depth as int),
            cone_span(radius as int, a, depth as int),
        ),
    }
}

/// The innermost range, given `a`.
pub open spec fn axis_c(sh: Shape, a: int) -> (int, int) {
    match sh {
        Shape::Box { min, max, .. } => (lesser(min[2] as int, max[2] as int), greater(
            min[2] as int,
            max[2] as int,
        )),
        Shape::Cylinder { height, .. } => (0, height - 1),
        Shape::Sphere { radius, .. } => (-radius, radius as int),
        Shape::Cone { radius, depth, .. } => (
            -cone_span(radius as int, a, depth as int),
            cone_span(radius as int, a, depth as int),
        ),
    }
}

/// Whether `(a, b, c)` is inside the solid.
pub open spec fn keep(sh: Shape, a: int, b: int, c: int) -> bool {
    match sh {
        Shape::Box { .. } => true,
        Shape::Cylinder { radius, .. } => a * a + b * b <= radius * radius,
        Shape::Sphere { radius, .. } => a * a + b * b + c * c <= radius * radius,
        Shape::Cone { radius, depth, .. } => {
            let s = cone_span(radius as int, a, depth as int);
            b * b + c * c <= s * s
        },
    }
}

/// The block `(a, b, c)` stands for.
pub open spec fn spot(sh: Shape, a: int, b: int, c: int) -> (int, int, int) {
    match sh {
        Shape::Box { .. } => (a, b, c),
        Shape::Cylinder { centre, .. } => (centre[0] + a, centre[1] + c, centre[2] + b),
        Shape::Sphere { centre, .. } => (centre[0] + a, centre[1] + b, centre[2] + c),
        Shape::Cone { centre, .. } => (centre[0] + b, centre[1] - a, centre[2] + c),
    }
}

/// The blocks for `c` from the start of its range up to (not including) `k`.
pub open spec fn run_c(sh: Shape, a: int, b: int, k: int) -> Seq<(int, int, int)>
    decreases k - axis_c(sh, a).0,
{
    if k <= axis_c(sh, a).0 {
        seq![]
    } else {
        run_c(sh, a, b, k - 1) + if keep(sh, a, b, k - 1) {
            seq![spot(sh, a, b, k - 1)]
        } else {
            seq![]
        }
    }
}

/// The blocks for `b` from the start of its range up to `k`.
pub open spec fn run_b(sh: Shape, a: int, k: int) -> Seq<(int, int, int)>
    decreases k - axis_b(sh, a).0,
{
    if k <= axis_b(sh, a).0 {
        seq![]
    } else {
        run_b(sh, a, k - 1) + run_c(sh, a, k - 1, axis_c(sh, a).1 + 1)
    }
}

/// The blocks for `a` from the start of its range up to `k`.
pub open spec fn run_a(sh: Shape, k: int) -> Seq<(int, int, int)>
    decreases k - axis_a(sh).0,
{
    if k <= axis_a(sh).0 {
        seq![]
    } else {
        run_a(sh, k - 1) + run_b(sh, k - 1, axis_b(sh, k - 1).1 + 1)
    }
}

/// Every block a brush covers, in the order it places them.
pub open spec fn blocks(sh: Shape) -> Seq<(int, int, int)> {
    run_a(sh, axis_a(sh).1 + 1)
}

pub open spec fn fits_i32(x: int) -> bool {
    i32::MIN <= x && x <= i32::MAX
}

/// The arithmetic the brush does stays inside `i32`: the squares and sums
/// its tests compute, and the coordinates of every block it places.
pub open spec fn in_range(sh: Shape) -> bool {
    match sh {
        Shape::Box { .. } => true,
        Shape::Cylinder { centre, radius, height, .. } => {
            &&& radius > i32::MIN
            &&& radius * radius <= i32::MAX
            &&& radius >= 0 ==> 2 * radius * radius <= i32::MAX
            &&& radius >= 0 && height > 0 ==> {
                &&& fits_i32(centre[0] - radius) && fits_i32(centre[0] + radius)
                &&& fits_i32(centre[2] - radius) && fits_i32(centre[2] + radius)
                &&& fits_i32(centre[1] + height - 1)
            }
        },
        Shape::Sphere { centre, radius, .. } => {
            &&& radius > i32::MIN
            &&& radius * radius <= i32::MAX
            &&& radius >= 0 ==> {
                &&& 3 * radius * radius <= i32::MAX
                &&& fits_i32(centre[0] - radius) && fits_i32(centre[0] + radius)
                &&& fits_i32(centre[1] - radius) && fits_i32(centre[1] + radius)
                &&& fits_i32(centre[2] - radius) && fits_i32(centre[2] + radius)
            }
        },
        Shape::Cone { centre, radius, depth, .. } => depth > 0 ==> {
            &&& fits_i32(radius * (depth - 1))
            &&& radius > i32::MIN
            &&& radius * radius <= i32::MAX
            &&& radius >= 0 ==> {
                &&& 2 * radius * radius <= i32::MAX
                &&& fits_i32(centre[1] - (depth - 1))
                &&& fits_i32(centre[0] - radius) && fits_i32(centre[0] + radius)
                &&& fits_i32(centre[2] - radius) && fits_i32(centre[2] + radius)
            }
        },
    }
}

pub open spec fn as_ints(v: Seq<[i32; 3]>) -> Seq<(int, int, int)> {
    v.map_values(|p: [i32; 3]| (p[0] as int, p[1] as int, p[2] as int))
}

proof fn lemma_square_below(x: int, m: int)
    by (nonlinear_arith)
    requires
        0 <= m,
        -m <= x <= m,
    ensures
        0 <= x * x <= m * m,
{
}

proof fn lemma_span_bounds(radius: int, level: int, depth: int)
    requires
        0 <= level < depth,
    ensures
        radius >= 0 ==> 0 <= cone_span(radius, level, depth) <= radius,
        radius < 0 ==> cone_span(radius, level, depth) < 0,
        radius < 0 ==> cone_span(radius, level, depth) >= radius,
        radius >= 0 && depth > 1 && level == depth - 1 ==> cone_span(radius, level, depth) == 0,
        radius >= 0 && level == 0 ==> cone_span(radius, level, depth) == radius,
{
    if radius >= 0 && depth > 1 {
        let e = depth - 1;
        assert(0 <= (radius * (e - level)) / e <= radius) by (nonlinear_arith)
            requires
                radius >= 0,
                0 <= level <= e,
                e >= 1,
        {
            assert(0 <= radius * (e - level) <= radius * e);
            assert((radius * e) / e == radius);
        }
        assert((radius * (e - 0)) / e == radius) by (nonlinear_arith)
            requires
                e >= 1,
        ;
        if level == e {
            assert(e - level == 0);
            assert(radius * 0 == 0) by (nonlinear_arith);
        }
    }
}

impl Brush {
    /// The ranges, test and block of this brush, as machine numbers.
    fn range_a(&self) -> (r: (i64, i64))
        requires
            in_range(self@),
        ensures
            r.0 as int == axis_a(self@).0,
            r.1 as int == axis_a(self@).1,
            i32::MIN <= r.0,
            r.1 <= i32::MAX,
    {
        match self {
            Brush::Box { min, max, .. } => {
                if min[0] <= max[0] {
                    (min[0] as i64, max[0] as i64)
                } else {
                    (max[0] as i64, min[0] as i64)
                }
            },
            Brush::Cylinder { radius, .. } => (-(*radius as i64), *radius as i64),
            Brush::Sphere { radius, .. } => (-(*radius as i64), *radius as i64),
            Brush::Cone { depth, .. } => (0, *depth as i64 - 1),
        }
    }

    fn span(radius: i32, level: i64, depth: i32) -> (s: i64)
        requires
            0 <= level < depth,
            fits_i32(radius * (depth - 1)),
        ensures
            s as int == cone_span(radius as int, level as int, depth as int),
            radius >= 0 ==> 0 <= s <= radius,
            radius < 0 ==> radius <= s < 0,
    {
        proof {
            lemma_span_bounds(radius as int, level as int, depth as int);
        }
        if radius < 0 {
            radius as i64
        } else if depth > 1 {
            let e: i64 = depth as i64 - 1;
            proof {
                assert(0 <= (radius as int) * (e - level) <= (radius as int) * e) by (nonlinear_arith)
                    requires
                        radius >= 0,
                        0 <= level <= e,
                ;
            }
            (radius as i64 * (e - level)) / e
        } else {
            radius as i64
        }
    }

    fn range_bc(&self, a: i64) -> (r: ((i64, i64), (i64, i64)))
        requires
            in_range(self@),
            axis_a(self@).0 <= a <= axis_a(self@).1,
        ensures
            r.0.0 as int == axis_b(self@, a as int).0,
            r.0.1 as int == axis_b(self@, a as int).1,
            r.1.0 as int == axis_c(self@, a as int).0,
            r.1.1 as int == axis_c(self@, a as int).1,
            i32::MIN <= r.0.0,
            r.0.1 <= i32::MAX,
            i32::MIN <= r.1.0,
            r.1.1 <= i32::MAX,
    {
        match self {
            Brush::Box { min, max, .. } => {
                let b = if min[1] <= max[1] {
                    (min[1] as i64, max[1] as i64)
                } else {
                    (max[1] as i64, min[1] as i64)
                };
                let c = if min[2] <= max[2] {
                    (min[2] as i64, max[2] as i64)
                } else {
                    (max[2] as i64, min[2] as i64)
                };
                (b, c)
            },
            Brush::Cylinder { radius, height, .. } => (
                (-(*radius as i64), *radius as i64),
                (0, *height as i64 - 1),
            ),
            Brush::Sphere { radius, .. } => (
                (-(*radius as i64), *radius as i64),
                (-(*radius as i64), *radius as i64),
            ),
            Brush::Cone { radius, depth, .. } => {
                let s = Self::span(*radius, a, *depth);
                ((-s, s), (-s, s))
            },
        }
    }

    fn keeps(&self, a: i64, b: i64, c: i64) -> (k: bool)
        requires
            in_range(self@),
            axis_a(self@).0 <= a <= axis_a(self@).1,
            axis_b(self@, a as int).0 <= b <= axis_b(self@, a as int).1,
            axis_c(self@, a as int).0 <= c <= axis_c(self@, a as int).1,
        ensures
            k == keep(self@, a as int, b as int, c as int),
    {
        match self {
            Brush::Box { .. } => true,
            Brush::Cylinder { radius, .. } => {
                let r = *radius as i64;
                proof {
                    lemma_square_below(a as int, r as int);
                    lemma_square_below(b as int, r as int);
                }
                a * a + b * b <= r * r
            },
            Brush::Sphere { radius, .. } => {
                let r = *radius as i64;
                proof {
                    lemma_square_below(a as int, r as int);
                    lemma_square_below(b as int, r as int);
                    lemma_square_below(c as int, r as int);
                }
                a * a + b * b + c * c <= r * r
            },
            Brush::Cone { radius, depth, .. } => {
                let s = Self::span(*radius, a, *depth);
                proof {
                    lemma_square_below(b as int, s as int);
                    lemma_square_below(c as int, s as int);
                    lemma_square_below(s as int, *radius as int);
                }
                b * b + c * c <= s * s
            },
        }
    }

    fn spot_at(&self, a: i64, b: i64, c: i64) -> (p: [i32; 3])
        requires
            in_range(self@),
            axis_a(self@).0 <= a <= axis_a(self@).1,
            axis_b(self@, a as int).0 <= b <= axis_b(self@, a as int).1,
            axis_c(self@, a as int).0 <= c <= axis_c(self@, a as int).1,
        ensures
            (p[0] as int, p[1] as int, p[2] as int) == spot(self@, a as int, b as int, c as int),
    {
        match self {
            Brush::Box { .. } => [a as i32, b as i32, c as i32],
            Brush::Cylinder { centre, .. } => [
                (centre[0] as i64 + a) as i32,
                (centre[1] as i64 + c) as i32,
                (centre[2] as i64 + b) as i32,
            ],
            Brush::Sphere { centre, .. } => [
                (centre[0] as i64 + a) as i32,
                (centre[1] as i64 + b) as i32,
                (centre[2] as i64 + c) as i32,
            ],
            Brush::Cone { centre, radius, depth, .. } => {
                let s = Self::span(*radius, a, *depth);
                [
                    (centre[0] as i64 + b) as i32,
                    (centre[1] as i64 - a) as i32,
                    (centre[2] as i64 + c) as i32,
                ]
            },
        }
    }

    /// Every block this brush covers, in the order it places them.
    ///
    /// The brush's block id is the same for each of them.
    pub fn each_block(&self) -> (v: Vec<[i32; 3]>)
        requires
            in_range(self@),
        ensures
            as_ints(v@) == blocks(self@),
    {
        let ghost sh = self@;
        let mut v: Vec<[i32; 3]> = Vec::new();
        let (alo, ahi) = self.range_a();
        let mut a = alo;
        assert(as_ints(v@) =~= run_a(sh, a as int));
        while a <= ahi
            invariant
                sh == self@,
                in_range(sh),
                alo == axis_a(sh).0,
                ahi == axis_a(sh).1,
                alo <= a,
                a <= ahi + 1 || a == alo,
                ahi <= i32::MAX,
                as_ints(v@) == run_a(sh, a as int),
            decreases ahi + 1 - a,
        {
            let ((blo, bhi), (clo, chi)) = self.range_bc(a);
            let ghost done_a = as_ints(v@);
            let mut b = blo;
            assert(run_b(sh, a as int, b as int) =~= Seq::<(int, int, int)>::empty());
            assert(as_ints(v@) =~= done_a + run_b(sh, a as int, b as int));
            while b <= bhi
                invariant
                    sh == self@,
                    in_range(sh),
                    alo <= a <= ahi,
                    ahi == axis_a(sh).1,
                    alo == axis_a(sh).0,
                    blo == axis_b(sh, a as int).0,
                    bhi == axis_b(sh, a as int).1,
                    clo == axis_c(sh, a as int).0,
                    chi == axis_c(sh, a as int).1,
                    blo <= b,
                    b <= bhi + 1 || b == blo,
                    bhi <= i32::MAX,
                    chi <= i32::MAX,
                    i32::MIN <= clo,
                    as_ints(v@) == done_a + run_b(sh, a as int, b as int),
                decreases bhi + 1 - b,
            {
                let ghost done_b = as_ints(v@);
                let mut c = clo;
                assert(run_c(sh, a as int, b as int, c as int) =~= Seq::<(int, int, int)>::empty());
                assert(as_ints(v@) =~= done_b + run_c(sh, a as int, b as int, c as int));
                while c <= chi
                    invariant
                        sh == self@,
                        in_range(sh),
                        alo <= a <= ahi,
                        ahi == axis_a(sh).1,
                        alo == axis_a(sh).0,
                        blo <= b <= bhi,
                        blo == axis_b(sh, a as int).0,
                        bhi == axis_b(sh, a as int).1,
                        clo == axis_c(sh, a as int).0,
                        chi == axis_c(sh, a as int).1,
                        clo <= c,
                        c <= chi + 1 || c == clo,
                        chi <= i32::MAX,
                        as_ints(v@) == done_b + run_c(sh, a as int, b as int, c as int),
                    decreases chi + 1 - c,
                {
                    if self.keeps(a, b, c) {
                        let p = self.spot_at(a, b, c);
                        let ghost before = v@;
                        v.push(p);
                        assert(as_ints(v@) =~= as_ints(before).push(
                            (p[0] as int, p[1] as int, p[2] as int),
                        ));
                    }
                    assert(as_ints(v@) =~= done_b + run_c(sh, a as int, b as int, c + 1));
                    c += 1;
                }
                assert(run_c(sh, a as int, b as int, c as int) == run_c(
                    sh,
                    a as int,
                    b as int,
                    chi + 1,
                ));
                assert(as_ints(v@) =~= done_a + run_b(sh, a as int, b + 1));
                b += 1;
            }
            assert(run_b(sh, a as int, b as int) == run_b(sh, a as int, bhi + 1));
            assert(as_ints(v@) =~= run_a(sh, a + 1));
            a += 1;
        }
        assert(run_a(sh, a as int) == run_a(sh, ahi + 1));
        v
    }
}


// ---------------------------------------------------------------------------
// What a brush covers
// ---------------------------------------------------------------------------

/// The block `p` is part of the solid the brush describes.
///
/// A box is every block between its two corners, inclusive, whichever
/// corner is written first. A cylinder is the blocks within `radius` of its
/// axis, horizontally, from its base up through `height` layers. A sphere is
/// the blocks within `radius` of its centre. A cone is, on each of its
/// `depth` layers going down from the top, the blocks within that layer's
/// reach of its axis, the reach shrinking linearly from `radius` at the top
/// to nothing but the axis itself on the lowest layer (a cone one layer deep
/// is only its top).
pub open spec fn covers(sh: Shape, p: (int, int, int)) -> bool {
    match sh {
        Shape::Box { min, max, .. } => {
            &&& lesser(min[0] as int, max[0] as int) <= p.0 <= greater(min[0] as int, max[0] as int)
            &&& lesser(min[1] as int, max[1] as int) <= p.1 <= greater(min[1] as int, max[1] as int)
            &&& lesser(min[2] as int, max[2] as int) <= p.2 <= greater(min[2] as int, max[2] as int)
        },
        Shape::Cylinder { centre, radius, height, .. } => {
            let dx = p.0 - centre[0];
            let dy = p.1 - centre[1];
            let dz = p.2 - centre[2];
            &&& -radius <= dx <= radius
            &&& -radius <= dz <= radius
            &&& dx * dx + dz * dz <= radius * radius
            &&& 0 <= dy < height
        },
        Shape::Sphere { centre, radius, .. } => {
            let dx = p.0 - centre[0];
            let dy = p.1 - centre[1];
            let dz = p.2 - centre[2];
            &&& -radius <= dx <= radius
            &&& -radius <= dy <= radius
            &&& -radius <= dz <= radius
            &&& dx * dx + dy * dy + dz * dz <= radius * radius
        },
        Shape::Cone { centre, radius, depth, .. } => {
            let level = centre[1] - p.1;
            let reach = cone_span(radius as int, level, depth as int);
            let dx = p.0 - centre[0];
            let dz = p.2 - centre[2];
            &&& 0 <= level < depth
            &&& -reach <= dx <= reach
            &&& -reach <= dz <= reach
            &&& dx * dx + dz * dz <= reach * reach
        },
    }
}

pub open spec fn hit(sh: Shape, a: int, b: int, c: int, x: (int, int, int)) -> bool {
    keep(sh, a, b, c) && spot(sh, a, b, c) == x
}

pub open spec fn reaches(sh: Shape, a: int, b: int, c: int) -> bool {
    &&& axis_a(sh).0 <= a <= axis_a(sh).1
    &&& axis_b(sh, a).0 <= b <= axis_b(sh, a).1
    &&& axis_c(sh, a).0 <= c <= axis_c(sh, a).1
}

proof fn lemma_run_c_has(sh: Shape, a: int, b: int, k: int, x: (int, int, int))
    ensures
        run_c(sh, a, b, k).contains(x) <==> exists|c: int|
            axis_c(sh, a).0 <= c < k && #[trigger] hit(sh, a, b, c, x),
    decreases k - axis_c(sh, a).0,
{
    broadcast use vstd::seq_lib::lemma_seq_concat_contains_all_elements;

    if k > axis_c(sh, a).0 {
        lemma_run_c_has(sh, a, b, k - 1, x);
        let tail = if keep(sh, a, b, k - 1) {
            seq![spot(sh, a, b, k - 1)]
        } else {
            seq![]
        };
        assert(tail.contains(x) <==> hit(sh, a, b, k - 1, x)) by {
            if hit(sh, a, b, k - 1, x) {
                assert(tail[0] == x);
            }
        }
        if exists|c: int| axis_c(sh, a).0 <= c < k && #[trigger] hit(sh, a, b, c, x) {
            let c = choose|c: int| axis_c(sh, a).0 <= c < k && #[trigger] hit(sh, a, b, c, x);
            if c < k - 1 {
            } else {
            }
        }
    }
}

proof fn lemma_run_b_has(sh: Shape, a: int, k: int, x: (int, int, int))
    ensures
        run_b(sh, a, k).contains(x) <==> exists|b: int, c: int|
            axis_b(sh, a).0 <= b < k && axis_c(sh, a).0 <= c <= axis_c(sh, a).1 && #[trigger] hit(
                sh,
                a,
                b,
                c,
                x,
            ),
    decreases k - axis_b(sh, a).0,
{
    broadcast use vstd::seq_lib::lemma_seq_concat_contains_all_elements;

    if k > axis_b(sh, a).0 {
        lemma_run_b_has(sh, a, k - 1, x);
        lemma_run_c_has(sh, a, k - 1, axis_c(sh, a).1 + 1, x);
        if exists|b: int, c: int|
            axis_b(sh, a).0 <= b < k && axis_c(sh, a).0 <= c <= axis_c(sh, a).1 && #[trigger] hit(
                sh,
                a,
                b,
                c,
                x,
            ) {
            let (b, c) = choose|b: int, c: int|
                axis_b(sh, a).0 <= b < k && axis_c(sh, a).0 <= c <= axis_c(sh, a).1
                    && #[trigger] hit(sh, a, b, c, x);
            if b < k - 1 {
            } else {
            }
        }
    }
}

proof fn lemma_run_a_has(sh: Shape, k: int, x: (int, int, int))
    requires
        k <= axis_a(sh).1 + 1,
    ensures
        run_a(sh, k).contains(x) <==> exists|a: int, b: int, c: int|
            a < k && reaches(sh, a, b, c) && #[trigger] hit(sh, a, b, c, x),
    decreases k - axis_a(sh).0,
{
    broadcast use vstd::seq_lib::lemma_seq_concat_contains_all_elements;

    if k > axis_a(sh).0 {
        lemma_run_a_has(sh, k - 1, x);
        lemma_run_b_has(sh, k - 1, axis_b(sh, k - 1).1 + 1, x);
        if exists|a: int, b: int, c: int| a < k && reaches(sh, a, b, c) && #[trigger] hit(sh, a, b, c, x) {
            let (a, b, c) = choose|a: int, b: int, c: int|
                a < k && reaches(sh, a, b, c) && #[trigger] hit(sh, a, b, c, x);
            if a < k - 1 {
            } else {
            }
        }
    }
}

/// A block is placed by a brush exactly when the brush covers it.
pub proof fn law_blocks_are_what_it_covers(sh: Shape, p: (int, int, int))
    ensures
        blocks(sh).contains(p) <==> covers(sh, p),
{
    lemma_run_a_has(sh, axis_a(sh).1 + 1, p);
    match sh {
        Shape::Box { min, max, .. } => {
            if covers(sh, p) {
                assert(reaches(sh, p.0, p.1, p.2) && hit(sh, p.0, p.1, p.2, p));
            }
        },
        Shape::Cylinder { centre, radius, height, .. } => {
            if covers(sh, p) {
                let (a, b, c) = (p.0 - centre[0], p.2 - centre[2], p.1 - centre[1]);
                assert(reaches(sh, a, b, c) && hit(sh, a, b, c, p));
            }
        },
        Shape::Sphere { centre, radius, .. } => {
            if covers(sh, p) {
                let (a, b, c) = (p.0 - centre[0], p.1 - centre[1], p.2 - centre[2]);
                assert(reaches(sh, a, b, c) && hit(sh, a, b, c, p));
            }
        },
        Shape::Cone { centre, radius, depth, .. } => {
            if covers(sh, p) {
                let (a, b, c) = (centre[1] - p.1, p.0 - centre[0], p.2 - centre[2]);
                assert(reaches(sh, a, b, c) && hit(sh, a, b, c, p));
            }
        },
    }
}

proof fn lemma_spot_injective(sh: Shape, a: int, b: int, c: int, a2: int, b2: int, c2: int)
    requires
        spot(sh, a, b, c) == spot(sh, a2, b2, c2),
    ensures
        a == a2 && b == b2 && c == c2,
{
}

proof fn lemma_no_dup_concat(s: Seq<(int, int, int)>, t: Seq<(int, int, int)>)
    requires
        s.no_duplicates(),
        t.no_duplicates(),
        forall|x: (int, int, int)| s.contains(x) ==> !t.contains(x),
    ensures
        (s + t).no_duplicates(),
{
    let u = s + t;
    assert forall|i: int, j: int| 0 <= i < u.len() && 0 <= j < u.len() && i != j implies u[i]
        != u[j] by {
        if i < s.len() && j >= s.len() {
            assert(s.contains(u[i]));
            assert(t[j - s.len()] == u[j]);
            assert(t.contains(u[j]));
        } else if j < s.len() && i >= s.len() {
            assert(s.contains(u[j]));
            assert(t[i - s.len()] == u[i]);
            assert(t.contains(u[i]));
        } else if i >= s.len() && j >= s.len() {
            assert(u[i] == t[i - s.len()]);
            assert(u[j] == t[j - s.len()]);
        }
    }
}

proof fn lemma_run_c_distinct(sh: Shape, a: int, b: int, k: int)
    ensures
        run_c(sh, a, b, k).no_duplicates(),
    decreases k - axis_c(sh, a).0,
{
    if k > axis_c(sh, a).0 {
        lemma_run_c_distinct(sh, a, b, k - 1);
        let tail = if keep(sh, a, b, k - 1) {
            seq![spot(sh, a, b, k - 1)]
        } else {
            seq![]
        };
        assert forall|x: (int, int, int)| #[trigger] run_c(sh, a, b, k - 1).contains(x) implies !tail.contains(
            x,
        ) by {
            lemma_run_c_has(sh, a, b, k - 1, x);
            let c = choose|c: int| axis_c(sh, a).0 <= c < k - 1 && #[trigger] hit(sh, a, b, c, x);
            if tail.contains(x) {
                lemma_spot_injective(sh, a, b, c, a, b, k - 1);
            }
        }
        lemma_no_dup_concat(run_c(sh, a, b, k - 1), tail);
    }
}

proof fn lemma_run_b_distinct(sh: Shape, a: int, k: int)
    ensures
        run_b(sh, a, k).no_duplicates(),
    decreases k - axis_b(sh, a).0,
{
    if k > axis_b(sh, a).0 {
        lemma_run_b_distinct(sh, a, k - 1);
        let last = axis_c(sh, a).1 + 1;
        lemma_run_c_distinct(sh, a, k - 1, last);
        assert forall|x: (int, int, int)| #[trigger] run_b(sh, a, k - 1).contains(x) implies !run_c(
            sh,
            a,
            k - 1,
            last,
        ).contains(x) by {
            lemma_run_b_has(sh, a, k - 1, x);
            lemma_run_c_has(sh, a, k - 1, last, x);
            let (b, c) = choose|b: int, c: int|
                axis_b(sh, a).0 <= b < k - 1 && axis_c(sh, a).0 <= c <= axis_c(sh, a).1
                    && #[trigger] hit(sh, a, b, c, x);
            if run_c(sh, a, k - 1, last).contains(x) {
                let c2 = choose|c2: int| axis_c(sh, a).0 <= c2 < last && #[trigger] hit(
                    sh,
                    a,
                    k - 1,
                    c2,
                    x,
                );
                lemma_spot_injective(sh, a, b, c, a, k - 1, c2);
            }
        }
        lemma_no_dup_concat(run_b(sh, a, k - 1), run_c(sh, a, k - 1, last));
    }
}

proof fn lemma_run_a_distinct(sh: Shape, k: int)
    requires
        k <= axis_a(sh).1 + 1,
    ensures
        run_a(sh, k).no_duplicates(),
    decreases k - axis_a(sh).0,
{
    if k > axis_a(sh).0 {
        lemma_run_a_distinct(sh, k - 1);
        let last = axis_b(sh, k - 1).1 + 1;
        lemma_run_b_distinct(sh, k - 1, last);
        assert forall|x: (int, int, int)| #[trigger] run_a(sh, k - 1).contains(x) implies !run_b(
            sh,
            k - 1,
            last,
        ).contains(x) by {
            lemma_run_a_has(sh, k - 1, x);
            lemma_run_b_has(sh, k - 1, last, x);
            let (a, b, c) = choose|a: int, b: int, c: int|
                a < k - 1 && reaches(sh, a, b, c) && #[trigger] hit(sh, a, b, c, x);
            if run_b(sh, k - 1, last).contains(x) {
                let (b2, c2) = choose|b2: int, c2: int|
                    axis_b(sh, k - 1).0 <= b2 < last && axis_c(sh, k - 1).0 <= c2 <= axis_c(
                        sh,
                        k - 1,
                    ).1 && #[trigger] hit(sh, k - 1, b2, c2, x);
                lemma_spot_injective(sh, a, b, c, k - 1, b2, c2);
            }
        }
        lemma_no_dup_concat(run_a(sh, k - 1), run_b(sh, k - 1, last));
    }
}

/// No block is placed twice by one brush.
pub proof fn law_blocks_are_distinct(sh: Shape)
    ensures
        blocks(sh).no_duplicates(),
{
    lemma_run_a_distinct(sh, axis_a(sh).1 + 1);
}

/// A cone is its full radius on its top layer and tapers to a point: the
/// lowest layer of a cone more than one block deep is the single block
/// under its centre, placed once.
pub proof fn law_a_cone_ends_in_a_point(
    centre: [i32; 3],
    radius: i32,
    depth: i32,
    block: Seq<char>,
    p: (int, int, int),
)
    requires
        radius >= 0,
        depth > 1,
    ensures
        ({
            let sh = Shape::Cone { centre, radius, depth, block };
            let bottom = centre[1] - (depth - 1);
            &&& p.1 == bottom ==> (blocks(sh).contains(p) <==> p == (centre[0] as int, bottom,
                centre[2] as int))
            &&& p.1 == centre[1] ==> (blocks(sh).contains(p) <==> {
                let dx = p.0 - centre[0];
                let dz = p.2 - centre[2];
                dx * dx + dz * dz <= radius * radius
            })
            &&& blocks(sh).no_duplicates()
        }),
{
    let sh = Shape::Cone { centre, radius, depth, block };
    law_blocks_are_what_it_covers(sh, p);
    law_blocks_are_distinct(sh);
    lemma_span_bounds(radius as int, (depth - 1) as int, depth as int);
    lemma_span_bounds(radius as int, 0, depth as int);
    let dx = p.0 - centre[0];
    let dz = p.2 - centre[2];
    if p.1 == centre[1] {
        if dx * dx + dz * dz <= radius * radius {
            assert(-radius <= dx <= radius) by (nonlinear_arith)
                requires
                    dx * dx + dz * dz <= radius * radius,
                    radius >= 0,
            ;
            assert(-radius <= dz <= radius) by (nonlinear_arith)
                requires
                    dx * dx + dz * dz <= radius * radius,
                    radius >= 0,
            ;
        }
    }
    if p.1 == centre[1] - (depth - 1) && covers(sh, p) {
        assert(dx == 0 && dz == 0);
    }
}

} // verus!
