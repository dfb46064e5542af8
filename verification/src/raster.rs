//! The triangle rasterizer: bounding-box scan, barycentric coverage test,
//! flat-shading lighting and depth interpolation.
//!
//! Coverage is winding-independent: a pixel is inside when all three
//! barycentric weights are non-negative, so pixels exactly on a shared edge
//! may be claimed by both neighbouring triangles. A triangle with zero
//! screen area has a zero barycentric denominator; its weights are defined
//! as a negative sentinel, so no pixel passes the test and the triangle is
//! discarded silently, as is any triangle with a vertex whose perspective
//! divide failed.

use vstd::prelude::*;

verus! {

use vstd::math::{min, max};
use crate::fixed::{
    Fx,
    fx_add_bits,
    fx_sub_bits,
    fx_mul_bits,
    fx_div_bits,
    fx_neg_bits,
    fx_floor_bits,
    fx_ceil_bits,
    sqrt_floor,
    isqrt_u64,
};
use crate::color::Color;
use crate::vertex::{Vec3, Vertex};
use crate::fragment::Fragment;

/// Channel bits of the mid-gray base color, 100/255 rounded up so that the
/// fully lit triangle packs back to channel value 100.
pub const BASE_GRAY_BITS: i64 = 25701;

/// Twice the signed screen area of the triangle: the cross product of the
/// edge vectors `b - a` and `c - a`. Zero exactly when the three screen
/// points are collinear or coincident.
pub open spec fn bary_denom_bits(a: Vec3, b: Vec3, c: Vec3) -> int {
    fx_sub_bits(
        fx_mul_bits(
            fx_sub_bits(b.x.bits as int, a.x.bits as int),
            fx_sub_bits(c.y.bits as int, a.y.bits as int),
        ),
        fx_mul_bits(
            fx_sub_bits(b.y.bits as int, a.y.bits as int),
            fx_sub_bits(c.x.bits as int, a.x.bits as int),
        ),
    )
}

/// Weight of vertex `b` at the point with fixed-point coordinates
/// `(pxb, pyb)`: the area ratio `cross(p - a, c - a) / cross(b - a, c - a)`.
pub open spec fn bary_w2_bits(a: Vec3, b: Vec3, c: Vec3, pxb: int, pyb: int) -> int {
    fx_div_bits(
        fx_sub_bits(
            fx_mul_bits(
                fx_sub_bits(pxb, a.x.bits as int),
                fx_sub_bits(c.y.bits as int, a.y.bits as int),
            ),
            fx_mul_bits(
                fx_sub_bits(pyb, a.y.bits as int),
                fx_sub_bits(c.x.bits as int, a.x.bits as int),
            ),
        ),
        bary_denom_bits(a, b, c),
    )
}

/// Weight of vertex `c`: the area ratio `cross(b - a, p - a) / cross(b - a, c - a)`.
pub open spec fn bary_w3_bits(a: Vec3, b: Vec3, c: Vec3, pxb: int, pyb: int) -> int {
    fx_div_bits(
        fx_sub_bits(
            fx_mul_bits(
                fx_sub_bits(b.x.bits as int, a.x.bits as int),
                fx_sub_bits(pyb, a.y.bits as int),
            ),
            fx_mul_bits(
                fx_sub_bits(b.y.bits as int, a.y.bits as int),
                fx_sub_bits(pxb, a.x.bits as int),
            ),
        ),
        bary_denom_bits(a, b, c),
    )
}

/// Weight of vertex `a`: whatever the other two leave of 1.
pub open spec fn bary_w1_bits(a: Vec3, b: Vec3, c: Vec3, pxb: int, pyb: int) -> int {
    fx_sub_bits(
        fx_sub_bits(65536, bary_w2_bits(a, b, c, pxb, pyb)),
        bary_w3_bits(a, b, c, pxb, pyb),
    )
}

/// The three weights `(of a, of b, of c)`. A zero denominator yields the
/// sentinel `(-1, -1, -1)`, which fails every coverage test.
pub open spec fn bary_weights_bits(a: Vec3, b: Vec3, c: Vec3, pxb: int, pyb: int) -> (
    int,
    int,
    int,
) {
    if bary_denom_bits(a, b, c) == 0 {
        (-65536, -65536, -65536)
    } else {
        (
            bary_w1_bits(a, b, c, pxb, pyb),
            bary_w2_bits(a, b, c, pxb, pyb),
            bary_w3_bits(a, b, c, pxb, pyb),
        )
    }
}

/// Whether the pixel center `(x, y)` lies inside the triangle (edges
/// included): all three weights non-negative.
pub open spec fn pixel_covered(a: Vec3, b: Vec3, c: Vec3, x: int, y: int) -> bool {
    let ws = bary_weights_bits(a, b, c, x * 65536, y * 65536);
    ws.0 >= 0 && ws.1 >= 0 && ws.2 >= 0
}

/// The interpolated depth at a covered pixel: the weighted sum of the three
/// screen-space z values.
pub open spec fn pixel_depth_bits(a: Vec3, b: Vec3, c: Vec3, x: int, y: int) -> int {
    let ws = bary_weights_bits(a, b, c, x * 65536, y * 65536);
    fx_add_bits(
        fx_add_bits(fx_mul_bits(ws.0, a.z.bits as int), fx_mul_bits(ws.1, b.z.bits as int)),
        fx_mul_bits(ws.2, c.z.bits as int),
    )
}

pub open spec fn bbox_min_x(a: Vec3, b: Vec3, c: Vec3) -> int {
    fx_floor_bits(min(min(a.x.bits as int, b.x.bits as int), c.x.bits as int))
}

pub open spec fn bbox_min_y(a: Vec3, b: Vec3, c: Vec3) -> int {
    fx_floor_bits(min(min(a.y.bits as int, b.y.bits as int), c.y.bits as int))
}

pub open spec fn bbox_max_x(a: Vec3, b: Vec3, c: Vec3) -> int {
    fx_ceil_bits(max(max(a.x.bits as int, b.x.bits as int), c.x.bits as int))
}

pub open spec fn bbox_max_y(a: Vec3, b: Vec3, c: Vec3) -> int {
    fx_ceil_bits(max(max(a.y.bits as int, b.y.bits as int), c.y.bits as int))
}

/// Squared length of a normal, in fixed-point bits.
pub open spec fn norm_sq_bits(n: Vec3) -> int {
    fx_add_bits(
        fx_add_bits(
            fx_mul_bits(n.x.bits as int, n.x.bits as int),
            fx_mul_bits(n.y.bits as int, n.y.bits as int),
        ),
        fx_mul_bits(n.z.bits as int, n.z.bits as int),
    )
}

/// Length of a normal, in fixed-point bits (floor of the exact root).
pub open spec fn norm_bits(n: Vec3) -> int {
    let s = norm_sq_bits(n);
    if s <= 0 {
        0
    } else {
        sqrt_floor((s * 65536) as nat) as int
    }
}

/// Flat-shading intensity against the fixed light direction `(0, 0, -1)`:
/// `max(0, dot(normalize(n), light))`, which is `max(0, -n.z / |n|)`.
/// A zero-length normal gives intensity 0.
pub open spec fn flat_intensity_bits(n: Vec3) -> int {
    let nb = norm_bits(n);
    if nb == 0 {
        0
    } else {
        let d = fx_div_bits(fx_neg_bits(n.z.bits as int), nb);
        if d < 0 {
            0
        } else {
            d
        }
    }
}

/// The triangle's flat-shaded color: the mid-gray base scaled by the
/// intensity of its representative normal.
pub open spec fn lit_color(n: Vec3) -> Color {
    Color {
        r: Fx { bits: fx_mul_bits(25701, flat_intensity_bits(n)) as i64 },
        g: Fx { bits: fx_mul_bits(25701, flat_intensity_bits(n)) as i64 },
        b: Fx { bits: fx_mul_bits(25701, flat_intensity_bits(n)) as i64 },
    }
}

/// The fragment emitted for a covered pixel.
pub open spec fn pixel_fragment(
    a: Vec3,
    b: Vec3,
    c: Vec3,
    col: Color,
    x: int,
    y: int,
) -> Fragment {
    Fragment {
        x: x as i32,
        y: y as i32,
        color: col,
        depth: Fx { bits: pixel_depth_bits(a, b, c, x, y) as i64 },
    }
}

/// The fragments of one bounding-box row, pixels `x` up to (excluding) `x_end`.
pub open spec fn row_fragments(
    a: Vec3,
    b: Vec3,
    c: Vec3,
    col: Color,
    y: int,
    x: int,
    x_end: int,
) -> Seq<Fragment>
    decreases x_end - x,
{
    if x >= x_end {
        Seq::empty()
    } else {
        let rest = row_fragments(a, b, c, col, y, x + 1, x_end);
        if pixel_covered(a, b, c, x, y) {
            seq![pixel_fragment(a, b, c, col, x, y)] + rest
        } else {
            rest
        }
    }
}

/// The fragments of the rows `y` up to (excluding) `y_end`, in scan order.
pub open spec fn rows_fragments(
    a: Vec3,
    b: Vec3,
    c: Vec3,
    col: Color,
    y: int,
    y_end: int,
    x0: int,
    x1: int,
) -> Seq<Fragment>
    decreases y_end - y,
{
    if y >= y_end {
        Seq::empty()
    } else {
        row_fragments(a, b, c, col, y, x0, x1) + rows_fragments(a, b, c, col, y + 1, y_end, x0, x1)
    }
}

/// Everything `triangle` emits: one fragment per covered pixel of the
/// bounding box, in row-major scan order, all carrying the flat-shaded
/// color; or nothing at all if a vertex failed its perspective divide.
pub open spec fn triangle_fragments(v1: Vertex, v2: Vertex, v3: Vertex) -> Seq<Fragment> {
    if !(v1.transformed_valid && v2.transformed_valid && v3.transformed_valid) {
        Seq::empty()
    } else {
        let a = v1.transformed_position;
        let b = v2.transformed_position;
        let c = v3.transformed_position;
        rows_fragments(
            a,
            b,
            c,
            lit_color(v1.transformed_normal),
            bbox_min_y(a, b, c),
            bbox_max_y(a, b, c) + 1,
            bbox_min_x(a, b, c),
            bbox_max_x(a, b, c) + 1,
        )
    }
}

proof fn lemma_row_fragments_complete(
    a: Vec3,
    b: Vec3,
    c: Vec3,
    col: Color,
    y: int,
    x0: int,
    x1: int,
    x: int,
)
    requires
        x0 <= x < x1,
        pixel_covered(a, b, c, x, y),
    ensures
        row_fragments(a, b, c, col, y, x0, x1).contains(pixel_fragment(a, b, c, col, x, y)),
    decreases x - x0,
{
    let f = pixel_fragment(a, b, c, col, x, y);
    if x == x0 {
        assert(row_fragments(a, b, c, col, y, x0, x1)[0] == f);
    } else {
        lemma_row_fragments_complete(a, b, c, col, y, x0 + 1, x1, x);
        let rest = row_fragments(a, b, c, col, y, x0 + 1, x1);
        let i = choose|i: int| 0 <= i < rest.len() && rest[i] == f;
        if pixel_covered(a, b, c, x0, y) {
            assert(row_fragments(a, b, c, col, y, x0, x1)[i + 1] == f);
        } else {
            assert(row_fragments(a, b, c, col, y, x0, x1)[i] == f);
        }
    }
}

proof fn lemma_rows_fragments_complete(
    a: Vec3,
    b: Vec3,
    c: Vec3,
    col: Color,
    y0: int,
    y1: int,
    x0: int,
    x1: int,
    x: int,
    y: int,
)
    requires
        y0 <= y < y1,
        x0 <= x < x1,
        pixel_covered(a, b, c, x, y),
    ensures
        rows_fragments(a, b, c, col, y0, y1, x0, x1).contains(pixel_fragment(a, b, c, col, x, y)),
    decreases y - y0,
{
    let f = pixel_fragment(a, b, c, col, x, y);
    let head = row_fragments(a, b, c, col, y0, x0, x1);
    if y == y0 {
        lemma_row_fragments_complete(a, b, c, col, y, x0, x1, x);
        let i = choose|i: int| 0 <= i < head.len() && head[i] == f;
        assert(rows_fragments(a, b, c, col, y0, y1, x0, x1)[i] == f);
    } else {
        lemma_rows_fragments_complete(a, b, c, col, y0 + 1, y1, x0, x1, x, y);
        let rest = rows_fragments(a, b, c, col, y0 + 1, y1, x0, x1);
        let i = choose|i: int| 0 <= i < rest.len() && rest[i] == f;
        assert(rows_fragments(a, b, c, col, y0, y1, x0, x1)[head.len() + i] == f);
    }
}

/// Completeness of the scan: every covered pixel of the bounding box gets
/// its fragment, with the flat color and the interpolated depth.
pub proof fn lemma_triangle_emits_covered_pixel(v1: Vertex, v2: Vertex, v3: Vertex, x: int, y: int)
    requires
        v1.transformed_valid,
        v2.transformed_valid,
        v3.transformed_valid,
        bbox_min_x(v1.transformed_position, v2.transformed_position, v3.transformed_position)
            <= x <= bbox_max_x(
            v1.transformed_position,
            v2.transformed_position,
            v3.transformed_position,
        ),
        bbox_min_y(v1.transformed_position, v2.transformed_position, v3.transformed_position)
            <= y <= bbox_max_y(
            v1.transformed_position,
            v2.transformed_position,
            v3.transformed_position,
        ),
        pixel_covered(
            v1.transformed_position,
            v2.transformed_position,
            v3.transformed_position,
            x,
            y,
        ),
    ensures
        triangle_fragments(v1, v2, v3).contains(
            pixel_fragment(
                v1.transformed_position,
                v2.transformed_position,
                v3.transformed_position,
                lit_color(v1.transformed_normal),
                x,
                y,
            ),
        ),
{
    let a = v1.transformed_position;
    let b = v2.transformed_position;
    let c = v3.transformed_position;
    lemma_rows_fragments_complete(
        a,
        b,
        c,
        lit_color(v1.transformed_normal),
        bbox_min_y(a, b, c),
        bbox_max_y(a, b, c) + 1,
        bbox_min_x(a, b, c),
        bbox_max_x(a, b, c) + 1,
        x,
        y,
    );
}

proof fn lemma_row_fragments_sound(
    a: Vec3,
    b: Vec3,
    c: Vec3,
    col: Color,
    y: int,
    x0: int,
    x1: int,
    i: int,
)
    requires
        0 <= i < row_fragments(a, b, c, col, y, x0, x1).len(),
    ensures
        exists|x: int|
            x0 <= x < x1 && pixel_covered(a, b, c, x, y) && row_fragments(
                a,
                b,
                c,
                col,
                y,
                x0,
                x1,
            )[i] == pixel_fragment(a, b, c, col, x, y),
    decreases x1 - x0,
{
    let rest = row_fragments(a, b, c, col, y, x0 + 1, x1);
    if pixel_covered(a, b, c, x0, y) {
        if i == 0 {
            assert(row_fragments(a, b, c, col, y, x0, x1)[0] == pixel_fragment(
                a,
                b,
                c,
                col,
                x0,
                y,
            ));
        } else {
            lemma_row_fragments_sound(a, b, c, col, y, x0 + 1, x1, i - 1);
        }
    } else {
        lemma_row_fragments_sound(a, b, c, col, y, x0 + 1, x1, i);
    }
}

proof fn lemma_rows_fragments_sound(
    a: Vec3,
    b: Vec3,
    c: Vec3,
    col: Color,
    y0: int,
    y1: int,
    x0: int,
    x1: int,
    i: int,
)
    requires
        0 <= i < rows_fragments(a, b, c, col, y0, y1, x0, x1).len(),
    ensures
        exists|x: int, y: int|
            x0 <= x < x1 && y0 <= y < y1 && pixel_covered(a, b, c, x, y) && rows_fragments(
                a,
                b,
                c,
                col,
                y0,
                y1,
                x0,
                x1,
            )[i] == pixel_fragment(a, b, c, col, x, y),
    decreases y1 - y0,
{
    let head = row_fragments(a, b, c, col, y0, x0, x1);
    if i < head.len() {
        lemma_row_fragments_sound(a, b, c, col, y0, x0, x1, i);
    } else {
        lemma_rows_fragments_sound(a, b, c, col, y0 + 1, y1, x0, x1, i - head.len());
    }
}

/// Soundness of the scan: everything the rasterizer emits is the fragment
/// of some covered pixel inside the bounding box.
pub proof fn lemma_triangle_emits_only_covered_pixels(v1: Vertex, v2: Vertex, v3: Vertex, i: int)
    requires
        0 <= i < triangle_fragments(v1, v2, v3).len(),
    ensures
        exists|x: int, y: int|
            bbox_min_x(v1.transformed_position, v2.transformed_position, v3.transformed_position)
                <= x <= bbox_max_x(
                v1.transformed_position,
                v2.transformed_position,
                v3.transformed_position,
            ) && bbox_min_y(
                v1.transformed_position,
                v2.transformed_position,
                v3.transformed_position,
            ) <= y <= bbox_max_y(
                v1.transformed_position,
                v2.transformed_position,
                v3.transformed_position,
            ) && pixel_covered(
                v1.transformed_position,
                v2.transformed_position,
                v3.transformed_position,
                x,
                y,
            ) && triangle_fragments(v1, v2, v3)[i] == pixel_fragment(
                v1.transformed_position,
                v2.transformed_position,
                v3.transformed_position,
                lit_color(v1.transformed_normal),
                x,
                y,
            ),
{
    let a = v1.transformed_position;
    let b = v2.transformed_position;
    let c = v3.transformed_position;
    lemma_rows_fragments_sound(
        a,
        b,
        c,
        lit_color(v1.transformed_normal),
        bbox_min_y(a, b, c),
        bbox_max_y(a, b, c) + 1,
        bbox_min_x(a, b, c),
        bbox_max_x(a, b, c) + 1,
        i,
    );
}

proof fn lemma_row_fragments_empty(
    a: Vec3,
    b: Vec3,
    c: Vec3,
    col: Color,
    y: int,
    x: int,
    x_end: int,
)
    requires
        bary_denom_bits(a, b, c) == 0,
    ensures
        row_fragments(a, b, c, col, y, x, x_end) == Seq::<Fragment>::empty(),
    decreases x_end - x,
{
    if x < x_end {
        assert(!pixel_covered(a, b, c, x, y));
        lemma_row_fragments_empty(a, b, c, col, y, x + 1, x_end);
    }
}

proof fn lemma_rows_fragments_empty(
    a: Vec3,
    b: Vec3,
    c: Vec3,
    col: Color,
    y: int,
    y_end: int,
    x0: int,
    x1: int,
)
    requires
        bary_denom_bits(a, b, c) == 0,
    ensures
        rows_fragments(a, b, c, col, y, y_end, x0, x1) == Seq::<Fragment>::empty(),
    decreases y_end - y,
{
    if y < y_end {
        lemma_row_fragments_empty(a, b, c, col, y, x0, x1);
        lemma_rows_fragments_empty(a, b, c, col, y + 1, y_end, x0, x1);
        assert(Seq::<Fragment>::empty() + Seq::<Fragment>::empty() =~= Seq::<
            Fragment,
        >::empty());
    }
}

/// A triangle of zero screen area — its three screen points collinear or
/// coincident, so the cross product of its edge vectors is zero — produces
/// an empty fragment list. Stated for screen coordinates away from the
/// saturation bound, where the edge vectors are exact.
pub proof fn lemma_zero_area_triangle_empty(v1: Vertex, v2: Vertex, v3: Vertex)
    requires
        -0x4000_0000_0000 <= v1.transformed_position.x.bits <= 0x4000_0000_0000,
        -0x4000_0000_0000 <= v1.transformed_position.y.bits <= 0x4000_0000_0000,
        -0x4000_0000_0000 <= v2.transformed_position.x.bits <= 0x4000_0000_0000,
        -0x4000_0000_0000 <= v2.transformed_position.y.bits <= 0x4000_0000_0000,
        -0x4000_0000_0000 <= v3.transformed_position.x.bits <= 0x4000_0000_0000,
        -0x4000_0000_0000 <= v3.transformed_position.y.bits <= 0x4000_0000_0000,
        (v2.transformed_position.x.bits - v1.transformed_position.x.bits) * (
        v3.transformed_position.y.bits - v1.transformed_position.y.bits) == (
        v2.transformed_position.y.bits - v1.transformed_position.y.bits) * (
        v3.transformed_position.x.bits - v1.transformed_position.x.bits),
    ensures
        triangle_fragments(v1, v2, v3) == Seq::<Fragment>::empty(),
{
    if v1.transformed_valid && v2.transformed_valid && v3.transformed_valid {
        let a = v1.transformed_position;
        let b = v2.transformed_position;
        let c = v3.transformed_position;
        assert(fx_sub_bits(b.x.bits as int, a.x.bits as int) == b.x.bits - a.x.bits);
        assert(fx_sub_bits(b.y.bits as int, a.y.bits as int) == b.y.bits - a.y.bits);
        assert(fx_sub_bits(c.x.bits as int, a.x.bits as int) == c.x.bits - a.x.bits);
        assert(fx_sub_bits(c.y.bits as int, a.y.bits as int) == c.y.bits - a.y.bits);
        assert(bary_denom_bits(a, b, c) == 0);
        lemma_rows_fragments_empty(
            a,
            b,
            c,
            lit_color(v1.transformed_normal),
            bbox_min_y(a, b, c),
            bbox_max_y(a, b, c) + 1,
            bbox_min_x(a, b, c),
            bbox_max_x(a, b, c) + 1,
        );
    }
}

/// Screen-space bounding box `(min_x, min_y, max_x, max_y)` of a triangle:
/// floors of the minima and ceilings of the maxima, saturated to `i32`.
pub fn calculate_bounding_box(v1: &Vec3, v2: &Vec3, v3: &Vec3) -> (bb: (i32, i32, i32, i32))
    ensures
        bb.0 as int == bbox_min_x(*v1, *v2, *v3),
        bb.1 as int == bbox_min_y(*v1, *v2, *v3),
        bb.2 as int == bbox_max_x(*v1, *v2, *v3),
        bb.3 as int == bbox_max_y(*v1, *v2, *v3),
{
    let min_x = v1.x.min(v2.x).min(v3.x).floor_px();
    let min_y = v1.y.min(v2.y).min(v3.y).floor_px();
    let max_x = v1.x.max(v2.x).max(v3.x).ceil_px();
    let max_y = v1.y.max(v2.y).max(v3.y).ceil_px();
    (min_x, min_y, max_x, max_y)
}

/// Barycentric weights `(of a, of b, of c)` of the point `p` against the
/// screen triangle `a b c`. A degenerate triangle yields the negative
/// sentinel weights, which no coverage test accepts.
pub fn barycentric_coordinates(p: &Vec3, a: &Vec3, b: &Vec3, c: &Vec3) -> (w: (Fx, Fx, Fx))
    ensures
        (w.0.bits as int, w.1.bits as int, w.2.bits as int) == bary_weights_bits(
            *a,
            *b,
            *c,
            p.x.bits as int,
            p.y.bits as int,
        ),
{
    let e1x = b.x.sub(a.x);
    let e1y = b.y.sub(a.y);
    let e2x = c.x.sub(a.x);
    let e2y = c.y.sub(a.y);
    let denom = e1x.mul(e2y).sub(e1y.mul(e2x));
    if denom.bits == 0 {
        let s = Fx::from_bits(-65536);
        (s, s, s)
    } else {
        let px = p.x.sub(a.x);
        let py = p.y.sub(a.y);
        let w2 = px.mul(e2y).sub(py.mul(e2x)).div(denom);
        let w3 = e1x.mul(py).sub(e1y.mul(px)).div(denom);
        let w1 = Fx::one().sub(w2).sub(w3);
        (w1, w2, w3)
    }
}

fn flat_lit_color(normal: &Vec3) -> (col: Color)
    ensures
        col == lit_color(*normal),
{
    proof {
        lemma_fx_square_nonneg(normal.x.bits as int);
        lemma_fx_square_nonneg(normal.y.bits as int);
        lemma_fx_square_nonneg(normal.z.bits as int);
    }
    let s = normal.x.mul(normal.x).add(normal.y.mul(normal.y)).add(normal.z.mul(normal.z));
    let arg: u64 = (s.bits as u64) * 65536;
    let nb = isqrt_u64(arg);
    let intensity = if nb == 0 {
        Fx::zero()
    } else {
        normal.z.neg().div(Fx::from_bits(nb as i64)).max(Fx::zero())
    };
    let base = Color::new(
        Fx::from_bits(BASE_GRAY_BITS),
        Fx::from_bits(BASE_GRAY_BITS),
        Fx::from_bits(BASE_GRAY_BITS),
    );
    base.scale(intensity)
}

proof fn lemma_fx_square_nonneg(a: int)
    ensures
        0 <= fx_mul_bits(a, a) <= 0x8000_0000_0000,
{
    assert(a * a >= 0) by (nonlinear_arith);
}

/// Rasterize one triangle into a fragment list: scan every pixel of the
/// screen bounding box, keep those the barycentric test covers, and give
/// each one the triangle's flat-shaded color and its interpolated depth.
#[verifier::loop_isolation(false)]
pub fn triangle(v1: &Vertex, v2: &Vertex, v3: &Vertex) -> (frags: Vec<Fragment>)
    ensures
        frags@ == triangle_fragments(*v1, *v2, *v3),
{
    let mut frags: Vec<Fragment> = Vec::new();
    if !(v1.transformed_valid && v2.transformed_valid && v3.transformed_valid) {
        return frags;
    }
    let a = v1.transformed_position;
    let b = v2.transformed_position;
    let c = v3.transformed_position;
    let (min_x, min_y, max_x, max_y) = calculate_bounding_box(&a, &b, &c);
    let col = flat_lit_color(&v1.transformed_normal);

    let ghost total = triangle_fragments(*v1, *v2, *v3);
    let y_end: i64 = max_y as i64 + 1;
    let x_end: i64 = max_x as i64 + 1;
    let mut y: i64 = min_y as i64;
    proof {
        assert(total == rows_fragments(a, b, c, col, y as int, y_end as int, min_x as int,
            x_end as int));
    }
    while y < y_end
        invariant
            min_y as int <= y <= if y_end >= min_y as int { y_end as int } else { min_y as int },
            total == frags@ + rows_fragments(a, b, c, col, y as int, y_end as int, min_x as int,
                x_end as int),
        decreases y_end - y,
    {
        let mut x: i64 = min_x as i64;
        proof {
            assert(rows_fragments(a, b, c, col, y as int, y_end as int, min_x as int, x_end as int)
                == row_fragments(a, b, c, col, y as int, x as int, x_end as int) + rows_fragments(
                a,
                b,
                c,
                col,
                y as int + 1,
                y_end as int,
                min_x as int,
                x_end as int,
            ));
            assert(total =~= frags@ + row_fragments(a, b, c, col, y as int, x as int, x_end as int)
                + rows_fragments(a, b, c, col, y as int + 1, y_end as int, min_x as int,
                x_end as int));
        }
        while x < x_end
            invariant
                min_x as int <= x <= if x_end >= min_x as int { x_end as int } else {
                    min_x as int
                },
                y < y_end,
                total == frags@ + row_fragments(a, b, c, col, y as int, x as int, x_end as int)
                    + rows_fragments(a, b, c, col, y as int + 1, y_end as int, min_x as int,
                    x_end as int),
            decreases x_end - x,
        {
            let px = Fx::from_int(x as i32);
            let py = Fx::from_int(y as i32);
            let p = Vec3::new(px, py, Fx::zero());
            let (w1, w2, w3) = barycentric_coordinates(&p, &a, &b, &c);
            let ghost frags_before = frags@;
            if w1.bits >= 0 && w2.bits >= 0 && w3.bits >= 0 {
                let depth = w1.mul(a.z).add(w2.mul(b.z)).add(w3.mul(c.z));
                frags.push(Fragment::new(x as i32, y as i32, col, depth));
                proof {
                    assert(pixel_covered(a, b, c, x as int, y as int));
                    assert(frags@ =~= frags_before + seq![
                        pixel_fragment(a, b, c, col, x as int, y as int),
                    ]);
                    assert(row_fragments(a, b, c, col, y as int, x as int, x_end as int) == seq![
                        pixel_fragment(a, b, c, col, x as int, y as int),
                    ] + row_fragments(a, b, c, col, y as int, x as int + 1, x_end as int));
                    assert(frags_before + (seq![pixel_fragment(a, b, c, col, x as int, y as int)]
                        + row_fragments(a, b, c, col, y as int, x as int + 1, x_end as int)) =~= (
                    frags_before + seq![pixel_fragment(a, b, c, col, x as int, y as int)])
                        + row_fragments(a, b, c, col, y as int, x as int + 1, x_end as int));
                }
            } else {
                proof {
                    assert(!pixel_covered(a, b, c, x as int, y as int));
                    assert(row_fragments(a, b, c, col, y as int, x as int, x_end as int)
                        == row_fragments(a, b, c, col, y as int, x as int + 1, x_end as int));
                }
            }
            x = x + 1;
        }
        proof {
            assert(row_fragments(a, b, c, col, y as int, x as int, x_end as int)
                == Seq::<Fragment>::empty());
            assert(frags@ + Seq::<Fragment>::empty() =~= frags@);
        }
        y = y + 1;
    }
    proof {
        assert(rows_fragments(a, b, c, col, y as int, y_end as int, min_x as int, x_end as int)
            == Seq::<Fragment>::empty());
        assert(frags@ + Seq::<Fragment>::empty() =~= frags@);
    }
    frags
}

} // verus!
