//! The color buffer, the depth buffer, and the nearest-wins compositor.
//!
//! Both buffers are row-major grids with the origin at the top left. A
//! fragment lands only if its pixel is on the grid and its depth is strictly
//! nearer than what the depth buffer holds there: ties keep the first
//! writer, and out-of-bounds fragments are dropped without error.

use vstd::prelude::*;

verus! {

use crate::color::{Color, packed_rgb};
use crate::fragment::Fragment;

/// Depth value meaning "nothing drawn yet": farther than every
/// representable fragment depth.
pub const DEPTH_FAR: i64 = i64::MAX;

/// The index of a fragment's pixel in a row-major grid of width `w`.
pub open spec fn frag_index(w: int, f: Fragment) -> int {
    f.y * w + f.x
}

pub open spec fn frag_in_bounds(w: int, h: int, f: Fragment) -> bool {
    0 <= f.x < w && 0 <= f.y < h
}

/// The compositing rule for one fragment: on the grid and strictly nearer
/// than the stored depth, it overwrites color and depth at its pixel;
/// otherwise it changes nothing.
pub open spec fn composite_step(
    colors: Seq<u32>,
    depths: Seq<i64>,
    w: int,
    h: int,
    f: Fragment,
) -> (Seq<u32>, Seq<i64>) {
    if frag_in_bounds(w, h, f) && f.depth.bits < depths[frag_index(w, f)] {
        (
            colors.update(frag_index(w, f), packed_rgb(f.color) as u32),
            depths.update(frag_index(w, f), f.depth.bits),
        )
    } else {
        (colors, depths)
    }
}

/// The compositing rule folded over a fragment list, first to last.
pub open spec fn composite_seq(
    colors: Seq<u32>,
    depths: Seq<i64>,
    w: int,
    h: int,
    frags: Seq<Fragment>,
) -> (Seq<u32>, Seq<i64>)
    decreases frags.len(),
{
    if frags.len() == 0 {
        (colors, depths)
    } else {
        let s = composite_step(colors, depths, w, h, frags[0]);
        composite_seq(s.0, s.1, w, h, frags.drop_first())
    }
}

/// A pixel of a grid of width `w`, height `h` has an index inside the grid.
pub proof fn lemma_pixel_index_in_range(w: int, h: int, x: int, y: int) by (nonlinear_arith)
    requires
        0 <= x < w,
        0 <= y < h,
    ensures
        0 <= y * w + x < w * h,
{
}

/// Distinct pixels of one grid have distinct row-major indices.
pub proof fn lemma_pixel_index_injective(w: int, x1: int, y1: int, x2: int, y2: int) by (nonlinear_arith)
    requires
        0 <= x1 < w,
        0 <= x2 < w,
        x1 != x2 || y1 != y2,
    ensures
        y1 * w + x1 != y2 * w + x2,
{
}

/// A fragment at the same depth as the stored one changes nothing: the
/// first writer wins a tie.
pub proof fn lemma_composite_tie_keeps_first(
    colors: Seq<u32>,
    depths: Seq<i64>,
    w: int,
    h: int,
    f: Fragment,
)
    requires
        frag_in_bounds(w, h, f),
        f.depth.bits == depths[frag_index(w, f)],
    ensures
        composite_step(colors, depths, w, h, f) == (colors, depths),
{
}

/// A fragment off the grid changes nothing.
pub proof fn lemma_composite_out_of_bounds(
    colors: Seq<u32>,
    depths: Seq<i64>,
    w: int,
    h: int,
    f: Fragment,
)
    requires
        !frag_in_bounds(w, h, f),
    ensures
        composite_step(colors, depths, w, h, f) == (colors, depths),
{
}

/// Fragments that are nowhere nearer than the stored depth — a shape
/// entirely behind what is already drawn — leave both buffers unchanged.
pub proof fn lemma_composite_seq_behind(
    colors: Seq<u32>,
    depths: Seq<i64>,
    w: int,
    h: int,
    frags: Seq<Fragment>,
)
    requires
        forall|i: int|
            0 <= i < frags.len() && frag_in_bounds(w, h, #[trigger] frags[i])
                ==> frags[i].depth.bits >= depths[frag_index(w, frags[i])],
    ensures
        composite_seq(colors, depths, w, h, frags) == (colors, depths),
    decreases frags.len(),
{
    if frags.len() > 0 {
        assert(composite_step(colors, depths, w, h, frags[0]) == (colors, depths));
        let rest = frags.drop_first();
        assert forall|i: int|
            0 <= i < rest.len() && frag_in_bounds(w, h, #[trigger] rest[i])
                implies rest[i].depth.bits >= depths[frag_index(w, rest[i])] by {
            assert(rest[i] == frags[i + 1]);
        }
        lemma_composite_seq_behind(colors, depths, w, h, rest);
    }
}

/// Fragments that are everywhere strictly nearer than the stored depth — a
/// shape entirely in front, one fragment per pixel — overwrite color and
/// depth at each of their pixels, and touch no other pixel.
pub proof fn lemma_composite_seq_front(
    colors: Seq<u32>,
    depths: Seq<i64>,
    w: int,
    h: int,
    frags: Seq<Fragment>,
)
    requires
        colors.len() == w * h,
        depths.len() == w * h,
        forall|i: int| 0 <= i < frags.len() ==> frag_in_bounds(w, h, #[trigger] frags[i]),
        forall|i: int|
            0 <= i < frags.len()
                ==> (#[trigger] frags[i]).depth.bits < depths[frag_index(w, frags[i])],
        forall|i: int, j: int|
            0 <= i < j < frags.len()
                ==> ((#[trigger] frags[i]).x != (#[trigger] frags[j]).x || frags[i].y
                != frags[j].y),
    ensures
        composite_seq(colors, depths, w, h, frags).0.len() == w * h,
        composite_seq(colors, depths, w, h, frags).1.len() == w * h,
        forall|i: int|
            0 <= i < frags.len()
                ==> composite_seq(colors, depths, w, h, frags).0[frag_index(
                w,
                #[trigger] frags[i],
            )] == packed_rgb(frags[i].color) as u32,
        forall|i: int|
            0 <= i < frags.len()
                ==> composite_seq(colors, depths, w, h, frags).1[frag_index(
                w,
                #[trigger] frags[i],
            )] == frags[i].depth.bits,
        forall|p: int|
            0 <= p < w * h && (forall|i: int|
                0 <= i < frags.len() ==> frag_index(w, #[trigger] frags[i]) != p)
                ==> composite_seq(colors, depths, w, h, frags).0[p] == colors[p]
                && composite_seq(colors, depths, w, h, frags).1[p] == depths[p],
    decreases frags.len(),
{
    if frags.len() > 0 {
        let f = frags[0];
        lemma_pixel_index_in_range(w, h, f.x as int, f.y as int);
        let fi = frag_index(w, f);
        let c1 = colors.update(fi, packed_rgb(f.color) as u32);
        let d1 = depths.update(fi, f.depth.bits);
        assert(composite_step(colors, depths, w, h, f) == (c1, d1));
        let rest = frags.drop_first();
        assert forall|i: int| 0 <= i < rest.len() implies frag_in_bounds(w, h, #[trigger] rest[i])
            && rest[i].depth.bits < d1[frag_index(w, rest[i])] && frag_index(w, rest[i]) != fi by {
            assert(rest[i] == frags[i + 1]);
            lemma_pixel_index_in_range(w, h, frags[i + 1].x as int, frags[i + 1].y as int);
            lemma_pixel_index_injective(
                w,
                f.x as int,
                f.y as int,
                frags[i + 1].x as int,
                frags[i + 1].y as int,
            );
        }
        assert forall|i: int, j: int| 0 <= i < j < rest.len() implies ((#[trigger] rest[i]).x
            != (#[trigger] rest[j]).x || rest[i].y != rest[j].y) by {
            assert(rest[i] == frags[i + 1]);
            assert(rest[j] == frags[j + 1]);
        }
        lemma_composite_seq_front(c1, d1, w, h, rest);
        let out = composite_seq(c1, d1, w, h, rest);
        assert(composite_seq(colors, depths, w, h, frags) == out);
        // The head fragment's pixel is touched by no later fragment, so the
        // value written for it survives the rest of the fold.
        assert(out.0[fi] == c1[fi] && out.1[fi] == d1[fi]);
        assert forall|i: int| 0 <= i < frags.len() implies composite_seq(
            colors,
            depths,
            w,
            h,
            frags,
        ).0[frag_index(w, #[trigger] frags[i])] == packed_rgb(frags[i].color) as u32
            && composite_seq(colors, depths, w, h, frags).1[frag_index(w, frags[i])]
            == frags[i].depth.bits by {
            if i > 0 {
                assert(frags[i] == rest[i - 1]);
            }
        }
        assert forall|p: int|
            0 <= p < w * h && (forall|i: int|
                0 <= i < frags.len() ==> frag_index(w, #[trigger] frags[i]) != p)
            implies composite_seq(colors, depths, w, h, frags).0[p] == colors[p]
            && composite_seq(colors, depths, w, h, frags).1[p] == depths[p] by {
            assert(frag_index(w, frags[0]) != p);
            assert(c1[p] == colors[p]);
            assert(d1[p] == depths[p]);
            assert forall|i: int| 0 <= i < rest.len() implies frag_index(
                w,
                #[trigger] rest[i],
            ) != p by {
                assert(rest[i] == frags[i + 1]);
            }
            assert(out.0[p] == c1[p] && out.1[p] == d1[p]);
        }
    }
}

/// The width × height grid of packed colors.
#[derive(Debug)]
pub struct Framebuffer {
    pub width: usize,
    pub height: usize,
    pub buffer: Vec<u32>,
}

impl Framebuffer {
    pub open spec fn wf(self) -> bool {
        self.buffer@.len() == self.width * self.height
            && self.width * self.height <= usize::MAX
    }

    /// A buffer of the given size, all pixels zero (black).
    pub fn new(width: usize, height: usize) -> (fb: Framebuffer)
        requires
            width * height <= usize::MAX,
        ensures
            fb.wf(),
            fb.width == width,
            fb.height == height,
            forall|i: int| 0 <= i < fb.buffer@.len() ==> fb.buffer@[i] == 0u32,
    {
        let n: usize = width * height;
        let mut buffer: Vec<u32> = Vec::new();
        let mut i: usize = 0;
        while i < n
            invariant
                i <= n,
                buffer@.len() == i,
                forall|j: int| 0 <= j < i ==> buffer@[j] == 0u32,
            decreases n - i,
        {
            buffer.push(0);
            i = i + 1;
        }
        Framebuffer { width, height, buffer }
    }

    /// Write one pixel, ignoring coordinates off the grid.
    pub fn set_current_color(&mut self, x: usize, y: usize, color: u32)
        requires
            old(self).wf(),
        ensures
            final(self).wf(),
            final(self).width == old(self).width,
            final(self).height == old(self).height,
            final(self).buffer@ == if x < old(self).width && y < old(self).height {
                old(self).buffer@.update(y * old(self).width + x, color)
            } else {
                old(self).buffer@
            },
    {
        if x < self.width && y < self.height {
            proof {
                lemma_pixel_index_in_range(self.width as int, self.height as int, x as int, y as int);
            }
            let idx: usize = y * self.width + x;
            self.buffer[idx] = color;
            proof {
                assert(self.buffer@ =~= old(self).buffer@.update(
                    y * old(self).width + x,
                    color,
                ));
            }
        }
    }

    /// Fill every pixel with one color (the frame clear).
    pub fn clear(&mut self, color: u32)
        ensures
            final(self).width == old(self).width,
            final(self).height == old(self).height,
            final(self).buffer@.len() == old(self).buffer@.len(),
            forall|i: int| 0 <= i < final(self).buffer@.len() ==> final(self).buffer@[i] == color,
    {
        let n = self.buffer.len();
        let mut i: usize = 0;
        while i < n
            invariant
                i <= n,
                self.buffer@.len() == n,
                self.width == old(self).width,
                self.height == old(self).height,
                forall|j: int| 0 <= j < i ==> self.buffer@[j] == color,
            decreases n - i,
        {
            self.buffer[i] = color;
            i = i + 1;
        }
    }
}

/// The width × height grid of nearest depths, parallel to a `Framebuffer`.
#[derive(Debug)]
pub struct DepthBuffer {
    pub width: usize,
    pub height: usize,
    pub depth: Vec<i64>,
}

impl DepthBuffer {
    pub open spec fn wf(self) -> bool {
        self.depth@.len() == self.width * self.height
            && self.width * self.height <= usize::MAX
    }

    /// A depth grid of the given size with every cell at `DEPTH_FAR`.
    pub fn new(width: usize, height: usize) -> (db: DepthBuffer)
        requires
            width * height <= usize::MAX,
        ensures
            db.wf(),
            db.width == width,
            db.height == height,
            forall|i: int| 0 <= i < db.depth@.len() ==> db.depth@[i] == DEPTH_FAR,
    {
        let n: usize = width * height;
        let mut depth: Vec<i64> = Vec::new();
        let mut i: usize = 0;
        while i < n
            invariant
                i <= n,
                depth@.len() == i,
                forall|j: int| 0 <= j < i ==> depth@[j] == DEPTH_FAR,
            decreases n - i,
        {
            depth.push(DEPTH_FAR);
            i = i + 1;
        }
        DepthBuffer { width, height, depth }
    }

    /// Reset every cell to `DEPTH_FAR` (the start of a frame).
    pub fn clear(&mut self)
        ensures
            final(self).width == old(self).width,
            final(self).height == old(self).height,
            final(self).depth@.len() == old(self).depth@.len(),
            forall|i: int| 0 <= i < final(self).depth@.len() ==> final(self).depth@[i] == DEPTH_FAR,
    {
        let n = self.depth.len();
        let mut i: usize = 0;
        while i < n
            invariant
                i <= n,
                self.depth@.len() == n,
                self.width == old(self).width,
                self.height == old(self).height,
                forall|j: int| 0 <= j < i ==> self.depth@[j] == DEPTH_FAR,
            decreases n - i,
        {
            self.depth[i] = DEPTH_FAR;
            i = i + 1;
        }
    }
}

/// Apply one fragment to the two buffers under the nearest-wins rule.
pub fn composite(fb: &mut Framebuffer, db: &mut DepthBuffer, frag: &Fragment)
    requires
        old(fb).wf(),
        old(db).wf(),
        old(fb).width == old(db).width,
        old(fb).height == old(db).height,
    ensures
        final(fb).wf(),
        final(db).wf(),
        final(fb).width == old(fb).width,
        final(fb).height == old(fb).height,
        final(db).width == old(db).width,
        final(db).height == old(db).height,
        final(fb).buffer@ == composite_step(
            old(fb).buffer@,
            old(db).depth@,
            old(fb).width as int,
            old(fb).height as int,
            *frag,
        ).0,
        final(db).depth@ == composite_step(
            old(fb).buffer@,
            old(db).depth@,
            old(fb).width as int,
            old(fb).height as int,
            *frag,
        ).1,
{
    if frag.x >= 0 && frag.y >= 0 && (frag.x as usize) < fb.width && (frag.y as usize) < fb.height {
        proof {
            lemma_pixel_index_in_range(
                fb.width as int,
                fb.height as int,
                frag.x as int,
                frag.y as int,
            );
        }
        let idx: usize = (frag.y as usize) * fb.width + (frag.x as usize);
        if frag.depth.bits < db.depth[idx] {
            db.depth[idx] = frag.depth.bits;
            let packed = frag.color.to_hex();
            fb.buffer[idx] = packed;
            proof {
                assert(fb.buffer@ =~= composite_step(
                    old(fb).buffer@,
                    old(db).depth@,
                    old(fb).width as int,
                    old(fb).height as int,
                    *frag,
                ).0);
                assert(db.depth@ =~= composite_step(
                    old(fb).buffer@,
                    old(db).depth@,
                    old(fb).width as int,
                    old(fb).height as int,
                    *frag,
                ).1);
            }
        }
    }
}

} // verus!
