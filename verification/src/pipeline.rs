//! The whole pipeline: transform every vertex, rasterize each consecutive
//! triple as a triangle, and composite every fragment under the depth rule,
//! strictly in input order. A trailing group of one or two vertices is
//! skipped silently.

use vstd::prelude::*;

verus! {

use crate::vertex::Vertex;
use crate::fragment::Fragment;
use crate::transform::{Uniforms, shaded_vertex, vertex_shader};
use crate::raster::{triangle, triangle_fragments};
use crate::framebuffer::{Framebuffer, DepthBuffer, composite, composite_seq};

/// The buffers after rendering the triangles of `verts` from index `t` on
/// (three vertices each, leftovers dropped) into the given state.
pub open spec fn pipeline_outputs(
    colors: Seq<u32>,
    depths: Seq<i64>,
    w: int,
    h: int,
    verts: Seq<Vertex>,
    u: Uniforms,
    t: int,
) -> (Seq<u32>, Seq<i64>)
    decreases verts.len() - t,
{
    if t < 0 || t + 3 > verts.len() {
        (colors, depths)
    } else {
        let frags = triangle_fragments(
            shaded_vertex(verts[t], u),
            shaded_vertex(verts[t + 1], u),
            shaded_vertex(verts[t + 2], u),
        );
        let s = composite_seq(colors, depths, w, h, frags);
        pipeline_outputs(s.0, s.1, w, h, verts, u, t + 3)
    }
}

/// Render a vertex array: transform each vertex, rasterize each triple,
/// composite each fragment, all in order.
#[verifier::loop_isolation(false)]
pub fn render(
    fb: &mut Framebuffer,
    db: &mut DepthBuffer,
    uniforms: &Uniforms,
    vertex_array: &Vec<Vertex>,
)
    requires
        old(fb).wf(),
        old(db).wf(),
        old(fb).width == old(db).width,
        old(fb).height == old(db).height,
    ensures
        final(fb).wf(),
        final(db).wf(),
        final(fb).width == old(fb).width,
        final(fb).height == old(fb).height,
        final(db).width == old(db).width,
        final(db).height == old(db).height,
        final(fb).buffer@ == pipeline_outputs(
            old(fb).buffer@,
            old(db).depth@,
            old(fb).width as int,
            old(fb).height as int,
            vertex_array@,
            *uniforms,
            0,
        ).0,
        final(db).depth@ == pipeline_outputs(
            old(fb).buffer@,
            old(db).depth@,
            old(fb).width as int,
            old(fb).height as int,
            vertex_array@,
            *uniforms,
            0,
        ).1,
{
    let ghost w = old(fb).width as int;
    let ghost h = old(fb).height as int;
    let ghost goal = pipeline_outputs(
        old(fb).buffer@,
        old(db).depth@,
        w,
        h,
        vertex_array@,
        *uniforms,
        0,
    );

    // Vertex shader stage.
    let mut transformed: Vec<Vertex> = Vec::new();
    let mut i: usize = 0;
    while i < vertex_array.len()
        invariant
            i <= vertex_array@.len(),
            transformed@.len() == i,
            forall|j: int|
                0 <= j < i ==> transformed@[j] == shaded_vertex(vertex_array@[j], *uniforms),
        decreases vertex_array@.len() - i,
    {
        transformed.push(vertex_shader(&vertex_array[i], uniforms));
        i = i + 1;
    }

    // Primitive assembly, rasterization and compositing.
    let n: usize = transformed.len();
    let mut t: usize = 0;
    while n - t >= 3
        invariant
            n == transformed@.len(),
            t <= transformed@.len(),
            fb.wf(),
            db.wf(),
            fb.width == old(fb).width,
            fb.height == old(fb).height,
            db.width == old(db).width,
            db.height == old(db).height,
            pipeline_outputs(fb.buffer@, db.depth@, w, h, vertex_array@, *uniforms, t as int)
                == goal,
        decreases transformed@.len() - t,
    {
        let frags = triangle(&transformed[t], &transformed[t + 1], &transformed[t + 2]);
        let ghost colors_entry = fb.buffer@;
        let ghost depths_entry = db.depth@;
        proof {
            assert(frags@.skip(0) =~= frags@);
        }
        let mut k: usize = 0;
        while k < frags.len()
            invariant
                k <= frags@.len(),
                fb.wf(),
                db.wf(),
                fb.width == old(fb).width,
                fb.height == old(fb).height,
                db.width == old(db).width,
                db.height == old(db).height,
                composite_seq(fb.buffer@, db.depth@, w, h, frags@.skip(k as int)) == composite_seq(
                    colors_entry,
                    depths_entry,
                    w,
                    h,
                    frags@,
                ),
            decreases frags@.len() - k,
        {
            proof {
                assert(frags@.skip(k as int)[0] == frags@[k as int]);
                assert(frags@.skip(k as int).drop_first() =~= frags@.skip(k as int + 1));
            }
            composite(fb, db, &frags[k]);
            k = k + 1;
        }
        proof {
            assert(frags@.skip(frags@.len() as int) =~= Seq::<Fragment>::empty());
            assert((fb.buffer@, db.depth@) == composite_seq(colors_entry, depths_entry, w, h,
                frags@));
        }
        t = t + 3;
    }
}

} // verus!
