use rasterizer::color::Color;
use rasterizer::fixed::Fx;
use rasterizer::fragment::Fragment;
use rasterizer::framebuffer::{composite, DepthBuffer, Framebuffer, DEPTH_FAR};
use rasterizer::pipeline::render;
use rasterizer::transform::{vertex_shader, Mat4, Uniforms};
use rasterizer::vertex::{Vec2, Vec3, Vertex};

fn flat_vertex(x: i32, y: i32, z_num: i32, z_den: i32, nz: i32) -> Vertex {
    Vertex::new(
        Vec3::new(Fx::from_int(x), Fx::from_int(y), Fx::from_ratio(z_num, z_den)),
        Vec3::new(Fx::zero(), Fx::zero(), Fx::from_int(nz)),
        Vec2::new(Fx::zero(), Fx::zero()),
    )
}

#[test]
fn framebuffer_new_and_clear() {
    let mut fb = Framebuffer::new(4, 3);
    assert_eq!(fb.width, 4);
    assert_eq!(fb.height, 3);
    assert_eq!(fb.buffer.len(), 12);
    assert!(fb.buffer.iter().all(|&p| p == 0));
    fb.clear(0xABCDEF);
    assert!(fb.buffer.iter().all(|&p| p == 0xABCDEF));
}

#[test]
fn set_current_color_writes_in_bounds_and_ignores_outside() {
    let mut fb = Framebuffer::new(4, 3);
    fb.set_current_color(2, 1, 0x123456);
    assert_eq!(fb.buffer[1 * 4 + 2], 0x123456);
    fb.set_current_color(4, 0, 0xFFFFFF);
    fb.set_current_color(0, 3, 0xFFFFFF);
    assert_eq!(fb.buffer.iter().filter(|&&p| p != 0).count(), 1);
}

#[test]
fn depth_buffer_starts_and_clears_to_far() {
    let mut db = DepthBuffer::new(4, 3);
    assert!(db.depth.iter().all(|&d| d == DEPTH_FAR));
    db.depth[0] = 7;
    db.clear();
    assert!(db.depth.iter().all(|&d| d == DEPTH_FAR));
}

#[test]
fn composite_writes_nearer_fragment() {
    let mut fb = Framebuffer::new(4, 4);
    let mut db = DepthBuffer::new(4, 4);
    let frag = Fragment::new(1, 2, Color::red(), Fx::from_ratio(1, 2));
    composite(&mut fb, &mut db, &frag);
    assert_eq!(fb.buffer[2 * 4 + 1], 0xFF0000);
    assert_eq!(db.depth[2 * 4 + 1], 32768);
}

#[test]
fn composite_keeps_nearer_depth() {
    let mut fb = Framebuffer::new(4, 4);
    let mut db = DepthBuffer::new(4, 4);
    composite(&mut fb, &mut db, &Fragment::new(1, 1, Color::red(), Fx::from_ratio(1, 4)));
    composite(&mut fb, &mut db, &Fragment::new(1, 1, Color::black(), Fx::from_ratio(3, 4)));
    assert_eq!(fb.buffer[1 * 4 + 1], 0xFF0000);
    assert_eq!(db.depth[1 * 4 + 1], 16384);
    composite(&mut fb, &mut db, &Fragment::new(1, 1, Color::black(), Fx::from_ratio(1, 8)));
    assert_eq!(fb.buffer[1 * 4 + 1], 0x000000);
    assert_eq!(db.depth[1 * 4 + 1], 8192);
}

#[test]
fn composite_tie_keeps_first_writer() {
    let mut fb = Framebuffer::new(4, 4);
    let mut db = DepthBuffer::new(4, 4);
    let depth = Fx::from_ratio(1, 2);
    composite(&mut fb, &mut db, &Fragment::new(2, 2, Color::red(), depth));
    composite(&mut fb, &mut db, &Fragment::new(2, 2, Color::black(), depth));
    assert_eq!(fb.buffer[2 * 4 + 2], 0xFF0000);
    assert_eq!(db.depth[2 * 4 + 2], 32768);
}

#[test]
fn composite_drops_out_of_bounds_fragments() {
    let mut fb = Framebuffer::new(4, 4);
    let mut db = DepthBuffer::new(4, 4);
    let before_colors = fb.buffer.clone();
    let before_depths = db.depth.clone();
    composite(&mut fb, &mut db, &Fragment::new(-1, 2, Color::red(), Fx::zero()));
    composite(&mut fb, &mut db, &Fragment::new(2, 7, Color::red(), Fx::zero()));
    composite(&mut fb, &mut db, &Fragment::new(4, 0, Color::red(), Fx::zero()));
    assert_eq!(fb.buffer, before_colors);
    assert_eq!(db.depth, before_depths);
}

#[test]
fn vertex_shader_applies_scale_and_translation() {
    let uniforms = Uniforms::new(
        Vec3::new(Fx::from_int(1), Fx::from_int(2), Fx::from_int(3)),
        Fx::from_int(2),
    );
    let v = flat_vertex(1, 1, 1, 1, -1);
    let out = vertex_shader(&v, &uniforms);
    assert_eq!(out.transformed_position.x.bits, 3 * 65536);
    assert_eq!(out.transformed_position.y.bits, 4 * 65536);
    assert_eq!(out.transformed_position.z.bits, 5 * 65536);
    assert!(out.transformed_valid);
    assert_eq!(out.position, v.position);
    assert_eq!(out.normal, v.normal);
}

#[test]
fn vertex_shader_divides_by_w() {
    let z = Fx::zero();
    let one = Fx::one();
    let m = Mat4 {
        m00: one, m01: z, m02: z, m03: z,
        m10: z, m11: one, m12: z, m13: z,
        m20: z, m21: z, m22: one, m23: z,
        m30: z, m31: z, m32: z, m33: Fx::from_int(2),
    };
    let uniforms = Uniforms { model_matrix: m };
    let out = vertex_shader(&flat_vertex(3, 5, 7, 1, -1), &uniforms);
    assert!(out.transformed_valid);
    assert_eq!(out.transformed_position.x.bits, 3 * 65536 / 2);
    assert_eq!(out.transformed_position.y.bits, 5 * 65536 / 2);
    assert_eq!(out.transformed_position.z.bits, 7 * 65536 / 2);
}

#[test]
fn zero_w_marks_vertex_degenerate_and_render_draws_nothing() {
    let z = Fx::zero();
    let one = Fx::one();
    let m = Mat4 {
        m00: one, m01: z, m02: z, m03: z,
        m10: z, m11: one, m12: z, m13: z,
        m20: z, m21: z, m22: one, m23: z,
        m30: z, m31: z, m32: z, m33: z,
    };
    let uniforms = Uniforms { model_matrix: m };
    let out = vertex_shader(&flat_vertex(1, 1, 0, 1, -1), &uniforms);
    assert!(!out.transformed_valid);

    let mut fb = Framebuffer::new(8, 8);
    let mut db = DepthBuffer::new(8, 8);
    let verts = vec![
        flat_vertex(1, 1, 0, 1, -1),
        flat_vertex(6, 1, 0, 1, -1),
        flat_vertex(1, 6, 0, 1, -1),
    ];
    render(&mut fb, &mut db, &uniforms, &verts);
    assert!(fb.buffer.iter().all(|&p| p == 0));
    assert!(db.depth.iter().all(|&d| d == DEPTH_FAR));
}

#[test]
fn render_end_to_end_mid_gray_triangle() {
    // A fully lit triangle (normal straight at the light) into a black
    // 10×10 frame: covered pixels become exactly 0x646464, the rest stay
    // at the clear color.
    let mut fb = Framebuffer::new(10, 10);
    let mut db = DepthBuffer::new(10, 10);
    fb.clear(Color::black().to_hex());
    db.clear();
    let uniforms = Uniforms::new(Vec3::new(Fx::zero(), Fx::zero(), Fx::zero()), Fx::one());
    let verts = vec![
        flat_vertex(1, 1, 0, 1, -1),
        flat_vertex(8, 1, 0, 1, -1),
        flat_vertex(1, 8, 0, 1, -1),
    ];
    render(&mut fb, &mut db, &uniforms, &verts);

    let at = |x: usize, y: usize| fb.buffer[y * 10 + x];
    assert_eq!(at(1, 1), 0x646464);
    assert_eq!(at(2, 2), 0x646464);
    assert_eq!(at(4, 4), 0x646464);
    assert_eq!(at(8, 1), 0x646464);
    assert_eq!(at(0, 0), 0x000000);
    assert_eq!(at(9, 9), 0x000000);
    assert_eq!(at(8, 8), 0x000000);
    assert!(fb.buffer.iter().all(|&p| p == 0x000000 || p == 0x646464));
    // The closed triangle x >= 1, y >= 1, x + y <= 9 holds exactly 36
    // lattice pixels.
    assert_eq!(fb.buffer.iter().filter(|&&p| p == 0x646464).count(), 36);
}

#[test]
fn nearer_triangle_wins_regardless_of_draw_order() {
    // The same screen triangle twice: once lit (near) and once facing away
    // from the light, so black (far). Whichever is drawn first, the near
    // gray triangle must own the covered pixels.
    let uniforms = Uniforms::new(Vec3::new(Fx::zero(), Fx::zero(), Fx::zero()), Fx::one());
    let near = vec![
        flat_vertex(1, 1, 1, 4, -1),
        flat_vertex(8, 1, 1, 4, -1),
        flat_vertex(1, 8, 1, 4, -1),
    ];
    let far = vec![
        flat_vertex(1, 1, 3, 4, 1),
        flat_vertex(8, 1, 3, 4, 1),
        flat_vertex(1, 8, 3, 4, 1),
    ];

    let mut near_first: Vec<Vertex> = near.clone();
    near_first.extend(far.iter().cloned());
    let mut fb1 = Framebuffer::new(10, 10);
    let mut db1 = DepthBuffer::new(10, 10);
    render(&mut fb1, &mut db1, &uniforms, &near_first);
    assert_eq!(fb1.buffer[2 * 10 + 2], 0x646464);
    // Interpolating the constant depth 1/4 through truncated barycentric
    // weights loses one low-order bit: 16383, not 16384.
    assert_eq!(db1.depth[2 * 10 + 2], 16383);

    let mut far_first: Vec<Vertex> = far.clone();
    far_first.extend(near.iter().cloned());
    let mut fb2 = Framebuffer::new(10, 10);
    let mut db2 = DepthBuffer::new(10, 10);
    render(&mut fb2, &mut db2, &uniforms, &far_first);
    assert_eq!(fb2.buffer[2 * 10 + 2], 0x646464);
    assert_eq!(db2.depth[2 * 10 + 2], 16383);

    // Drawn behind, the far triangle changed nothing anywhere.
    assert_eq!(fb1.buffer, fb2.buffer);
    assert_eq!(db1.depth, db2.depth);
}

#[test]
fn trailing_partial_triangle_group_is_skipped() {
    let uniforms = Uniforms::new(Vec3::new(Fx::zero(), Fx::zero(), Fx::zero()), Fx::one());
    let verts = vec![flat_vertex(1, 1, 0, 1, -1), flat_vertex(8, 1, 0, 1, -1)];
    let mut fb = Framebuffer::new(10, 10);
    let mut db = DepthBuffer::new(10, 10);
    render(&mut fb, &mut db, &uniforms, &verts);
    assert!(fb.buffer.iter().all(|&p| p == 0));
}
