use rasterizer::fixed::Fx;
use rasterizer::vertex::{Vec2, Vec3, Vertex};
use rasterizer::raster::{barycentric_coordinates, calculate_bounding_box, triangle};

fn screen_vertex(x: i32, y: i32, z_num: i32, z_den: i32, normal: (i32, i32, i32)) -> Vertex {
    let pos = Vec3::new(Fx::from_int(x), Fx::from_int(y), Fx::from_ratio(z_num, z_den));
    let nrm = Vec3::new(
        Fx::from_int(normal.0),
        Fx::from_int(normal.1),
        Fx::from_int(normal.2),
    );
    let tex = Vec2::new(Fx::zero(), Fx::zero());
    // `Vertex::new` copies position and normal into the transformed fields,
    // so these vertices are already in screen space.
    Vertex::new(pos, nrm, tex)
}

fn has_pixel(frags: &[rasterizer::fragment::Fragment], x: i32, y: i32) -> bool {
    frags.iter().any(|f| f.x == x && f.y == y)
}

#[test]
fn right_triangle_covers_expected_pixels() {
    let v1 = screen_vertex(0, 0, 0, 1, (0, 0, -1));
    let v2 = screen_vertex(4, 0, 0, 1, (0, 0, -1));
    let v3 = screen_vertex(0, 4, 0, 1, (0, 0, -1));
    let frags = triangle(&v1, &v2, &v3);
    assert!(has_pixel(&frags, 0, 0));
    assert!(has_pixel(&frags, 2, 0));
    assert!(has_pixel(&frags, 0, 2));
    assert!(has_pixel(&frags, 1, 1));
    assert!(!has_pixel(&frags, 4, 4));
    assert!(!has_pixel(&frags, -1, -1));
}

#[test]
fn coverage_is_winding_independent() {
    let v1 = screen_vertex(0, 0, 0, 1, (0, 0, -1));
    let v2 = screen_vertex(4, 0, 0, 1, (0, 0, -1));
    let v3 = screen_vertex(0, 4, 0, 1, (0, 0, -1));
    let cw = triangle(&v1, &v2, &v3);
    let ccw = triangle(&v1, &v3, &v2);
    assert_eq!(cw.len(), ccw.len());
    for f in cw.iter() {
        assert!(has_pixel(&ccw, f.x, f.y));
    }
}

#[test]
fn collinear_triangle_emits_nothing() {
    let v1 = screen_vertex(0, 0, 0, 1, (0, 0, -1));
    let v2 = screen_vertex(2, 2, 0, 1, (0, 0, -1));
    let v3 = screen_vertex(4, 4, 0, 1, (0, 0, -1));
    assert!(triangle(&v1, &v2, &v3).is_empty());
}

#[test]
fn coincident_triangle_emits_nothing() {
    let v = screen_vertex(3, 3, 0, 1, (0, 0, -1));
    assert!(triangle(&v, &v, &v).is_empty());
}

#[test]
fn fully_lit_triangle_is_mid_gray() {
    let v1 = screen_vertex(0, 0, 0, 1, (0, 0, -1));
    let v2 = screen_vertex(4, 0, 0, 1, (0, 0, -1));
    let v3 = screen_vertex(0, 4, 0, 1, (0, 0, -1));
    let frags = triangle(&v1, &v2, &v3);
    assert!(!frags.is_empty());
    for f in frags.iter() {
        assert_eq!(f.color.to_hex(), 0x646464);
    }
}

#[test]
fn normal_facing_away_gives_black() {
    // The light points along -z, so a +z normal has negative dot product
    // and the intensity clamps to zero.
    let v1 = screen_vertex(0, 0, 0, 1, (0, 0, 1));
    let v2 = screen_vertex(4, 0, 0, 1, (0, 0, 1));
    let v3 = screen_vertex(0, 4, 0, 1, (0, 0, 1));
    let frags = triangle(&v1, &v2, &v3);
    assert!(!frags.is_empty());
    for f in frags.iter() {
        assert_eq!(f.color.to_hex(), 0x000000);
    }
}

#[test]
fn depth_interpolates_between_vertices() {
    // z goes from 0 at (0,0) to 1 at (4,0); halfway along the edge the
    // interpolated depth is exactly one half.
    let v1 = screen_vertex(0, 0, 0, 1, (0, 0, -1));
    let v2 = screen_vertex(4, 0, 1, 1, (0, 0, -1));
    let v3 = screen_vertex(0, 4, 0, 1, (0, 0, -1));
    let frags = triangle(&v1, &v2, &v3);
    let at = |x: i32, y: i32| {
        frags
            .iter()
            .find(|f| f.x == x && f.y == y)
            .expect("pixel missing")
            .depth
            .bits
    };
    assert_eq!(at(0, 0), 0);
    assert_eq!(at(4, 0), 65536);
    assert_eq!(at(2, 0), 32768);
}

#[test]
fn bounding_box_floors_minima_and_ceils_maxima() {
    let a = Vec3::new(Fx::from_ratio(1, 2), Fx::from_ratio(-5, 2), Fx::zero());
    let b = Vec3::new(Fx::from_int(4), Fx::from_int(1), Fx::zero());
    let c = Vec3::new(Fx::from_ratio(7, 2), Fx::from_ratio(3, 2), Fx::zero());
    let (min_x, min_y, max_x, max_y) = calculate_bounding_box(&a, &b, &c);
    assert_eq!(min_x, 0);
    assert_eq!(min_y, -3);
    assert_eq!(max_x, 4);
    assert_eq!(max_y, 2);
}

#[test]
fn barycentric_weights_at_vertices_and_center() {
    let a = Vec3::new(Fx::from_int(0), Fx::from_int(0), Fx::zero());
    let b = Vec3::new(Fx::from_int(4), Fx::from_int(0), Fx::zero());
    let c = Vec3::new(Fx::from_int(0), Fx::from_int(4), Fx::zero());
    let pa = Vec3::new(Fx::from_int(0), Fx::from_int(0), Fx::zero());
    let (w1, w2, w3) = barycentric_coordinates(&pa, &a, &b, &c);
    assert_eq!((w1.bits, w2.bits, w3.bits), (65536, 0, 0));
    let pb = Vec3::new(Fx::from_int(4), Fx::from_int(0), Fx::zero());
    let (w1, w2, w3) = barycentric_coordinates(&pb, &a, &b, &c);
    assert_eq!((w1.bits, w2.bits, w3.bits), (0, 65536, 0));
    let pm = Vec3::new(Fx::from_int(1), Fx::from_int(1), Fx::zero());
    let (w1, w2, w3) = barycentric_coordinates(&pm, &a, &b, &c);
    assert_eq!((w1.bits, w2.bits, w3.bits), (32768, 16384, 16384));
}

#[test]
fn degenerate_barycentric_weights_are_negative() {
    let a = Vec3::new(Fx::from_int(0), Fx::from_int(0), Fx::zero());
    let b = Vec3::new(Fx::from_int(2), Fx::from_int(2), Fx::zero());
    let c = Vec3::new(Fx::from_int(4), Fx::from_int(4), Fx::zero());
    let p = Vec3::new(Fx::from_int(1), Fx::from_int(1), Fx::zero());
    let (w1, w2, w3) = barycentric_coordinates(&p, &a, &b, &c);
    assert!(w1.bits < 0 && w2.bits < 0 && w3.bits < 0);
}

#[test]
fn invalid_transformed_vertex_discards_triangle() {
    let v1 = screen_vertex(0, 0, 0, 1, (0, 0, -1));
    let v2 = screen_vertex(4, 0, 0, 1, (0, 0, -1));
    let mut v3 = screen_vertex(0, 4, 0, 1, (0, 0, -1));
    v3.transformed_valid = false;
    assert!(triangle(&v1, &v2, &v3).is_empty());
}
