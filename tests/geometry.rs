use mesh::geometry::BarycentricSystem;
use mesh::geometry::Tri;
use mesh::geometry::Vert;
use mesh::geometry::Weights;
use mesh::math::Vec2i;
use mesh::math::Vec2u;
use mesh::math::Vec3i;
use mesh::render_utils::Color;

fn v(x: i32, y: i32, z: i32) -> Vec3i {
    Vec3i::cons(x, y, z)
}

#[test]
fn determinant_of_screen_vectors() {
    let a = Vec2i::cons(3, 4);
    let b = Vec2i::cons(-2, 5);
    assert_eq!(a.determinant(&b), 3 * 5 - 4 * -2);
    let big = Vec2i::cons(i32::MAX, i32::MIN);
    assert_eq!(big.determinant(&big), 0);
    let c = Vec3i::cons(1, 2, 9);
    let d = Vec3i::cons(3, 4, -9);
    assert_eq!(c.determinant_xy(&d), -2);
}

#[test]
fn vec2i_from_unsigned() {
    let u = Vec2u::cons(7, 11);
    let i = Vec2i::from_vec2u(u);
    assert_eq!((i.x, i.y), (7, 11));
    let s = Vec2i::cons(1, 2).add(Vec2i::cons(3, 4)).sub(Vec2i::cons(10, 10));
    assert_eq!((s.x, s.y), (-6, -4));
}

#[test]
fn clamp_xy_holds_screen_position() {
    let mut p = v(-5, 900, 42);
    p.clamp_xy(0, 640, 0, 480);
    assert_eq!((p.x, p.y, p.z), (0, 480, 42));
}

#[test]
fn normal_changes_sign_when_two_vertices_swap() {
    let (a, b, c) = (v(1, 2, 3), v(7, -4, 2), v(-3, 5, 11));
    let n = Tri::cons_pos(a, b, c).get_normal();
    for t in [Tri::cons_pos(b, a, c), Tri::cons_pos(a, c, b), Tri::cons_pos(c, b, a)] {
        let m = t.get_normal();
        assert_eq!((m.x, m.y, m.z), (-n.x, -n.y, -n.z));
    }
    assert_ne!((n.x, n.y, n.z), (0, 0, 0));
}

#[test]
fn normal_components() {
    let n = Tri::cons_pos(v(0, 0, 0), v(1, 0, 0), v(0, 1, 0)).get_normal();
    // (A - B) = (-1, 0, 0), (A - C) = (0, -1, 0)
    assert_eq!((n.x, n.y, n.z), (0, 0, 1));
    let m = Tri::cons_pos(v(0, 0, 0), v(1, 0, 0), v(0, 0, 1)).get_normal();
    // (A - B) = (-1, 0, 0), (A - C) = (0, 0, -1)
    assert_eq!((m.x, m.y, m.z), (0, -1, 0));
}

#[test]
fn sort_orders_by_descending_height() {
    let mut t = Tri::cons_pos(v(0, 1, 0), v(5, 9, 0), v(2, 4, 0));
    t.sort_verts_vertical();
    assert_eq!((t.a.pos.y, t.b.pos.y, t.c.pos.y), (9, 4, 1));
    assert_eq!(t.a.color, Color::cons(0, 255, 0));
    assert_eq!(t.c.color, Color::cons(255, 0, 0));
}

#[test]
fn sort_keeps_equal_heights_in_order() {
    let mut t = Tri::cons_pos(v(10, 10, 0), v(50, 10, 0), v(30, 50, 0));
    t.sort_verts_vertical();
    assert_eq!((t.a.pos.x, t.b.pos.x, t.c.pos.x), (30, 10, 50));
}

#[test]
fn lumped_tests_follow_winding() {
    let ccw = Tri::cons_pos(v(0, 0, 0), v(4, 0, 0), v(0, 4, 0));
    let cw = Tri::cons_pos(v(0, 0, 0), v(0, 4, 0), v(4, 0, 0));
    assert!(ccw.lumped_right() && !ccw.lumped_left());
    assert!(cw.lumped_left() && !cw.lumped_right());
    let flat = Tri::cons_pos(v(0, 0, 0), v(1, 1, 0), v(2, 2, 0));
    assert!(flat.lumped_left() && flat.lumped_right());
}

#[test]
fn behind_view_detects_near_vertices() {
    assert!(Tri::cons_pos(v(0, 0, 99), v(0, 0, 500), v(0, 0, 500)).behind_view());
    assert!(!Tri::cons_pos(v(0, 0, 100), v(0, 0, 500), v(0, 0, 500)).behind_view());
}

#[test]
fn barycentric_weights_inside_sum_to_one() {
    let t = Tri::cons_pos(v(0, 0, 1), v(10, 0, 1), v(0, 10, 1));
    let sys = BarycentricSystem::cons(&t).unwrap();
    let w = sys.get_coords(2, 3);
    assert_eq!(w.n1 + w.n2 + w.n3, w.den);
    for n in [w.n1, w.n2, w.n3] {
        assert!(0 < n && n < w.den);
    }
    assert_eq!((w.n1, w.n2, w.n3, w.den), (50, 20, 30, 100));
    // Clockwise order gives the same weights.
    let flipped = BarycentricSystem::cons(&Tri::cons_pos(v(0, 0, 1), v(0, 10, 1), v(10, 0, 1))).unwrap();
    let f = flipped.get_coords(2, 3);
    assert_eq!((f.n1, f.n2, f.n3, f.den), (50, 30, 20, 100));
}

#[test]
fn barycentric_weights_at_vertices() {
    let t = Tri::cons_pos(v(3, 1, 1), v(20, 4, 1), v(7, 15, 1));
    let sys = BarycentricSystem::cons(&t).unwrap();
    let w = sys.get_coords(3, 1);
    assert_eq!((w.n1, w.n2, w.n3), (w.den, 0, 0));
    let w = sys.get_coords(7, 15);
    assert_eq!((w.n1, w.n2, w.n3), (0, 0, w.den));
}

#[test]
fn barycentric_system_rejects_collinear_vertices() {
    let t = Tri::cons_pos(v(0, 0, 1), v(5, 5, 1), v(9, 9, 1));
    assert!(BarycentricSystem::cons(&t).is_none());
}

#[test]
fn nonlinear_depth_reproduces_vertex_depths() {
    let t = Tri::cons_pos(v(0, 0, 1500), v(10, 0, 2700), v(0, 10, 123_456));
    assert_eq!(t.interpolate_depth_nonlinear(Weights::cons(1, 0, 0, 1)), Some(1500));
    assert_eq!(t.interpolate_depth_nonlinear(Weights::cons(0, 1, 0, 1)), Some(2700));
    assert_eq!(t.interpolate_depth_nonlinear(Weights::cons(0, 0, 1, 1)), Some(123_456));
    assert_eq!(t.interpolate_depth_nonlinear(Weights::cons(7, 0, 0, 7)), Some(1500));
}

#[test]
fn nonlinear_depth_is_harmonic_mean() {
    let t = Tri::cons_pos(v(0, 0, 1000), v(10, 0, 3000), v(0, 10, 3000));
    // 1 / (0.5 / 1000 + 0.5 / 3000) = 1500
    assert_eq!(t.interpolate_depth_nonlinear(Weights::cons(1, 1, 0, 2)), Some(1500));
    // 1 / (1 / 3 * (1 / 1000 + 2 / 3000)) = 1800
    assert_eq!(t.interpolate_depth_nonlinear(Weights::cons(1, 1, 1, 3)), Some(1800));
    // The reciprocal sum is not positive.
    assert_eq!(t.interpolate_depth_nonlinear(Weights::cons(-1, 0, 0, 1)), None);
}

#[test]
fn linear_depth_and_texture_interpolation() {
    let mut t = Tri::cons_pos(v(0, 0, 1000), v(10, 0, 3000), v(0, 10, 3000));
    assert_eq!(t.interpolate_depth_linear(Weights::cons(1, 1, 0, 2)), 2000);
    assert_eq!(t.interpolate_depth_linear(Weights::cons(1, 1, 1, 3)), 2333);
    assert_eq!(t.interpolate_depth_linear(Weights::cons(-1, 0, 0, 3)), -334);
    t.b = Vert::cons(t.b.pos, t.b.color, Vec2i::cons(0x1_0000, 300));
    let w = Weights::cons(1, 1, 0, 2);
    // Perspective-correct: (0.5 * 1 / 3000) / (0.5 / 1000 + 0.5 / 3000) = 1 / 4
    assert_eq!(t.interpolate_tex_u(&w), Some(0x4000));
    assert_eq!(t.interpolate_tex_v(&w), Some(75));
    assert_eq!(t.interpolate_tex_u(&Weights::cons(-1, 0, 0, 1)), None);
}

#[test]
fn channel_vectors() {
    let t = Tri::cons_vert(
        Vert::cons(v(0, 0, 0), Color::cons(1, 2, 3), Vec2i::cons(0, 0)),
        Vert::cons(v(0, 0, 0), Color::cons(4, 5, 6), Vec2i::cons(0, 0)),
        Vert::cons(v(0, 0, 0), Color::cons(7, 8, 9), Vec2i::cons(0, 0)),
    );
    let r = t.get_red_ordered_vec();
    let g = t.get_green_ordered_vec();
    let b = t.get_blue_ordered_vec();
    assert_eq!((r.x, r.y, r.z), (1, 4, 7));
    assert_eq!((g.x, g.y, g.z), (2, 5, 8));
    assert_eq!((b.x, b.y, b.z), (3, 6, 9));
    let w = Weights::cons(1, 1, 1, 3);
    assert_eq!(w.inner_prod(&r), 4);
}
