use mesh::geometry::Tri;
use mesh::geometry::Vert;
use mesh::math::Vec2i;
use mesh::math::Vec3i;
use mesh::render_utils::lighting_level;
use mesh::render_utils::light_intensity;
use mesh::render_utils::lighting_for_normal;
use mesh::render_utils::Buffer;
use mesh::render_utils::Color;
use mesh::render_utils::BACKGROUND;
use mesh::render_utils::DEPTH_FAR;
use mesh::renderer::draw_line_screen;
use mesh::renderer::render_triangle;
use mesh::renderer::render_wireframe_triangle;
use mesh::renderer::EdgeTracer;
use mesh::texture::Texture;

fn v(x: i32, y: i32, z: i32) -> Vec3i {
    Vec3i::cons(x, y, z)
}

fn red_vert(x: i32, y: i32, z: i32) -> Vert {
    Vert::cons(v(x, y, z), Color::cons(255, 0, 0), Vec2i::cons(0, 0))
}

#[test]
fn color_packing_round_trip() {
    let c = Color::cons(0x12, 0x34, 0x56);
    assert_eq!(c.to_u32(), 0x0012_3456);
    assert_eq!(Color::from_u32(0xff12_3456), c);
    assert_eq!(Color::from_u32(BACKGROUND), Color::cons(0xbb, 0xbb, 0xbb));
    let w = Color::default().as_vec3i();
    assert_eq!((w.x, w.y, w.z), (255, 255, 255));
}

#[test]
fn attenuate_scales_channels() {
    let mut c = Color::cons(200, 100, 7);
    c.attenuate(500);
    assert_eq!(c, Color::cons(100, 50, 3));
    let mut bright = Color::cons(200, 100, 7);
    bright.attenuate(2000);
    assert_eq!(bright, Color::cons(255, 200, 14));
}

#[test]
fn lighting_level_has_ambient_floor() {
    assert_eq!(lighting_level(1000), 1000);
    assert_eq!(lighting_level(640), 640);
    assert_eq!(lighting_level(150), 150);
    assert_eq!(lighting_level(149), 150);
    assert_eq!(lighting_level(-1000), 150);
}

#[test]
fn surface_facing_light_is_fully_lit() {
    assert_eq!(light_intensity(v(-3, 1, -4)), 1000);
    assert_eq!(light_intensity(v(-300, 100, -400)), 1000);
    assert_eq!(lighting_for_normal(v(-3 * 65536, 65536, -4 * 65536)), 1000);
}

#[test]
fn surface_facing_away_gets_ambient_floor() {
    assert_eq!(light_intensity(v(3, -1, 4)), 0);
    assert_eq!(lighting_for_normal(v(3, -1, 4)), 150);
    assert_eq!(lighting_for_normal(v(0, 0, 0)), 150);
    assert_eq!(lighting_for_normal(v(1, 0, 0)), 150);
}

#[test]
fn oblique_surface_lit_by_cosine() {
    // cos = 1 / sqrt(26)
    assert_eq!(light_intensity(v(0, 1, 0)), 196);
    assert_eq!(lighting_for_normal(v(0, 1, 0)), 196);
    // cos = 4 / sqrt(26)
    assert_eq!(light_intensity(v(0, 0, -7)), 784);
    assert_eq!(light_intensity(v(1, 1, -1)), 226);
    assert_eq!(light_intensity(v(-1, 1, -1)), 905);
    assert_eq!(light_intensity(v(-1, 1, -2)), 960);
    assert_eq!(lighting_for_normal(v(-1, 0, 0)), 588);
}

#[test]
fn buffer_starts_cleared() {
    let b = Buffer::cons(3, 4);
    assert_eq!(b.get_pixels().len(), 12);
    assert!(b.get_pixels().iter().all(|p| *p == BACKGROUND));
    assert_eq!(b.get_depth(3, 2), DEPTH_FAR);
    assert_eq!((b.get_width(), b.get_height()), (4, 3));
    assert!(b.inbounds(3, 2) && !b.inbounds(4, 0) && !b.inbounds(0, 3));
}

#[test]
fn buffer_rows_are_stored_bottom_last() {
    let mut b = Buffer::cons(2, 3);
    b.set(1, 0, Color::cons(0, 0, 9), 5);
    assert_eq!(b.get_pixels()[3 + 1], 9);
    assert_eq!(b.get_pixel(1, 0), 9);
}

#[test]
fn depth_test_keeps_nearer_and_later_ties() {
    let first = Color::cons(10, 20, 30);
    let second = Color::cons(40, 50, 60);
    let mut b = Buffer::cons(4, 4);
    b.set(1, 2, first, 5);
    b.set(1, 2, second, 10);
    assert_eq!(b.get_pixel(1, 2), first.to_u32());
    assert_eq!(b.get_depth(1, 2), 5);
    b.set(1, 2, second, 5);
    assert_eq!(b.get_pixel(1, 2), second.to_u32());
    b.set(1, 2, first, 4);
    assert_eq!(b.get_pixel(1, 2), first.to_u32());
    assert_eq!(b.get_depth(1, 2), 4);
}

#[test]
fn empty_buffer_has_no_pixels() {
    let mut b = Buffer::cons(0, 0);
    b.clear();
    assert!(b.get_pixels().is_empty());
    assert!(!b.inbounds(0, 0));
    let tri = Tri::cons_vert(red_vert(0, 0, 500), red_vert(5, 0, 500), red_vert(0, 5, 500));
    render_triangle(&mut b, &tri, 1000, None);
    assert!(b.get_pixels().is_empty());
}

#[test]
fn clear_resets_both_planes() {
    let mut b = Buffer::cons(2, 2);
    b.set(0, 0, Color::cons(1, 1, 1), 3);
    b.clear();
    assert_eq!(b.get_pixel(0, 0), BACKGROUND);
    assert_eq!(b.get_depth(0, 0), DEPTH_FAR);
}

#[test]
fn vertical_edge_steps_one_row_without_drift() {
    let mut e = EdgeTracer::cons(v(0, 0, 0), v(0, 5, 0));
    let p = e.step_constant().unwrap();
    assert_eq!((p.x, p.y), (0, 1));
}

#[test]
fn edge_tracer_walks_to_target_and_stops() {
    let mut e = EdgeTracer::cons(v(0, 0, 0), v(3, 1, 0));
    let mut points = Vec::new();
    while let Some(p) = e.step_once() {
        points.push((p.x, p.y));
    }
    assert_eq!(points, vec![(1, 0), (2, 0), (3, 0), (3, 1)]);
    assert_eq!(e.step_once().map(|p| (p.x, p.y)), None);
    let c = e.current();
    assert_eq!((c.x, c.y), (3, 1));
}

#[test]
fn step_constant_ends_on_last_row() {
    let mut e = EdgeTracer::cons(v(0, 0, 0), v(4, -2, 0));
    let p = e.step_constant().unwrap();
    assert_eq!(p.y, -1);
    let q = e.step_constant().unwrap();
    assert_eq!(q.y, -2);
    assert!(e.step_constant().is_none());
    let c = e.current();
    assert_eq!((c.x, c.y), (4, -2));
}

#[test]
fn single_triangle_fills_its_interior() {
    let mut b = Buffer::cons(64, 64);
    let tri = Tri::cons_vert(red_vert(10, 10, 2000), red_vert(50, 10, 2000), red_vert(30, 50, 2000));
    render_triangle(&mut b, &tri, 1000, None);
    assert_eq!(b.get_pixel(30, 23), 0x00ff_0000);
    assert_eq!(b.get_depth(30, 23), 2000);
    assert_eq!(b.get_pixel(30, 45), 0x00ff_0000);
    for (x, y) in [(5, 5), (60, 60), (12, 40), (48, 40), (30, 55), (30, 5)] {
        assert_eq!(b.get_pixel(x, y), BACKGROUND);
        assert_eq!(b.get_depth(x, y), DEPTH_FAR);
    }
}

#[test]
fn triangle_lighting_and_vertex_color_interpolation() {
    let mut b = Buffer::cons(64, 64);
    let tri = Tri::cons_pos(v(10, 10, 2000), v(50, 10, 2000), v(30, 50, 2000));
    render_triangle(&mut b, &tri, 150, None);
    let c = Color::from_u32(b.get_pixel(30, 23));
    assert!(c.red <= 39 && c.green <= 39 && c.blue <= 39);
    assert!(c.red > 0 && c.green > 0 && c.blue > 0);
}

#[test]
fn nearer_triangle_wins_regardless_of_order() {
    let far = Tri::cons_vert(red_vert(0, 0, 5000), red_vert(40, 0, 5000), red_vert(0, 40, 5000));
    let blue = Color::cons(0, 0, 255);
    let near = Tri::cons_vert(
        Vert::cons(v(0, 0, 1000), blue, Vec2i::cons(0, 0)),
        Vert::cons(v(40, 0, 1000), blue, Vec2i::cons(0, 0)),
        Vert::cons(v(0, 40, 1000), blue, Vec2i::cons(0, 0)),
    );
    let mut first = Buffer::cons(48, 48);
    render_triangle(&mut first, &far, 1000, None);
    render_triangle(&mut first, &near, 1000, None);
    let mut second = Buffer::cons(48, 48);
    render_triangle(&mut second, &near, 1000, None);
    render_triangle(&mut second, &far, 1000, None);
    assert_eq!(first.get_pixel(10, 10), 0x0000_00ff);
    assert_eq!(second.get_pixel(10, 10), 0x0000_00ff);
    assert_eq!(second.get_depth(10, 10), 1000);
}

#[test]
fn triangle_in_front_of_near_plane_is_dropped() {
    let mut b = Buffer::cons(64, 64);
    let tri = Tri::cons_vert(red_vert(10, 10, 50), red_vert(50, 10, 2000), red_vert(30, 50, 2000));
    render_triangle(&mut b, &tri, 1000, None);
    assert!(b.get_pixels().iter().all(|p| *p == BACKGROUND));
}

#[test]
fn degenerate_triangle_is_dropped() {
    let mut b = Buffer::cons(64, 64);
    let tri = Tri::cons_vert(red_vert(10, 10, 500), red_vert(20, 20, 500), red_vert(30, 30, 500));
    render_triangle(&mut b, &tri, 1000, None);
    assert!(b.get_pixels().iter().all(|p| *p == BACKGROUND));
}

#[test]
fn triangle_off_screen_is_clamped() {
    let mut b = Buffer::cons(32, 32);
    let tri = Tri::cons_vert(red_vert(-100, -100, 500), red_vert(200, -100, 500), red_vert(-100, 200, 500));
    render_triangle(&mut b, &tri, 1000, None);
    assert_eq!(b.get_pixel(5, 5), 0x00ff_0000);
}

#[test]
fn textured_triangle_samples_texels() {
    let texels = vec![Color::cons(1, 2, 3), Color::cons(4, 5, 6), Color::cons(7, 8, 9), Color::cons(10, 11, 12)];
    let tex = Texture::from_texels(2, 2, texels).unwrap();
    let mut b = Buffer::cons(64, 64);
    let vert = |x: i32, y: i32| Vert::cons(v(x, y, 2000), Color::cons(0, 0, 0), Vec2i::cons(0x1_0000, 0x1_0000));
    let tri = Tri::cons_vert(vert(10, 10), vert(50, 10), vert(30, 50));
    render_triangle(&mut b, &tri, 1000, Some(&tex));
    assert_eq!(b.get_pixel(30, 23), Color::cons(10, 11, 12).to_u32());
}

#[test]
fn texture_sampling_clamps_coordinates() {
    let texels = vec![Color::cons(1, 0, 0), Color::cons(2, 0, 0), Color::cons(3, 0, 0), Color::cons(4, 0, 0), Color::cons(5, 0, 0), Color::cons(6, 0, 0)];
    let tex = Texture::from_texels(3, 2, texels).unwrap();
    assert_eq!((tex.get_width(), tex.get_height()), (3, 2));
    assert_eq!(tex.get_texture(0, 0).red, 1);
    assert_eq!(tex.get_texture(0x8000, 0).red, 2);
    assert_eq!(tex.get_texture(0xffff, 0xffff).red, 6);
    assert_eq!(tex.get_texture(0x1_0000, 0x8000).red, 6);
    assert_eq!(tex.get_texture(-7, -7).red, 1);
    assert_eq!(tex.get_texture(i128::MAX, 0).red, 3);
}

#[test]
fn texture_rejects_mismatched_sizes() {
    assert!(Texture::from_texels(2, 2, vec![Color::default(); 3]).is_none());
    assert!(Texture::from_texels(0, 0, Vec::new()).is_none());
    assert!(Texture::from_texels(1, 3, vec![Color::default(); 3]).is_some());
}

#[test]
fn line_skips_start_and_stops_at_edge() {
    let mut b = Buffer::cons(8, 8);
    let cyan = Color::cons(0, 255, 255);
    draw_line_screen(&mut b, v(2, 2, 0), v(5, 2, 0), cyan);
    assert_eq!(b.get_pixel(2, 2), BACKGROUND);
    for x in 3..=5 {
        assert_eq!(b.get_pixel(x, 2), cyan.to_u32());
        assert_eq!(b.get_depth(x, 2), 1000);
    }
    draw_line_screen(&mut b, v(6, 6, 0), v(20, 6, 0), cyan);
    assert_eq!(b.get_pixel(7, 6), cyan.to_u32());
}

#[test]
fn texture_sampling_is_perspective_correct() {
    let red = Color::cons(255, 0, 0);
    let blue = Color::cons(0, 0, 255);
    let tex = Texture::from_texels(2, 1, vec![red, blue]).unwrap();
    let white = Color::cons(255, 255, 255);
    let a = Vert::cons(v(10, 10, 1000), white, Vec2i::cons(0, 0));
    let b = Vert::cons(v(50, 10, 9000), white, Vec2i::cons(0x1_0000, 0));
    let c = Vert::cons(v(10, 50, 1000), white, Vec2i::cons(0, 0));
    let mut buf = Buffer::cons(64, 64);
    render_triangle(&mut buf, &Tri::cons_vert(a, b, c), 1000, Some(&tex));
    // Halfway along the far edge on screen, the texture coordinate is 0.1,
    // not the affine 0.5.
    assert_eq!(buf.get_pixel(30, 12), red.to_u32());
    assert_eq!(buf.get_pixel(46, 12), blue.to_u32());
}

#[test]
fn line_overwrites_nearer_pixels() {
    let mut b = Buffer::cons(4, 4);
    let red = Color::cons(255, 0, 0);
    let green = Color::cons(0, 255, 0);
    b.set(1, 0, red, 0);
    draw_line_screen(&mut b, v(0, 0, 0), v(2, 0, 0), green);
    assert_eq!(b.get_pixel(1, 0), green.to_u32());
    assert_eq!(b.get_depth(1, 0), 1000);
    assert_eq!(b.get_pixel(2, 0), green.to_u32());
}

#[test]
fn wireframe_draws_lit_outline() {
    let mut b = Buffer::cons(64, 64);
    let tri = Tri::cons_pos(v(10, 10, 2000), v(50, 10, 2000), v(30, 50, 2000));
    render_wireframe_triangle(&mut b, &tri, 500);
    let cyan = Color::cons(0, 127, 127).to_u32();
    assert_eq!(b.get_pixel(30, 10), cyan);
    assert_eq!(b.get_pixel(10, 10), cyan);
    assert_eq!(b.get_pixel(30, 23), BACKGROUND);
    let mut near = Buffer::cons(64, 64);
    let hidden = Tri::cons_pos(v(10, 10, 50), v(50, 10, 2000), v(30, 50, 2000));
    render_wireframe_triangle(&mut near, &hidden, 500);
    assert!(near.get_pixels().iter().all(|p| *p == BACKGROUND));
}
