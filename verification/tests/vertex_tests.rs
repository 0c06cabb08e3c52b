use rndr::matrix::EulerTrig;
use rndr::transform::Transform;
use rndr::vector::V3;
use rndr::vertex::Vertex;

#[test]
fn vertex_builders() {
    let v = Vertex::new_with_position(V3::new(1, 2, 3));
    assert_eq!(v.color, [255, 255, 255]);
    assert_eq!((v.normal.x, v.normal.y, v.normal.z), (0, 0, 0));
    let c = Vertex::new_with_color(V3::new(0, 0, 0), [7, 8, 9]);
    assert_eq!(c.color, [7, 8, 9]);
}

#[test]
fn interpolation_blends_positions_and_colors() {
    let a = Vertex::new_with_color(V3::new(0, 0, 0), [255, 0, 0]);
    let b = Vertex::new_with_color(V3::new(1000, 0, 0), [0, 255, 0]);
    let c = Vertex::new_with_color(V3::new(0, 1000, 0), [0, 0, 255]);
    // equal thirds over a denominator of 3
    let m = Vertex::interpolate((a, 1), (b, 1), (c, 1), 3);
    assert_eq!((m.position.x, m.position.y, m.position.z), (333, 333, 0));
    assert_eq!(m.color, [85, 85, 85]);
}

#[test]
fn interpolated_colors_saturate() {
    let a = Vertex::new_with_color(V3::new(0, 0, 0), [200, 0, 0]);
    let b = Vertex::new_with_color(V3::new(0, 0, 0), [200, 0, 0]);
    let c = Vertex::new_with_color(V3::new(0, 0, 0), [200, 0, 0]);
    // weights summing to twice the denominator drive the channel past a byte
    let m = Vertex::interpolate_color((a, 2), (b, 2), (c, 2), 3);
    assert_eq!(m, [255, 0, 0]);
}

#[test]
fn transforms_move_vertices() {
    let tr = Transform::new(V3::new(10, 20, 30), V3::new(0, 0, 0));
    let t = EulerTrig::identity();
    let mut v = Vertex::new_with_color(V3::new(1000, 0, 0), [1, 2, 3]);
    tr.apply_to_vertex(&t, &mut v);
    assert_eq!((v.position.x, v.position.y, v.position.z), (1010, 20, 30));
    assert_eq!(v.color, [1, 2, 3]);
}

#[test]
fn quarter_turn_moves_vertices_exactly() {
    // a quarter turn about z maps +x to +y before translating
    let tr = Transform::new(V3::new(0, 0, 5), V3::new(0, 0, 90_000));
    let t = EulerTrig::for_right_angles(&tr.rotation).unwrap();
    let mut v = Vertex::new_with_position(V3::new(1000, 0, 0));
    tr.apply_to_vertex(&t, &mut v);
    assert_eq!((v.position.x, v.position.y, v.position.z), (0, 1000, 5));
}
