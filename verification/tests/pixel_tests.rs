use rndr::pixel::{PixelGrid, PixelWrite, DEFAULT_Z};

#[test]
fn new_grid_is_cleared() {
    let g = PixelGrid::new(4, 3);
    for y in 0..3 {
        for x in 0..4 {
            assert_eq!(g.get_depth(x, y), DEFAULT_Z);
            assert_eq!(g.get_color(x, y), [0, 0, 0]);
        }
    }
    assert_eq!(g.get_pixel_data().len(), 4 * 3 * 3);
}

#[test]
fn set_pixel_is_nearest_wins() {
    let mut g = PixelGrid::new(4, 4);
    g.set_pixel(1, 2, (100, [10, 20, 30]));
    assert_eq!(g.get_depth(1, 2), 100);
    assert_eq!(g.get_color(1, 2), [10, 20, 30]);
    // a farther write is rejected
    g.set_pixel(1, 2, (200, [1, 1, 1]));
    assert_eq!(g.get_depth(1, 2), 100);
    assert_eq!(g.get_color(1, 2), [10, 20, 30]);
    // an equally deep write is adopted
    g.set_pixel(1, 2, (100, [9, 9, 9]));
    assert_eq!(g.get_color(1, 2), [9, 9, 9]);
    // a closer write is adopted
    g.set_pixel(1, 2, (50, [5, 5, 5]));
    assert_eq!(g.get_depth(1, 2), 50);
    assert_eq!(g.get_color(1, 2), [5, 5, 5]);
    // other pixels are untouched
    assert_eq!(g.get_depth(0, 0), DEFAULT_Z);
}

#[test]
fn depth_buffer_keeps_minimum_depth_color() {
    // two triangles' writes land on the same pixel: whatever the order, the
    // stored color is the one written at the minimum depth
    let near = PixelWrite { x: 2, y: 2, depth: 3, color: [200, 0, 0] };
    let far = PixelWrite { x: 2, y: 2, depth: 5, color: [0, 200, 0] };

    let mut g1 = PixelGrid::new(4, 4);
    g1.apply_writes(&vec![near, far]);
    assert_eq!(g1.get_depth(2, 2), 3);
    assert_eq!(g1.get_color(2, 2), [200, 0, 0]);

    let mut g2 = PixelGrid::new(4, 4);
    g2.apply_writes(&vec![far, near]);
    assert_eq!(g2.get_depth(2, 2), 3);
    assert_eq!(g2.get_color(2, 2), [200, 0, 0]);
}

#[test]
fn clear_resets_colors_and_depths() {
    let mut g = PixelGrid::new(2, 2);
    g.set_pixel(0, 0, (7, [1, 2, 3]));
    g.clear();
    assert_eq!(g.get_depth(0, 0), DEFAULT_Z);
    assert_eq!(g.get_color(0, 0), [0, 0, 0]);
}
