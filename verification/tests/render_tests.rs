use rndr::camera::Camera;
use rndr::matrix::{EulerTrig, M3x3};
use rndr::mesh::{MeshError, MeshRenderable};
use rndr::object::{Component, Object, ObjectManager};
use rndr::render_context::{RenderContext, RenderError};
use rndr::renderer::{MeshRendererSystem, RasterJob, EPS_AREA2};
use rndr::shader::{DefaultShader, DepthShader, FragData, FragShader, Shader};
use rndr::transform::Transform;
use rndr::vector::V3;
use rndr::vertex::Vertex;

#[test]
fn stock_camera_configuration() {
    let cam = Camera::new(true);
    assert!(cam.perspective);
    assert_eq!(cam.near_plane, 100);
    assert_eq!(cam.zero_threshold, 10);
    let off = cam.display_surface_offset.unwrap();
    assert_eq!((off.x, off.y, off.z), (0, 0, -100_000));
    assert!(Camera::new(false).display_surface_offset.is_none());
}

#[test]
fn plane_meshes_are_centered() {
    let p = MeshRenderable::plane();
    assert_eq!(p.vertices.len(), 4);
    assert_eq!(p.triangles.len(), 2);
    assert_eq!((p.vertices_center.x, p.vertices_center.y, p.vertices_center.z), (0, 0, 0));
    let s = MeshRenderable::small_plane();
    assert_eq!(s.vertices[2].position.x, 200);
}

#[test]
fn mesh_construction_rejects_bad_indices() {
    let vertices = vec![Vertex::new_with_position(V3::new(0, 0, 0))];
    let triangles = vec![[0usize, 0, 3]];
    let r = MeshRenderable::from_parts(vertices, triangles, Shader::Default(DefaultShader));
    assert_eq!(r.err(), Some(MeshError::IndexOutOfRange));
}

#[test]
fn default_shader_keeps_the_pixel() {
    let mut data = FragData {
        relative_position: V3::new(1, 2, 3),
        space_position: V3::new(4, 5, 6),
        output_pixel: (77, [1, 2, 3]),
    };
    DefaultShader.frag(&mut data);
    assert_eq!(data.output_pixel, (77, [1, 2, 3]));
}

#[test]
fn depth_shader_paints_grey_by_depth() {
    let mut data = FragData {
        relative_position: V3::new(0, 0, 0),
        space_position: V3::new(0, 0, 0),
        output_pixel: (5000, [9, 9, 9]),
    };
    DepthShader { far: 10_000 }.frag(&mut data);
    // 5000 * 255 / 10000 == 127 (truncated)
    assert_eq!(data.output_pixel, (5000, [127, 127, 127]));
    let mut deep = FragData {
        relative_position: V3::new(0, 0, 0),
        space_position: V3::new(0, 0, 0),
        output_pixel: (20_000, [0, 0, 0]),
    };
    DepthShader { far: 10_000 }.frag(&mut deep);
    assert_eq!(deep.output_pixel.1, [255, 255, 255]);
}

// The projected depth passes through the perspective divide unchanged, so
// comparing projected depths is comparing camera-space depths.
#[test]
fn projection_keeps_depth_ordering() {
    let cam = Camera::new(true);
    let cam_tr = Transform::new(V3::new(0, 0, -5000), V3::new(0, -90_000, 0));
    let cam_trig = EulerTrig::for_right_angles(&cam_tr.rotation).unwrap();
    let m = cam.get_projection_matrix(&cam_tr, &cam_trig);
    let obj_tr = Transform::default();
    let obj_trig = EulerTrig::identity();
    let q_near = cam.project_point(&m, Vertex::new_with_position(V3::new(0, 0, 0)), &obj_tr,
        &obj_trig, &cam_tr);
    let q_far = cam.project_point(&m, Vertex::new_with_position(V3::new(0, 0, 1000)), &obj_tr,
        &obj_trig, &cam_tr);
    assert_eq!(q_near.z, 5000);
    assert_eq!(q_far.z, 6000);
    assert!(q_near.z < q_far.z);
}

fn screen_job() -> RasterJob {
    RasterJob {
        q1: V3::new(0, 0, 5000),
        q2: V3::new(0, 20_000, 5000),
        q3: V3::new(20_000, 0, 5000),
        v1: Vertex::new(V3::new(0, 0, 0), [255, 0, 0], V3::new(0, 0, 0)),
        v2: Vertex::new(V3::new(1000, 0, 0), [0, 255, 0], V3::new(0, 0, 0)),
        v3: Vertex::new(V3::new(0, 1000, 0), [0, 0, 255], V3::new(0, 0, 0)),
        obj_pos: V3::new(0, 0, 0),
        shader: Shader::Default(DefaultShader),
        width: 64,
        height: 64,
    }
}

fn area2(ax: i128, ay: i128, bx: i128, by: i128, cx: i128, cy: i128) -> i128 {
    (ax * (by - cy) + bx * (cy - ay) + cx * (ay - by)).abs()
}

// For every covered pixel the three barycentric weights sum to the whole
// area within the epsilon: divided by the area they sum to one within 0.01.
#[test]
fn covered_pixels_have_weights_summing_to_one() {
    let job = screen_job();
    let writes = MeshRendererSystem.raster_triangle(&job);
    assert!(writes.len() > 0);
    // the first covered pixel is the corner at the first vertex
    assert_eq!((writes[0].x, writes[0].y), (32, 32));
    assert_eq!(writes[0].depth, 5000);
    assert_eq!(writes[0].color, [255, 0, 0]);
    let total = area2(0, 0, 0, 20_000, 20_000, 0);
    for w in writes.iter() {
        let px = (w.x as i128 - 32) * 1000;
        let py = (w.y as i128 - 32) * 1000;
        let w1 = area2(px, py, 20_000, 0, 0, 20_000);
        let w2 = area2(px, py, 0, 0, 20_000, 0);
        let w3 = area2(px, py, 0, 0, 0, 20_000);
        assert!((w1 + w2 + w3 - total).abs() <= EPS_AREA2 as i128);
    }
}

// An interior pixel blends the three vertex colors with weights summing to
// one: at the centroid-ish pixel all weights are positive.
#[test]
fn interior_pixels_interpolate_attributes() {
    let job = screen_job();
    let writes = MeshRendererSystem.raster_triangle(&job);
    let w = writes.iter().find(|w| w.x == 32 + 6 && w.y == 32 + 6).expect("pixel (6,6) covered");
    assert_eq!(w.depth, 5000);
    let sum = w.color[0] as u32 + w.color[1] as u32 + w.color[2] as u32;
    // the channel weights sum to roughly one
    assert!(sum >= 253 && sum <= 255);
    assert!(w.color[1] > 0 && w.color[2] > 0);
}

fn triangle_entity() -> Object {
    let n = V3::new(0, 0, -1000);
    let vertices = vec![
        Vertex::new(V3::new(0, 0, 0), [255, 255, 255], n),
        Vertex::new(V3::new(1000, 0, 0), [255, 255, 255], n),
        Vertex::new(V3::new(0, 1000, 0), [255, 255, 255], n),
    ];
    let triangles = vec![[0usize, 1, 2]];
    let mesh = MeshRenderable::from_parts(vertices, triangles, Shader::Default(DefaultShader))
        .expect("indices in range");
    let mut obj = Object::new();
    obj.add_component(Component::Transform(Transform::default()));
    obj.add_component(Component::MeshRenderable(mesh));
    obj
}

// End to end: one triangle and a camera that sees it; after one render call
// some pixel inside the viewport carries a non-background color.
#[test]
fn rendering_a_visible_triangle_paints_pixels() {
    let mut om = ObjectManager::new();
    om.register_object(triangle_entity());
    let mut cam_obj = Object::new();
    cam_obj.add_component(Component::Transform(Transform::new(
        V3::new(0, 0, -5000),
        V3::new(0, -90_000, 0),
    )));
    cam_obj.add_component(Component::Camera(Camera::new(true)));
    om.register_object(cam_obj);
    let trigs = vec![
        EulerTrig::identity(),
        EulerTrig::for_right_angles(&V3::new(0, -90_000, 0)).unwrap(),
    ];
    let mut ctx = RenderContext::new(64, 64);
    ctx.configure_mesh_renderer();
    ctx.render_objects(&om, &trigs).expect("camera present");
    // an interior pixel of the projected triangle is lit at its depth
    assert_eq!(ctx.pixel_grid.get_color(35, 35), [255, 255, 255]);
    assert_eq!(ctx.pixel_grid.get_depth(35, 35), 5000);
    let mut lit = 0;
    for y in 0..64 {
        for x in 0..64 {
            if ctx.pixel_grid.get_color(x, y) != [0, 0, 0] {
                lit += 1;
            }
        }
    }
    assert!(lit > 0);
}

#[test]
fn rendering_without_a_camera_fails() {
    let mut om = ObjectManager::new();
    om.register_object(triangle_entity());
    let trigs = vec![EulerTrig::identity()];
    let mut ctx = RenderContext::new(64, 64);
    ctx.configure_mesh_renderer();
    assert_eq!(ctx.render_objects(&om, &trigs), Err(RenderError::NoCamera));
}

#[test]
fn rendering_without_a_system_is_a_no_op() {
    let mut om = ObjectManager::new();
    om.register_object(triangle_entity());
    let trigs = vec![EulerTrig::identity()];
    let mut ctx = RenderContext::new(8, 8);
    assert_eq!(ctx.render_objects(&om, &trigs), Ok(()));
    assert_eq!(ctx.pixel_grid.get_color(0, 0), [0, 0, 0]);
}

#[test]
fn projection_matrix_columns_hold_the_basis() {
    let cam = Camera::new(true);
    let tr = Transform::default();
    let trig = EulerTrig::identity();
    let m: M3x3 = cam.get_projection_matrix(&tr, &trig);
    // right (0,-1,0) -> screen x, up (0,0,1) -> screen y, fwd (1,0,0) -> depth
    assert_eq!((m.columns[0].x, m.columns[0].y, m.columns[0].z), (0, 0, 1000));
    assert_eq!((m.columns[1].x, m.columns[1].y, m.columns[1].z), (-1000, 0, 0));
    assert_eq!((m.columns[2].x, m.columns[2].y, m.columns[2].z), (0, 1000, 0));
}
