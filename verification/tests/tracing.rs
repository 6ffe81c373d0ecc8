//! Intersections, nearest-hit resolution and camera rays.

use raytracer::rat::Rat;
use raytracer::vector::Vector3;
use raytracer::quaternion::Quaternion;
use raytracer::scene::{Primitive, Renderable, Scene, Sphere, Triangle};
use raytracer::camera::{CameraBuildError, CameraBuilder};
use raytracer::color::Color;

fn rat(n: i64, d: i64) -> Rat {
    Rat::new(n, d)
}

fn vec3(x: i64, y: i64, z: i64) -> Vector3 {
    Vector3::new(Rat::of_int(x), Rat::of_int(y), Rat::of_int(z))
}

#[test]
fn sphere_two_roots_through_center() {
    let s = Sphere::new(Rat::of_int(1), vec3(0, 0, 4), 0xff0000);
    let roots = s.intersect_ray(&vec3(0, 0, 0), &vec3(0, 0, 1)).unwrap();
    assert_eq!(roots.len(), 2);
    // The "+" root comes first, then the "-" root.
    assert!(roots[0].eq_val(&Rat::of_int(5)));
    assert!(roots[1].eq_val(&Rat::of_int(3)));
}

#[test]
fn sphere_tangent_single_root() {
    // Ray along z at x = 1 grazes the unit sphere centered at (0, 0, 4).
    let s = Sphere::new(Rat::of_int(1), vec3(0, 0, 4), 0xff0000);
    let roots = s.intersect_ray(&vec3(1, 0, 0), &vec3(0, 0, 1)).unwrap();
    assert_eq!(roots.len(), 1);
    assert!(roots[0].eq_val(&Rat::of_int(4)));
}

#[test]
fn sphere_miss_no_roots() {
    let s = Sphere::new(Rat::of_int(1), vec3(0, 0, 4), 0xff0000);
    let roots = s.intersect_ray(&vec3(5, 0, 0), &vec3(0, 0, 1)).unwrap();
    assert_eq!(roots.len(), 0);
}

#[test]
fn sphere_zero_direction_no_roots() {
    let s = Sphere::new(Rat::of_int(1), vec3(0, 0, 4), 0xff0000);
    let roots = s.intersect_ray(&vec3(0, 0, 0), &vec3(0, 0, 0)).unwrap();
    assert_eq!(roots.len(), 0);
}

#[test]
fn triangle_perpendicular_hit() {
    // Plane z = 5; the ray through (0, 0, 5), a point the oriented edge
    // tests accept, meets it at the plane distance 5.
    let t = Triangle::new(vec3(-1, 0, 5), vec3(0, 2, 5), vec3(1, 0, 5), 0x00ff00);
    let roots = t.intersect_ray(&vec3(0, 0, 0), &vec3(0, 0, 1)).unwrap();
    assert_eq!(roots.len(), 1);
    assert!(roots[0].eq_val(&Rat::of_int(5)));
}

#[test]
fn triangle_offset_miss() {
    let t = Triangle::new(vec3(-1, 0, 5), vec3(0, 2, 5), vec3(1, 0, 5), 0x00ff00);
    let roots = t.intersect_ray(&vec3(0, 1, 0), &vec3(0, 0, 1)).unwrap();
    assert_eq!(roots.len(), 0);
}

#[test]
fn triangle_parallel_ray_no_roots() {
    let t = Triangle::new(vec3(-1, 0, 5), vec3(0, 2, 5), vec3(1, 0, 5), 0x00ff00);
    let roots = t.intersect_ray(&vec3(0, 0, 0), &vec3(1, 0, 0)).unwrap();
    assert_eq!(roots.len(), 0);
}

#[test]
fn triangle_degenerate_no_roots() {
    // Collinear vertices: the zero normal gives a zero denominator and no
    // finite parameter.
    let t = Triangle::new(vec3(0, 0, 5), vec3(1, 0, 5), vec3(2, 0, 5), 0x00ff00);
    let roots = t.intersect_ray(&vec3(0, 0, 0), &vec3(0, 0, 1)).unwrap();
    assert_eq!(roots.len(), 0);
}

#[test]
fn scene_nearest_hit_wins() {
    let mut scene = Scene::empty();
    scene.add(Primitive::Sphere(Sphere::new(Rat::of_int(1), vec3(0, 0, 4), 0xff0000)));
    scene.add(Primitive::Sphere(Sphere::new(Rat::of_int(1), vec3(0, 0, 8), 0x00ff00)));
    let c = scene
        .trace_ray(&vec3(0, 0, 0), &vec3(0, 0, 1), Some(Rat::of_int(0)), None)
        .unwrap();
    assert_eq!(c, 0xff0000);
}

#[test]
fn scene_min_clips_nearer_sphere() {
    let mut scene = Scene::empty();
    scene.add(Primitive::Sphere(Sphere::new(Rat::of_int(1), vec3(0, 0, 4), 0xff0000)));
    scene.add(Primitive::Sphere(Sphere::new(Rat::of_int(1), vec3(0, 0, 8), 0x00ff00)));
    // A minimum past both of the nearer sphere's roots leaves the farther
    // sphere as the only candidate.
    let c = scene
        .trace_ray(&vec3(0, 0, 0), &vec3(0, 0, 1), Some(Rat::of_int(6)), None)
        .unwrap();
    assert_eq!(c, 0x00ff00);
}

#[test]
fn scene_equal_distance_later_wins() {
    let mut scene = Scene::empty();
    scene.add(Primitive::Sphere(Sphere::new(Rat::of_int(1), vec3(0, 0, 4), 0xff0000)));
    scene.add(Primitive::Sphere(Sphere::new(Rat::of_int(1), vec3(0, 0, 4), 0x0000ff)));
    let c = scene
        .trace_ray(&vec3(0, 0, 0), &vec3(0, 0, 1), Some(Rat::of_int(0)), None)
        .unwrap();
    assert_eq!(c, 0x0000ff);
}

#[test]
fn scene_max_clips_everything() {
    let mut scene = Scene::empty();
    scene.add(Primitive::Sphere(Sphere::new(Rat::of_int(1), vec3(0, 0, 4), 0xff0000)));
    let c = scene
        .trace_ray(
            &vec3(0, 0, 0),
            &vec3(0, 0, 1),
            Some(Rat::of_int(0)),
            Some(Rat::of_int(2)),
        )
        .unwrap();
    assert_eq!(c, 0);
}

#[test]
fn scene_empty_is_background() {
    let scene = Scene::empty();
    let c = scene.trace_ray(&vec3(0, 0, 0), &vec3(0, 0, 1), None, None).unwrap();
    assert_eq!(c, 0);
}

#[test]
fn primitive_colors() {
    let s = Sphere::new(Rat::of_int(1), vec3(0, 0, 4), 0xff0000);
    assert_eq!(s.to_color(), 0xff0000);
    let t = Triangle::new(vec3(0, 0, 1), vec3(1, 0, 1), vec3(0, 1, 1), 0xffff00);
    assert_eq!(t.to_color(), 0xffff00);
    let p = Primitive::Triangle(t);
    assert_eq!(p.to_color(), 0xffff00);
}

#[test]
fn camera_center_pixel_looks_straight_ahead() {
    let cam = CameraBuilder::default()
        .canvas_size((640, 360))
        .viewport_size((rat(8, 5), rat(9, 10)))
        .build()
        .unwrap();
    let ray = cam.get_canvas_ray(0, 0).unwrap();
    assert!(ray.x.eq_val(&Rat::of_int(0)));
    assert!(ray.y.eq_val(&Rat::of_int(0)));
    assert!(ray.z.eq_val(&Rat::of_int(1)));
}

#[test]
fn camera_edge_pixel_scales_viewport() {
    let cam = CameraBuilder::default()
        .canvas_size((640, 360))
        .viewport_size((rat(8, 5), rat(9, 10)))
        .build()
        .unwrap();
    // The half-width boundary is valid inclusively: 320 * (8/5 / 640) = 4/5.
    let ray = cam.get_canvas_ray(320, 0).unwrap();
    assert!(ray.x.eq_val(&rat(4, 5)));
    assert!(ray.z.eq_val(&Rat::of_int(1)));
}

#[test]
fn camera_builder_defaults() {
    let cam = CameraBuilder::default().canvas_size((640, 360)).build().unwrap();
    // Default viewport (8/5, 9/10), focal distance 1: the corner ray.
    let ray = cam.get_canvas_ray(200, -90).unwrap();
    assert!(ray.x.eq_val(&rat(1, 2)));
    assert!(ray.y.eq_val(&rat(-9, 40)));
    assert!(ray.z.eq_val(&Rat::of_int(1)));
    let p = cam.get_position();
    assert!(p.x.eq_val(&Rat::of_int(0)));
}

#[test]
fn camera_builder_missing_canvas_fails() {
    let r = CameraBuilder::default().build();
    match r {
        Err(e) => assert_eq!(e, CameraBuildError::MissingCanvasSize),
        Ok(_) => panic!("a camera without a canvas size must not build"),
    }
}

#[test]
fn camera_builder_zero_canvas_fails() {
    let r = CameraBuilder::default().canvas_size((0, 360)).build();
    match r {
        Err(e) => assert_eq!(e, CameraBuildError::InvalidCanvasSize),
        Ok(_) => panic!("a camera with a zero canvas dimension must not build"),
    }
}

#[test]
fn camera_translate_and_rotate() {
    let mut cam = CameraBuilder::default().canvas_size((640, 360)).build().unwrap();
    assert!(cam.translate(&vec3(1, 2, 3), false));
    let p = cam.get_position();
    assert!(p.x.eq_val(&Rat::of_int(1)));
    assert!(p.y.eq_val(&Rat::of_int(2)));
    assert!(p.z.eq_val(&Rat::of_int(3)));
    // Relative movement under the identity rotation is plain addition.
    assert!(cam.translate(&vec3(0, 0, 1), true));
    let p2 = cam.get_position();
    assert!(p2.z.eq_val(&Rat::of_int(4)));
    // A half turn about y: forward now points down the negative z axis.
    assert!(cam.rotate(&Quaternion::y_rot(Rat::of_int(0), Rat::of_int(1))));
    assert!(cam.translate(&vec3(0, 0, 1), true));
    let p3 = cam.get_position();
    assert!(p3.z.eq_val(&Rat::of_int(3)));
}

#[test]
fn end_to_end_center_pixel_sees_sphere() {
    let cam = CameraBuilder::default()
        .canvas_size((640, 360))
        .viewport_size((rat(8, 5), rat(9, 10)))
        .build()
        .unwrap();
    let mut scene = Scene::empty();
    scene.add(Primitive::Sphere(Sphere::new(Rat::of_int(1), vec3(0, 0, 4), 0xff0000)));
    let ray = cam.get_canvas_ray(0, 0).unwrap();
    let c = scene
        .trace_ray(&cam.get_position(), &ray, Some(Rat::of_int(0)), None)
        .unwrap();
    assert_eq!(c, 0xff0000);
}

#[test]
fn end_to_end_off_axis_pixel_sees_background() {
    let cam = CameraBuilder::default()
        .canvas_size((640, 360))
        .viewport_size((rat(8, 5), rat(9, 10)))
        .build()
        .unwrap();
    let mut scene = Scene::empty();
    scene.add(Primitive::Sphere(Sphere::new(Rat::of_int(1), vec3(0, 0, 4), 0xff0000)));
    let ray = cam.get_canvas_ray(320, 0).unwrap();
    let c = scene
        .trace_ray(&cam.get_position(), &ray, Some(Rat::of_int(0)), None)
        .unwrap();
    assert_eq!(c, 0);
}

#[test]
fn rotated_camera_still_sees_sphere() {
    // Camera at (3, 0, 3) turned a quarter turn about y looks down the
    // negative x axis; a sphere placed there is seen by the center pixel.
    // cos(-45 deg) and sin(-45 deg) are approximated by a close rational
    // point on the unit circle (the 119-120-169 triple halves 90 degrees
    // closely enough for this hit).
    let cam = CameraBuilder::default()
        .canvas_size((640, 360))
        .viewport_size((rat(8, 5), rat(9, 10)))
        .position(vec3(3, 0, 3))
        .rotation(Quaternion::y_rot(rat(119, 169), rat(-120, 169)))
        .build()
        .unwrap();
    let mut scene = Scene::empty();
    scene.add(Primitive::Sphere(Sphere::new(Rat::of_int(1), vec3(-5, 0, 3), 0xff0000)));
    let ray = cam.get_canvas_ray(0, 0).unwrap();
    let c = scene
        .trace_ray(&cam.get_position(), &ray, Some(Rat::of_int(0)), None)
        .unwrap();
    assert_eq!(c, 0xff0000);
}
