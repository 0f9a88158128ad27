use nalgebra_glm::{rotation, translation, vec4_to_vec3, Mat4, Vec3};
use paper_plane::{BitSet, Fold, Model};

fn round(v: Vec3) -> Vec3 {
    Vec3::new(
        (v.x * 128.0).round() / 128.0,
        (v.y * 128.0).round() / 128.0,
        (v.z * 128.0).round() / 128.0,
    )
}

fn hinge_motion(p0: Vec3, p1: Vec3, angle: f32, t: f32) -> Mat4 {
    translation(&p0) * rotation(angle * t, &(p1 - p0).normalize()) * translation(&(-p0))
}

fn move_vertex(m: Mat4, v: Vec3) -> Vec3 {
    vec4_to_vec3(&(m * v.push(1.0)))
}

fn fold_at(fold: &Fold<f32>, model: Model<Vec3, f32>, t: f32) -> Model<Vec3, f32> {
    fold.apply(model, t, hinge_motion, move_vertex)
}

#[test]
fn fold_test_stay_in_place() {
    let fold = Fold::new(
        (0, 1),
        BitSet::with_bits(&[0, 1]),
        std::f32::consts::PI / 2.0,
    );
    let model = Model {
        vertices: vec![Vec3::new(0.0, 0.0, 0.0), Vec3::new(1.0, 0.0, 0.0)],
        triangles: vec![],
        lines: vec![],
    };

    let result = fold_at(&fold, model, 1.0).vertices;
    assert_eq!(result[0], Vec3::new(0.0, 0.0, 0.0));
    assert_eq!(result[1], Vec3::new(1.0, 0.0, 0.0));
}

#[test]
fn fold_test_rotate_over_origin() {
    let fold = Fold::new((0, 1), BitSet::with_bits(&[2]), std::f32::consts::PI / 2.0);

    let model = Model {
        vertices: vec![
            Vec3::new(0.0, 0.0, 0.0),
            Vec3::new(1.0, 0.0, 0.0),
            Vec3::new(0.0, 1.0, 0.0),
        ],
        triangles: vec![],
        lines: vec![],
    };

    let v0 = round(fold_at(&fold, model.clone(), 0.0).vertices[2]);
    let v1 = round(fold_at(&fold, model.clone(), 0.5).vertices[2]);
    let v2 = round(fold_at(&fold, model.clone(), 1.0).vertices[2]);

    assert_eq!(v0, Vec3::new(0.0, 1.0, 0.0));
    assert_eq!(v1, Vec3::new(0.0, 0.7109375, 0.7109375));
    assert_eq!(v2, Vec3::new(0.0, 0.0, 1.0));
}

#[test]
fn fold_test_rotate_over_point() {
    let fold = Fold::new((0, 1), BitSet::with_bits(&[2]), std::f32::consts::PI / 2.0);
    let point = Vec3::new(1.0, 2.0, 3.0);

    let model = Model {
        vertices: vec![
            Vec3::new(0.0, 0.0, 0.0) + point,
            Vec3::new(1.0, 0.0, 0.0) + point,
            Vec3::new(0.0, 1.0, 0.0) + point,
        ],
        triangles: vec![],
        lines: vec![],
    };

    let v0 = round(fold_at(&fold, model.clone(), 0.0).vertices[2]);
    let v1 = round(fold_at(&fold, model.clone(), 0.5).vertices[2]);
    let v2 = round(fold_at(&fold, model.clone(), 1.0).vertices[2]);

    assert_eq!(v0, Vec3::new(1.0, 3.0, 3.0));
    assert_eq!(v1, Vec3::new(1.0, 2.7109375, 3.7109375));
    assert_eq!(v2, Vec3::new(1.0, 2.0, 4.0));
}

#[test]
fn fold_at_zero_keeps_every_point() {
    let fold = Fold::new((0, 1), BitSet::with_bits(&[2, 3]), 1.3);
    let vertices = vec![
        Vec3::new(0.5, -1.0, 2.0),
        Vec3::new(1.5, 0.25, -3.0),
        Vec3::new(0.0, 1.0, 0.0),
        Vec3::new(-2.0, 4.0, 1.0),
    ];
    let model = Model { vertices: vertices.clone(), triangles: vec![(0, 1, 2)], lines: vec![(2, 3, 1.0)] };
    let result = fold_at(&fold, model, 0.0);
    for (a, b) in result.vertices.iter().zip(vertices.iter()) {
        assert!((a - b).norm() < 1e-6);
    }
    assert_eq!(result.triangles, vec![(0, 1, 2)]);
    assert_eq!(result.lines, vec![(2, 3, 1.0)]);
}

#[test]
fn fold_keeps_hinge_fixed() {
    let fold = Fold::new((0, 1), BitSet::with_bits(&[2]), 2.0);
    let vertices = vec![Vec3::new(1.0, 1.0, 1.0), Vec3::new(2.0, 3.0, 1.0), Vec3::new(0.0, 5.0, 0.0)];
    for t in [0.0f32, 0.3, 0.5, 1.0] {
        let model = Model { vertices: vertices.clone(), triangles: vec![], lines: vec![] };
        let result = fold_at(&fold, model, t).vertices;
        assert_eq!(result[0], vertices[0]);
        assert_eq!(result[1], vertices[1]);
    }
}

#[test]
fn fold_with_zero_angle_keeps_every_point() {
    let fold = Fold::new((0, 1), BitSet::with_bits(&[2]), 0.0);
    let vertices = vec![Vec3::new(0.0, 0.0, 0.0), Vec3::new(1.0, 0.0, 0.0), Vec3::new(0.0, 1.0, 0.0)];
    let model = Model { vertices: vertices.clone(), triangles: vec![], lines: vec![] };
    let result = fold_at(&fold, model, 0.7);
    for (a, b) in result.vertices.iter().zip(vertices.iter()) {
        assert!((a - b).norm() < 1e-6);
    }
}
