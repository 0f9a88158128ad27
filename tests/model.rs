use paper_plane::sheet::{create_static_plane, fold_stages, sheet_triangles, FOLD_STAGES, SHEET_VERTICES};
use paper_plane::{AddLines, BitSet, Model, Stay};

fn square() -> Model<(i32, i32), u32> {
    Model {
        vertices: vec![(0, 0), (1, 0), (1, 1), (0, 1)],
        triangles: vec![(0, 1, 2), (0, 2, 3)],
        lines: vec![(0, 2, 7)],
    }
}

#[test]
fn merge_concatenates_and_rebases() {
    let a = square();
    let b = Model {
        vertices: vec![(5, 5), (6, 5), (6, 6)],
        triangles: vec![(0, 1, 2)],
        lines: vec![(1, 2, 9), (0, 1, 3)],
    };
    let m = a.merge(b);
    assert_eq!(m.vertices.len(), 7);
    assert_eq!(m.vertices[4], (5, 5));
    assert_eq!(m.triangles, vec![(0, 1, 2), (0, 2, 3), (4, 5, 6)]);
    assert_eq!(m.lines, vec![(0, 2, 7), (5, 6, 9), (4, 5, 3)]);
    assert!(m.is_valid());
}

#[test]
fn merge_with_empty_model() {
    let empty: Model<(i32, i32), u32> = Model { vertices: vec![], triangles: vec![], lines: vec![] };
    let m = empty.merge(square());
    assert_eq!(m.triangles, square().triangles);
    assert_eq!(m.lines, square().lines);
    let m = square().merge(Model { vertices: vec![], triangles: vec![], lines: vec![] });
    assert_eq!(m.vertices, square().vertices);
}

#[test]
fn validity_detects_bad_indices() {
    assert!(square().is_valid());
    let mut bad = square();
    bad.triangles.push((0, 1, 4));
    assert!(!bad.is_valid());
    let mut bad = square();
    bad.lines.push((4, 0, 1));
    assert!(!bad.is_valid());
    let big: Model<u8, u8> = Model { vertices: vec![0; 256], triangles: vec![], lines: vec![] };
    assert!(!big.is_valid());
    let largest: Model<u8, u8> = Model { vertices: vec![0; 255], triangles: vec![(254, 0, 1)], lines: vec![] };
    assert!(largest.is_valid());
}

#[test]
fn transform_maps_every_vertex() {
    let m = square().transform(|(x, y)| (-x, y));
    assert_eq!(m.vertices, vec![(0, 0), (-1, 0), (-1, 1), (0, 1)]);
    assert_eq!(m.triangles, square().triangles);
    assert_eq!(m.lines, square().lines);
}

#[test]
fn transform_selected_moves_members_only() {
    let m = square().transform_selected(BitSet::with_bits(&[1, 3]), |(x, y)| (x + 10, y));
    assert_eq!(m.vertices, vec![(0, 0), (11, 0), (1, 1), (10, 1)]);
}

#[test]
fn transform_selected_beyond_thirty_two_vertices() {
    let vertices: Vec<u32> = (0..40).collect();
    let m: Model<u32, u8> = Model { vertices, triangles: vec![], lines: vec![] };
    let m = m.transform_selected(BitSet::with_bits(&[0, 31]), |v| v + 100);
    assert_eq!(m.vertices[0], 100);
    assert_eq!(m.vertices[31], 131);
    assert_eq!(m.vertices[32], 32);
    assert_eq!(m.vertices[39], 39);
}

#[test]
fn stay_leaves_model_unchanged() {
    let m = Stay::new().apply(square(), 3);
    assert_eq!(m.vertices, square().vertices);
    assert_eq!(m.triangles, square().triangles);
    assert_eq!(m.lines, square().lines);
}

#[test]
fn add_lines_uses_parameter_as_opacity() {
    let lines = AddLines::new(vec![(1, 3), (2, 0)]);
    let m = lines.apply(square(), 5);
    assert_eq!(m.lines, vec![(0, 2, 7), (1, 3, 5), (2, 0, 5)]);
    assert_eq!(m.vertices, square().vertices);
    assert!(m.is_valid());
    let m: Model<(i32, i32), f32> = Model { vertices: vec![(0, 0), (1, 1)], triangles: vec![], lines: vec![] };
    let m = AddLines::new(vec![(0, 1)]).apply(m, 0.25);
    assert_eq!(m.lines, vec![(0, 1, 0.25)]);
}

#[test]
fn sheet_is_well_formed() {
    let triangles = sheet_triangles();
    assert_eq!(triangles.len(), 26);
    assert_eq!(triangles[0], (0, 8, 9));
    assert_eq!(triangles[25], (1, 12, 4));
    let points: Vec<u8> = (0..SHEET_VERTICES as u8).collect();
    let sheet: Model<u8, f32> = create_static_plane(points);
    assert!(sheet.is_valid());
    assert!(sheet.lines.is_empty());
    let both = sheet.clone().merge(sheet);
    assert_eq!(both.vertices.len(), 42);
    assert_eq!(both.triangles.len(), 52);
    assert_eq!(both.triangles[26], (21, 29, 30));
    assert!(both.is_valid());
}

#[test]
fn fold_script_stays_on_sheet() {
    let stages = fold_stages();
    assert_eq!(stages.len(), FOLD_STAGES);
    assert_eq!(stages[0].hinge, (0, 4));
    assert_eq!(stages[0].creases.len(), 14);
    assert_eq!(stages[1].movers.len(), 20);
    assert!(stages[1].creases.is_empty());
    assert_eq!(stages[5].movers, vec![0]);
    assert_eq!(stages[7].hinge, (11, 12));
    assert_eq!(stages[7].creases[5], (17, 18));
    for stage in &stages {
        assert!((stage.hinge.0 as usize) < SHEET_VERTICES && (stage.hinge.1 as usize) < SHEET_VERTICES);
        assert!(stage.movers.iter().all(|&m| (m as usize) < SHEET_VERTICES));
        assert!(stage.creases.iter().all(|&(a, b)| (a as usize) < SHEET_VERTICES && (b as usize) < SHEET_VERTICES));
    }
}

#[test]
fn fold_script_keeps_sheet_valid() {
    let points: Vec<u8> = (0..SHEET_VERTICES as u8).collect();
    let mut sheet: Model<u8, u8> = create_static_plane(points);
    for stage in fold_stages() {
        sheet = AddLines::new(stage.creases).apply(sheet, 1);
    }
    assert_eq!(sheet.lines.len(), 34);
    assert!(sheet.is_valid());
}
