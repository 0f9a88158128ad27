use vstd::prelude::*;

use crate::model::Model;

verus! {

/// The number of points that lay out the unfolded half-sheet.
pub const SHEET_VERTICES: usize = 21;

/// The triangulation of the unfolded half-sheet.
pub open spec fn sheet_triangulation() -> Seq<(u8, u8, u8)> {
    seq![
        (0u8, 8u8, 9u8), (0, 9, 10), (8, 13, 9), (8, 2, 13), (2, 14, 13), (10, 9, 13),
        (10, 13, 1), (13, 11, 1), (13, 14, 7), (14, 19, 7), (13, 7, 11), (7, 5, 11),
        (7, 19, 18), (7, 18, 17), (7, 17, 15), (7, 15, 5), (18, 3, 17), (17, 3, 15),
        (15, 3, 16), (15, 16, 6), (15, 6, 5), (11, 5, 6), (11, 6, 20), (11, 20, 12),
        (1, 11, 12), (1, 12, 4),
    ]
}

/// The triangles of the unfolded half-sheet, over its `SHEET_VERTICES` points.
pub fn sheet_triangles() -> (r: Vec<(u8, u8, u8)>)
    ensures
        r@ == sheet_triangulation(),
        forall|i: int|
            0 <= i < r.len() ==> {
                let t = #[trigger] r@[i];
                &&& t.0 < SHEET_VERTICES
                &&& t.1 < SHEET_VERTICES
                &&& t.2 < SHEET_VERTICES
            },
{
    let r: Vec<(u8, u8, u8)> = vec![
        (0u8, 8u8, 9u8), (0, 9, 10), (8, 13, 9), (8, 2, 13), (2, 14, 13), (10, 9, 13),
        (10, 13, 1), (13, 11, 1), (13, 14, 7), (14, 19, 7), (13, 7, 11), (7, 5, 11),
        (7, 19, 18), (7, 18, 17), (7, 17, 15), (7, 15, 5), (18, 3, 17), (17, 3, 15),
        (15, 3, 16), (15, 16, 6), (15, 6, 5), (11, 5, 6), (11, 6, 20), (11, 20, 12),
        (1, 11, 12), (1, 12, 4),
    ];
    assert(r@ == sheet_triangulation());
    r
}

/// The unfolded half-sheet: the given layout points with the fixed
/// triangulation over them, and no crease line yet.
pub fn create_static_plane<V, A>(vertices: Vec<V>) -> (r: Model<V, A>)
    requires
        vertices.len() == SHEET_VERTICES,
    ensures
        r.wf(),
        r.vertices@ == vertices@,
        r.triangles@ == sheet_triangulation(),
        r.lines@.len() == 0,
{
    Model { vertices, triangles: sheet_triangles(), lines: Vec::new() }
}


/// The number of fold stages in the folding script.
pub const FOLD_STAGES: usize = 8;

/// The hinge of each fold stage, in order.
pub open spec fn stage_hinges() -> Seq<(u8, u8)> {
    seq![(0u8, 4u8), (0, 4), (0, 3), (1, 3), (5, 6), (9, 10), (1, 4), (11, 12)]
}

/// The vertices each fold stage turns, in order.
pub open spec fn stage_movers() -> Seq<Seq<u8>> {
    seq![
        seq![2u8, 3, 5, 6, 7, 8, 9, 11, 12, 13, 14, 15, 16, 17, 18, 19, 20],
        seq![0u8, 1, 2, 3, 4, 5, 6, 7, 8, 9, 11, 12, 13, 14, 15, 16, 17, 18, 19, 20],
        seq![8u8, 2, 14, 19, 18],
        seq![0u8, 8, 2, 14, 19, 18, 9, 13, 7, 17, 10],
        seq![18u8, 17, 3, 15, 16],
        seq![0u8],
        seq![2u8, 3, 5, 6, 7, 8, 9, 11, 12, 13, 14, 15, 16, 17, 18, 19, 20],
        seq![5u8, 7, 19, 6, 20],
    ]
}

/// The crease lines each fold stage reveals, in order.
pub open spec fn stage_creases() -> Seq<Seq<(u8, u8)>> {
    seq![
        seq![
            (0u8, 10u8), (10, 1), (1, 4), (0, 8), (8, 2), (4, 12), (12, 20), (2, 14), (14, 19),
            (19, 18), (18, 3), (3, 16), (16, 6), (6, 20),
        ],
        Seq::empty(),
        seq![(0u8, 9u8), (9, 13), (13, 7), (7, 17), (17, 3)],
        seq![(1u8, 11u8), (11, 5), (5, 15), (15, 3)],
        seq![(5u8, 6u8), (5, 7), (7, 19)],
        seq![(9u8, 10u8), (9, 8)],
        Seq::empty(),
        seq![(11u8, 12u8), (11, 13), (13, 14), (15, 16), (15, 17), (17, 18)],
    ]
}

/// The index data of one fold stage: the hinge, the vertices that turn about
/// it, and the crease lines that fade in while it plays.
pub struct FoldStage {
    pub hinge: (u8, u8),
    pub movers: Vec<u8>,
    pub creases: Vec<(u8, u8)>,
}

/// Whether every index of a stage lies on the sheet.
pub open spec fn stage_on_sheet(hinge: (u8, u8), movers: Seq<u8>, creases: Seq<(u8, u8)>) -> bool {
    &&& hinge.0 < SHEET_VERTICES
    &&& hinge.1 < SHEET_VERTICES
    &&& forall|k: int| 0 <= k < movers.len() ==> #[trigger] movers[k] < SHEET_VERTICES
    &&& forall|k: int|
        0 <= k < creases.len() ==> (#[trigger] creases[k]).0 < SHEET_VERTICES && creases[k].1
            < SHEET_VERTICES
}

/// One fold stage, built from its table entries.
fn stage(hinge: (u8, u8), movers: Vec<u8>, creases: Vec<(u8, u8)>) -> (r: FoldStage)
    ensures
        r.hinge == hinge,
        r.movers@ == movers@,
        r.creases@ == creases@,
{
    FoldStage { hinge, movers, creases }
}

/// The index data of the folding script, stage by stage. Every hinge,
/// mover and crease refers to a point of the sheet.
pub fn fold_stages() -> (r: Vec<FoldStage>)
    ensures
        r.len() == FOLD_STAGES,
        forall|i: int|
            0 <= i < FOLD_STAGES ==> {
                &&& (#[trigger] r@[i]).hinge == stage_hinges()[i]
                &&& r@[i].movers@ == stage_movers()[i]
                &&& r@[i].creases@ == stage_creases()[i]
                &&& stage_on_sheet(r@[i].hinge, r@[i].movers@, r@[i].creases@)
            },
{
    let r: Vec<FoldStage> = vec![
        stage(
            (0, 4),
            vec![2, 3, 5, 6, 7, 8, 9, 11, 12, 13, 14, 15, 16, 17, 18, 19, 20],
            vec![
                (0, 10), (10, 1), (1, 4), (0, 8), (8, 2), (4, 12), (12, 20), (2, 14), (14, 19),
                (19, 18), (18, 3), (3, 16), (16, 6), (6, 20),
            ],
        ),
        stage(
            (0, 4),
            vec![0, 1, 2, 3, 4, 5, 6, 7, 8, 9, 11, 12, 13, 14, 15, 16, 17, 18, 19, 20],
            vec![],
        ),
        stage((0, 3), vec![8, 2, 14, 19, 18], vec![(0, 9), (9, 13), (13, 7), (7, 17), (17, 3)]),
        stage(
            (1, 3),
            vec![0, 8, 2, 14, 19, 18, 9, 13, 7, 17, 10],
            vec![(1, 11), (11, 5), (5, 15), (15, 3)],
        ),
        stage((5, 6), vec![18, 17, 3, 15, 16], vec![(5, 6), (5, 7), (7, 19)]),
        stage((9, 10), vec![0], vec![(9, 10), (9, 8)]),
        stage(
            (1, 4),
            vec![2, 3, 5, 6, 7, 8, 9, 11, 12, 13, 14, 15, 16, 17, 18, 19, 20],
            vec![],
        ),
        stage(
            (11, 12),
            vec![5, 7, 19, 6, 20],
            vec![(11, 12), (11, 13), (13, 14), (15, 16), (15, 17), (17, 18)],
        ),
    ];
    proof {
        assert forall|i: int| 0 <= i < FOLD_STAGES implies {
            &&& (#[trigger] r@[i]).hinge == stage_hinges()[i]
            &&& r@[i].movers@ == stage_movers()[i]
            &&& r@[i].creases@ == stage_creases()[i]
            &&& stage_on_sheet(r@[i].hinge, r@[i].movers@, r@[i].creases@)
        } by {}
    }
    r
}

} // verus!
