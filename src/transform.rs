use vstd::prelude::*;

use crate::model::Model;

verus! {

/// The transform that leaves a model as it is.
pub struct Stay {}

impl Stay {
    pub fn new() -> Stay {
        Stay {  }
    }

    /// Returns `model` unchanged, whatever the fold parameter.
    pub fn apply<V, A>(&self, model: Model<V, A>, t: A) -> (r: Model<V, A>)
        ensures
            r == model,
    {
        model
    }
}

/// The transform that reveals crease lines: each listed edge is added with
/// the fold parameter as its opacity, so the lines fade in as the stage runs.
pub struct AddLines {
    lines: Vec<(u8, u8)>,
}

impl AddLines {
    /// The edges this transform adds.
    pub closed spec fn added(&self) -> Seq<(u8, u8)> {
        self.lines@
    }

    /// Whether every added edge refers to one of `count` vertices.
    pub open spec fn fits(&self, count: int) -> bool {
        forall|i: int|
            0 <= i < self.added().len() ==> (#[trigger] self.added()[i]).0 < count
                && self.added()[i].1 < count
    }

    pub fn new(lines: Vec<(u8, u8)>) -> (r: AddLines)
        ensures
            r.added() == lines@,
    {
        AddLines { lines }
    }

    /// Appends each edge `(a, b)` to the lines of `model` as `(a, b, t)`.
    pub fn apply<V, A: Copy>(&self, model: Model<V, A>, t: A) -> (r: Model<V, A>)
        ensures
            r.vertices@ == model.vertices@,
            r.triangles@ == model.triangles@,
            r.lines@ == model.lines@ + self.added().map_values(|e: (u8, u8)| (e.0, e.1, t)),
            model.wf() && self.fits(model.vertices.len() as int) ==> r.wf(),
    {
        let ghost before = model;
        let mut lines = model.lines;
        let mut i: usize = 0;
        while i < self.lines.len()
            invariant
                i <= self.lines.len(),
                lines@ == before.lines@ + self.lines@.subrange(0, i as int).map_values(
                    |e: (u8, u8)| (e.0, e.1, t),
                ),
            decreases self.lines.len() - i,
        {
            let (a, b) = self.lines[i];
            lines.push((a, b, t));
            proof {
                assert(self.lines@.subrange(0, i + 1) == self.lines@.subrange(0, i as int).push(
                    self.lines@[i as int],
                ));
            }
            i = i + 1;
        }
        proof {
            assert(self.lines@.subrange(0, self.lines.len() as int) == self.lines@);
        }
        let r = Model { vertices: model.vertices, triangles: model.triangles, lines };
        proof {
            if before.wf() && self.fits(before.vertices.len() as int) {
                assert forall|k: int| 0 <= k < r.lines.len() implies {
                    let l = #[trigger] r.lines@[k];
                    &&& l.0 < r.vertices.len()
                    &&& l.1 < r.vertices.len()
                } by {
                    if k >= before.lines.len() {
                        let _ = self.added()[k - before.lines.len()];
                    } else {
                        let _ = before.lines@[k];
                    }
                }
                assert(r.triangles == before.triangles);
            }
        }
        r
    }
}

} // verus!
