use vstd::prelude::*;

use crate::bit_set::BitSet;
use crate::model::Model;

verus! {

/// A rigid fold: the vertices in `points` turn about the hinge through the
/// vertices `line.0` and `line.1`, by `angle` scaled by the fold parameter.
///
/// The angle type `S` is left to the caller, as is the geometry: `apply` is
/// handed the function that builds the motion for a hinge and the function
/// that moves one vertex by it.
#[derive(Debug)]
pub struct Fold<S> {
    line: (u8, u8),
    points: BitSet,
    angle: S,
}

impl<S: Copy> Fold<S> {
    /// The two vertex indices of the hinge.
    pub closed spec fn hinge(&self) -> (u8, u8) {
        self.line
    }

    /// The vertex indices that move.
    pub closed spec fn movers(&self) -> BitSet {
        self.points
    }

    /// The full angle, reached at fold parameter 1.
    pub closed spec fn full_angle(&self) -> S {
        self.angle
    }

    pub fn new(line: (u8, u8), points: BitSet, angle: S) -> (r: Fold<S>)
        ensures
            r.hinge() == line,
            r.movers() == points,
            r.full_angle() == angle,
    {
        Fold { line, points, angle }
    }

    /// The two vertex indices of the hinge.
    pub fn line(&self) -> (r: (u8, u8))
        ensures
            r == self.hinge(),
    {
        self.line
    }

    /// The model with the movers carried by the motion of this fold at `t`.
    ///
    /// `motion(p0, p1, angle, t)` gives the motion about the hinge from `p0`
    /// to `p1`, taken from the current positions of the hinge vertices;
    /// `act(m, v)` moves the vertex `v` by `m`. Vertices that are not movers,
    /// the hinge among them whenever it is not listed, stay where they are;
    /// when the motion at `t` moves nothing (as a rotation by angle 0), no
    /// vertex moves at all.
    pub fn apply<V: Copy, A: Copy, M: Copy, FM: Fn(V, V, S, A) -> M, FA: Fn(M, V) -> V>(
        &self,
        model: Model<V, A>,
        t: A,
        motion: FM,
        act: FA,
    ) -> (r: Model<V, A>)
        requires
            self.hinge().0 < model.vertices.len(),
            self.hinge().1 < model.vertices.len(),
            forall|p0: V, p1: V| motion.requires((p0, p1, self.full_angle(), t)),
            forall|m: M, v: V| act.requires((m, v)),
        ensures
            r.vertices.len() == model.vertices.len(),
            r.triangles@ == model.triangles@,
            r.lines@ == model.lines@,
            r.wf() == model.wf(),
            exists|m: M|
                {
                    &&& #[trigger] motion.ensures(
                        (
                            model.vertices@[self.hinge().0 as int],
                            model.vertices@[self.hinge().1 as int],
                            self.full_angle(),
                            t,
                        ),
                        m,
                    )
                    &&& forall|i: int|
                        0 <= i < model.vertices.len() && self.movers().contains(i) ==> act.ensures(
                            (m, model.vertices@[i]),
                            #[trigger] r.vertices@[i],
                        )
                },
            forall|i: int|
                0 <= i < model.vertices.len() && !self.movers().contains(i) ==> #[trigger] r.vertices@[i]
                    == model.vertices@[i],
            (forall|m: M, v: V, w: V|
                motion.ensures(
                    (
                        model.vertices@[self.hinge().0 as int],
                        model.vertices@[self.hinge().1 as int],
                        self.full_angle(),
                        t,
                    ),
                    m,
                ) && act.ensures((m, v), w) ==> w == v) ==> r.vertices@ == model.vertices@,
            !self.movers().contains(self.hinge().0 as int) ==> r.vertices@[self.hinge().0 as int]
                == model.vertices@[self.hinge().0 as int],
            !self.movers().contains(self.hinge().1 as int) ==> r.vertices@[self.hinge().1 as int]
                == model.vertices@[self.hinge().1 as int],
    {
        let p0 = model.vertices[self.line.0 as usize];
        let p1 = model.vertices[self.line.1 as usize];
        proof {
            assert(motion.requires((p0, p1, self.full_angle(), t)));
        }
        let m = motion(p0, p1, self.angle, t);
        let act_ref = &act;
        let move_vertex = |v: V| -> (w: V)
            requires
                act_ref.requires((m, v)),
            ensures
                act_ref.ensures((m, v), w),
            { act_ref(m, v) };
        model.transform_selected(self.points, move_vertex)
    }
}

} // verus!
