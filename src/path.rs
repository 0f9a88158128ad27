use vstd::prelude::*;

verus! {

/// Samples taken on each segment between two waypoints.
pub const BEZIER_STEPS: usize = 16;

/// Whether `v` can be the `j`-th sample of the segment from waypoint `i` to
/// waypoint `i + 1`: `sample` applied to what `point_at` gives for both ends.
pub open spec fn is_segment_sample<P, FP: Fn(usize) -> P, FS: Fn(P, P, usize) -> P>(
    point_at: FP,
    sample: FS,
    i: int,
    j: int,
    v: P,
) -> bool {
    exists|p1: P, p4: P|
        {
            &&& point_at.ensures((i as usize,), p1)
            &&& point_at.ensures(((i + 1) as usize,), p4)
            &&& #[trigger] sample.ensures((p1, p4, j as usize), v)
        }
}

/// A path through a list of waypoints.
pub struct Path<V> {
    points: Vec<V>,
}

impl<V: Copy> Path<V> {
    /// The waypoints, in the order they were added.
    pub closed spec fn waypoints(&self) -> Seq<V> {
        self.points@
    }

    /// A path with no waypoint yet.
    pub fn new() -> (r: Path<V>)
        ensures
            r.waypoints() == Seq::<V>::empty(),
    {
        Path { points: Vec::new() }
    }

    /// Appends a waypoint; the path is handed back for further calls.
    pub fn go_to(&mut self, target: V) -> (r: &mut Self)
        ensures
            r.waypoints() == old(self).waypoints().push(target),
            *final(self) == *final(r),
    {
        self.points.push(target);
        self
    }

    /// The number of waypoints.
    pub fn len(&self) -> (r: usize)
        ensures
            r == self.waypoints().len(),
    {
        self.points.len()
    }

    /// The waypoint at `index`.
    pub fn waypoint(&self, index: usize) -> (r: V)
        requires
            index < self.waypoints().len(),
        ensures
            r == self.waypoints()[index as int],
    {
        self.points[index]
    }

    /// The dense samples of the path: what `point_at` gives for the first
    /// waypoint, then for each pair of consecutive waypoints `i` and `i + 1`
    /// the samples `sample(point_at(i), point_at(i + 1), j)` for `j` from 1 to
    /// `BEZIER_STEPS`.
    pub fn get_points<P: Copy, FP: Fn(usize) -> P, FS: Fn(P, P, usize) -> P>(
        &self,
        point_at: FP,
        sample: FS,
    ) -> (r: Vec<P>)
        requires
            self.waypoints().len() >= 1,
            forall|i: usize| i < self.waypoints().len() ==> point_at.requires((i,)),
            forall|a: P, b: P, j: usize| 1 <= j <= BEZIER_STEPS ==> sample.requires((a, b, j)),
        ensures
            r.len() == 1 + BEZIER_STEPS * (self.waypoints().len() - 1),
            point_at.ensures((0usize,), r@[0]),
            forall|i: int, j: int|
                0 <= i < self.waypoints().len() - 1 && 1 <= j <= BEZIER_STEPS
                    ==> #[trigger] is_segment_sample(
                    point_at,
                    sample,
                    i,
                    j,
                    r@[1 + BEZIER_STEPS * i + (j - 1)],
                ),
    {
        let n = self.points.len();
        let mut r: Vec<P> = Vec::new();
        r.push(point_at(0));
        let mut i: usize = 0;
        while i + 1 < n
            invariant
                n == self.waypoints().len(),
                n >= 1,
                i < n,
                forall|k: usize| k < n ==> point_at.requires((k,)),
                forall|a: P, b: P, j: usize| 1 <= j <= BEZIER_STEPS ==> sample.requires((a, b, j)),
                r.len() == 1 + BEZIER_STEPS * i,
                point_at.ensures((0usize,), r@[0]),
                forall|k: int, j: int|
                    0 <= k < i && 1 <= j <= BEZIER_STEPS ==> #[trigger] is_segment_sample(
                        point_at,
                        sample,
                        k,
                        j,
                        r@[1 + BEZIER_STEPS * k + (j - 1)],
                    ),
            decreases n - i,
        {
            let p1 = point_at(i);
            let p4 = point_at(i + 1);
            let ghost start = r@;
            let mut j: usize = 1;
            while j <= BEZIER_STEPS
                invariant
                    i + 1 < n,
                    1 <= j <= BEZIER_STEPS + 1,
                    forall|a: P, b: P, j: usize|
                        1 <= j <= BEZIER_STEPS ==> sample.requires((a, b, j)),
                    point_at.ensures((i,), p1),
                    point_at.ensures(((i + 1) as usize,), p4),
                    start.len() == 1 + BEZIER_STEPS * i,
                    r.len() == start.len() + (j - 1),
                    r@.subrange(0, start.len() as int) == start,
                    forall|m: int|
                        1 <= m < j ==> sample.ensures(
                            (p1, p4, m as usize),
                            #[trigger] r@[start.len() + (m - 1)],
                        ),
                decreases BEZIER_STEPS + 1 - j,
            {
                let v = sample(p1, p4, j);
                let ghost before = r@;
                r.push(v);
                proof {
                    assert(r@.subrange(0, start.len() as int) == before.subrange(
                        0,
                        start.len() as int,
                    ));
                }
                j = j + 1;
            }
            proof {
                assert forall|k: int, m: int|
                    0 <= k < i + 1 && 1 <= m <= BEZIER_STEPS implies #[trigger] is_segment_sample(
                    point_at,
                    sample,
                    k,
                    m,
                    r@[1 + BEZIER_STEPS * k + (m - 1)],
                ) by {
                    let idx = 1 + BEZIER_STEPS * k + (m - 1);
                    if k < i {
                        assert(r@[idx] == start[idx]);
                        assert(is_segment_sample(point_at, sample, k, m, start[idx]));
                    } else {
                        assert(idx == start.len() + (m - 1));
                        assert(sample.ensures((p1, p4, m as usize), r@[idx]));
                        assert(k as usize == i);
                    }
                }
                assert(r@[0] == start[0]);
            }
            i = i + 1;
        }
        r
    }
}

} // verus!
