use vstd::prelude::*;

use crate::bit_set::BitSet;

verus! {

/// A triangle whose vertex indices are moved up by `offset`.
pub open spec fn shifted_triangle(t: (u8, u8, u8), offset: int) -> (u8, u8, u8) {
    ((t.0 + offset) as u8, (t.1 + offset) as u8, (t.2 + offset) as u8)
}

/// A line whose vertex indices are moved up by `offset`; its attribute stays.
pub open spec fn shifted_line<A>(l: (u8, u8, A), offset: int) -> (u8, u8, A) {
    ((l.0 + offset) as u8, (l.1 + offset) as u8, l.2)
}

/// An indexed mesh: vertices, triangles over them, and lines over them that
/// carry an attribute each (the opacity they are drawn with).
///
/// `V` is the vertex type and `A` the line attribute; the index logic does not
/// depend on either.
#[derive(Clone, Debug)]
pub struct Model<V, A> {
    pub vertices: Vec<V>,
    pub triangles: Vec<(u8, u8, u8)>,
    pub lines: Vec<(u8, u8, A)>,
}

impl<V, A> Model<V, A> {
    /// Every triangle and line refers to an existing vertex, and vertex
    /// indices fit in a byte.
    pub open spec fn wf(&self) -> bool {
        &&& self.vertices.len() < 256
        &&& forall|i: int|
            0 <= i < self.triangles.len() ==> {
                let t = #[trigger] self.triangles@[i];
                &&& t.0 < self.vertices.len()
                &&& t.1 < self.vertices.len()
                &&& t.2 < self.vertices.len()
            }
        &&& forall|i: int|
            0 <= i < self.lines.len() ==> {
                let l = #[trigger] self.lines@[i];
                &&& l.0 < self.vertices.len()
                &&& l.1 < self.vertices.len()
            }
    }

    /// Whether the model is well formed (see `wf`).
    pub fn is_valid(&self) -> (r: bool)
        ensures
            r == self.wf(),
    {
        let n = self.vertices.len();
        if n >= 256 {
            return false;
        }
        let mut i: usize = 0;
        while i < self.triangles.len()
            invariant
                n == self.vertices.len(),
                i <= self.triangles.len(),
                forall|k: int|
                    0 <= k < i ==> {
                        let t = #[trigger] self.triangles@[k];
                        &&& t.0 < n
                        &&& t.1 < n
                        &&& t.2 < n
                    },
            decreases self.triangles.len() - i,
        {
            let t = &self.triangles[i];
            if t.0 as usize >= n || t.1 as usize >= n || t.2 as usize >= n {
                return false;
            }
            i = i + 1;
        }
        let mut j: usize = 0;
        while j < self.lines.len()
            invariant
                n == self.vertices.len(),
                j <= self.lines.len(),
                forall|k: int|
                    0 <= k < j ==> {
                        let l = #[trigger] self.lines@[k];
                        &&& l.0 < n
                        &&& l.1 < n
                    },
            decreases self.lines.len() - j,
        {
            let l = &self.lines[j];
            if l.0 as usize >= n || l.1 as usize >= n {
                return false;
            }
            j = j + 1;
        }
        true
    }
}

impl<V: Copy, A: Copy> Model<V, A> {
    /// The union of two meshes: the vertices of `other` follow those of
    /// `self`, and the triangles and lines of `other` are re-based onto them.
    pub fn merge(self, other: Self) -> (r: Self)
        requires
            self.wf(),
            other.wf(),
            self.vertices.len() + other.vertices.len() < 256,
        ensures
            r.wf(),
            r.vertices@ == self.vertices@ + other.vertices@,
            r.triangles@ == self.triangles@ + other.triangles@.map_values(
                |t: (u8, u8, u8)| shifted_triangle(t, self.vertices.len() as int),
            ),
            r.lines@ == self.lines@ + other.lines@.map_values(
                |l: (u8, u8, A)| shifted_line(l, self.vertices.len() as int),
            ),
    {
        let n = self.vertices.len();
        let offset = n as u8;
        let total = n + other.vertices.len();
        let ghost mine = self;
        let mut vertices = self.vertices;
        let mut triangles = self.triangles;
        let mut lines = self.lines;
        let mut appended = other.vertices;
        vertices.append(&mut appended);
        let mut i: usize = 0;
        while i < other.triangles.len()
            invariant
                other.wf(),
                n == mine.vertices.len(),
                offset == n,
                total == n + other.vertices.len(),
                total < 256,
                i <= other.triangles.len(),
                triangles@ == mine.triangles@ + other.triangles@.subrange(0, i as int).map_values(
                    |t: (u8, u8, u8)| shifted_triangle(t, n as int),
                ),
            decreases other.triangles.len() - i,
        {
            let (a, b, c) = other.triangles[i];
            proof {
                let t = other.triangles@[i as int];
                assert(t.0 < other.vertices.len());
            }
            triangles.push((a + offset, b + offset, c + offset));
            proof {
                assert(other.triangles@.subrange(0, i + 1) == other.triangles@.subrange(
                    0,
                    i as int,
                ).push(other.triangles@[i as int]));
            }
            i = i + 1;
        }
        let mut j: usize = 0;
        while j < other.lines.len()
            invariant
                other.wf(),
                n == mine.vertices.len(),
                offset == n,
                total == n + other.vertices.len(),
                total < 256,
                j <= other.lines.len(),
                lines@ == mine.lines@ + other.lines@.subrange(0, j as int).map_values(
                    |l: (u8, u8, A)| shifted_line(l, n as int),
                ),
            decreases other.lines.len() - j,
        {
            let (a, b, alpha) = other.lines[j];
            proof {
                let l = other.lines@[j as int];
                assert(l.0 < other.vertices.len());
            }
            lines.push((a + offset, b + offset, alpha));
            proof {
                assert(other.lines@.subrange(0, j + 1) == other.lines@.subrange(0, j as int).push(
                    other.lines@[j as int],
                ));
            }
            j = j + 1;
        }
        proof {
            assert(other.triangles@.subrange(0, other.triangles.len() as int)
                == other.triangles@);
            assert(other.lines@.subrange(0, other.lines.len() as int) == other.lines@);
        }
        let r = Model { vertices, triangles, lines };
        proof {
            assert forall|k: int| 0 <= k < r.triangles.len() implies {
                let t = #[trigger] r.triangles@[k];
                &&& t.0 < r.vertices.len()
                &&& t.1 < r.vertices.len()
                &&& t.2 < r.vertices.len()
            } by {
                if k >= mine.triangles.len() {
                    let _ = other.triangles@[k - mine.triangles.len()];
                } else {
                    let _ = mine.triangles@[k];
                }
            }
            assert forall|k: int| 0 <= k < r.lines.len() implies {
                let l = #[trigger] r.lines@[k];
                &&& l.0 < r.vertices.len()
                &&& l.1 < r.vertices.len()
            } by {
                if k >= mine.lines.len() {
                    let _ = other.lines@[k - mine.lines.len()];
                } else {
                    let _ = mine.lines@[k];
                }
            }
        }
        r
    }

    /// The same mesh with `f` applied to every vertex.
    pub fn transform<F: Fn(V) -> V>(self, f: F) -> (r: Self)
        requires
            forall|v: V| f.requires((v,)),
        ensures
            r.vertices.len() == self.vertices.len(),
            forall|i: int|
                0 <= i < self.vertices.len() ==> f.ensures(
                    (self.vertices@[i],),
                    #[trigger] r.vertices@[i],
                ),
            r.triangles@ == self.triangles@,
            r.lines@ == self.lines@,
            r.wf() == self.wf(),
    {
        let mut vertices: Vec<V> = Vec::with_capacity(self.vertices.len());
        let mut i: usize = 0;
        while i < self.vertices.len()
            invariant
                forall|v: V| f.requires((v,)),
                i <= self.vertices.len(),
                vertices.len() == i,
                forall|k: int|
                    0 <= k < i ==> f.ensures((self.vertices@[k],), #[trigger] vertices@[k]),
            decreases self.vertices.len() - i,
        {
            let v = f(self.vertices[i]);
            vertices.push(v);
            i = i + 1;
        }
        let r = Model { vertices, triangles: self.triangles, lines: self.lines };
        proof {
            assert(r.triangles == self.triangles);
            assert(r.lines == self.lines);
            assert(r.vertices.len() == self.vertices.len());
        }
        r
    }

    /// The same mesh with `f` applied to the vertices whose index is in
    /// `selected`; every other vertex stays as it is.
    pub fn transform_selected<F: Fn(V) -> V>(self, selected: BitSet, f: F) -> (r: Self)
        requires
            forall|v: V| f.requires((v,)),
        ensures
            r.vertices.len() == self.vertices.len(),
            forall|i: int|
                0 <= i < self.vertices.len() && selected.contains(i) ==> f.ensures(
                    (self.vertices@[i],),
                    #[trigger] r.vertices@[i],
                ),
            forall|i: int|
                0 <= i < self.vertices.len() && !selected.contains(i) ==> #[trigger] r.vertices@[i]
                    == self.vertices@[i],
            r.triangles@ == self.triangles@,
            r.lines@ == self.lines@,
            r.wf() == self.wf(),
    {
        let mut vertices: Vec<V> = Vec::with_capacity(self.vertices.len());
        let mut i: usize = 0;
        while i < self.vertices.len()
            invariant
                forall|v: V| f.requires((v,)),
                i <= self.vertices.len(),
                vertices.len() == i,
                forall|k: int|
                    0 <= k < i && selected.contains(k) ==> f.ensures(
                        (self.vertices@[k],),
                        #[trigger] vertices@[k],
                    ),
                forall|k: int|
                    0 <= k < i && !selected.contains(k) ==> #[trigger] vertices@[k]
                        == self.vertices@[k],
            decreases self.vertices.len() - i,
        {
            let v = self.vertices[i];
            if i < 32 && selected.has(i as u8) {
                vertices.push(f(v));
            } else {
                vertices.push(v);
            }
            i = i + 1;
        }
        let r = Model { vertices, triangles: self.triangles, lines: self.lines };
        proof {
            assert(r.triangles == self.triangles);
            assert(r.lines == self.lines);
            assert(r.vertices.len() == self.vertices.len());
        }
        r
    }
}

} // verus!
