use vstd::prelude::*;

verus! {

/// Proof that setting bit `k` of `d` adds exactly `k` to the bits that are set.
proof fn lemma_set_bit(d: u32, k: u32, b: u32)
    requires
        k < 32,
        b < 32,
    ensures
        word_has(d | (1u32 << k), b) == (word_has(d, b) || k == b),
{
    assert(((d | (1u32 << k)) & (1u32 << b) != 0) == ((d & (1u32 << b) != 0) || k == b))
        by (bit_vector)
        requires
            k < 32,
            b < 32,
    ;
}

/// Proof that the empty word has no bit set.
proof fn lemma_no_bit(b: u32)
    requires
        b < 32,
    ensures
        (0u32 & (1u32 << b)) == 0,
{
    assert((0u32 & (1u32 << b)) == 0) by (bit_vector);
}

/// Whether bit `b` of the word `d` is set.
pub open spec fn word_has(d: u32, b: u32) -> bool {
    (d & (1u32 << b)) != 0
}

/// A set of integers in `[0, 32)`, one bit of a word per member.
#[derive(Clone, Copy, PartialEq, Eq, Structural, Debug)]
pub struct BitSet {
    data: u32,
}

impl BitSet {
    /// Whether bit `b` of the underlying word is set.
    pub closed spec fn word_bit(self, b: u32) -> bool {
        word_has(self.data, b)
    }

    /// Whether `bit` is a member; nothing outside `[0, 32)` ever is.
    pub open spec fn contains(self, bit: int) -> bool {
        0 <= bit < 32 && self.word_bit(bit as u32)
    }

    /// The empty set.
    pub fn new() -> (r: BitSet)
        ensures
            forall|b: int| !r.contains(b),
    {
        proof {
            assert forall|b: int| !(BitSet { data: 0 }).contains(b) by {
                if 0 <= b < 32 {
                    lemma_no_bit(b as u32);
                }
            }
        }
        BitSet { data: 0 }
    }

    /// The set whose members are exactly the listed bits.
    pub fn with_bits(bits: &[u8]) -> (r: BitSet)
        requires
            forall|i: int| 0 <= i < bits@.len() ==> bits@[i] < 32,
        ensures
            forall|b: u8| r.contains(b as int) <==> bits@.contains(b),
    {
        let mut data: u32 = 0;
        let mut i: usize = 0;
        proof {
            assert forall|b: u32| b < 32 implies !word_has(data, b) by {
                lemma_no_bit(b);
            }
        }
        while i < bits.len()
            invariant
                i <= bits@.len(),
                forall|k: int| 0 <= k < bits@.len() ==> bits@[k] < 32,
                forall|b: u32|
                    b < 32 ==> (#[trigger] word_has(data, b) <==> bits@.subrange(
                        0,
                        i as int,
                    ).contains(b as u8)),
            decreases bits@.len() - i,
        {
            let k = bits[i];
            proof {
                assert forall|b: u32|
                    b < 32 implies (#[trigger] word_has(data | (1u32 << (k as u32)), b)
                        <==> bits@.subrange(0, i + 1).contains(b as u8)) by {
                    lemma_set_bit(data, k as u32, b);
                    let prefix = bits@.subrange(0, i as int);
                    assert(word_has(data, b) <==> prefix.contains(b as u8));
                    let longer = bits@.subrange(0, i + 1);
                    assert(longer == prefix.push(k));
                    if prefix.contains(b as u8) {
                        let w = choose|w: int| 0 <= w < prefix.len() && prefix[w] == b as u8;
                        assert(longer[w] == b as u8);
                    }
                    if longer.contains(b as u8) && b != k as u32 {
                        let w = choose|w: int| 0 <= w < longer.len() && longer[w] == b as u8;
                        assert(w < i);
                        assert(prefix[w] == b as u8);
                    }
                    if b == k as u32 {
                        assert(longer[i as int] == b as u8);
                    }
                }
            }
            data = data | (1u32 << (k as u32));
            i = i + 1;
        }
        proof {
            assert(bits@.subrange(0, bits@.len() as int) == bits@);
            assert forall|b: u8| (BitSet { data }).contains(b as int) <==> bits@.contains(b) by {
                if b < 32 {
                    assert((b as u32) as u8 == b);
                    assert(word_has(data, b as u32) <==> bits@.subrange(
                        0,
                        bits@.len() as int,
                    ).contains(b));
                } else if bits@.contains(b) {
                    let w = choose|w: int| 0 <= w < bits@.len() && bits@[w] == b;
                    assert(bits@[w] < 32);
                }
            }
        }
        BitSet { data }
    }

    /// Whether `bit` is a member.
    pub fn has(self, bit: u8) -> (r: bool)
        requires
            bit < 32,
        ensures
            r == self.contains(bit as int),
    {
        (self.data & (1u32 << bit)) != 0
    }

    /// An iterator over the members in increasing order.
    pub fn into_iter(self) -> (r: BitSetIterator)
        ensures
            r.wf(),
            r.source() == self,
            r.position() == -1,
    {
        BitSetIterator::new(self)
    }
}

impl BitSet {
    /// The members above `p`, in increasing order.
    pub open spec fn members_above(self, p: int) -> Seq<u8>
        decreases 31 - p,
    {
        if p >= 31 {
            Seq::empty()
        } else if self.contains(p + 1) {
            seq![(p + 1) as u8] + self.members_above(p + 1)
        } else {
            self.members_above(p + 1)
        }
    }

    /// Skipping bits that are not members leaves the members above unchanged.
    proof fn lemma_skip_non_members(self, p: int, q: int)
        requires
            -1 <= p <= q <= 31,
            forall|k: int| p < k <= q ==> !self.contains(k),
        ensures
            self.members_above(p) == self.members_above(q),
        decreases q - p,
    {
        if p < q {
            self.lemma_skip_non_members(p + 1, q);
        }
    }

    /// The members above `p` are members, lie above `p`, come in strictly
    /// increasing order, and include every member above `p`.
    pub proof fn lemma_members_above(self, p: int)
        requires
            -1 <= p <= 31,
        ensures
            forall|i: int|
                0 <= i < self.members_above(p).len() ==> p < #[trigger] self.members_above(p)[i]
                    && self.contains(self.members_above(p)[i] as int),
            forall|i: int, k: int|
                0 <= i < k < self.members_above(p).len() ==> #[trigger] self.members_above(p)[i]
                    < #[trigger] self.members_above(p)[k],
            forall|b: u8| p < b && self.contains(b as int) ==> self.members_above(p).contains(b),
        decreases 31 - p,
    {
        if p < 31 {
            self.lemma_members_above(p + 1);
            let rest = self.members_above(p + 1);
            if self.contains(p + 1) {
                let all = seq![(p + 1) as u8] + rest;
                assert(self.members_above(p) == all);
                assert forall|i: int| 0 <= i < all.len() implies p < #[trigger] all[i]
                    && self.contains(all[i] as int) by {
                    if i > 0 {
                        assert(all[i] == rest[i - 1]);
                    }
                }
                assert forall|i: int, k: int| 0 <= i < k < all.len() implies #[trigger] all[i]
                    < #[trigger] all[k] by {
                    assert(all[k] == rest[k - 1]);
                    if i > 0 {
                        assert(all[i] == rest[i - 1]);
                    }
                }
                assert forall|b: u8| p < b && self.contains(b as int) implies all.contains(b) by {
                    if b as int == p + 1 {
                        assert(all[0] == b);
                    } else {
                        let w = choose|w: int| 0 <= w < rest.len() && rest[w] == b;
                        assert(all[w + 1] == b);
                    }
                }
            }
        }
    }
}

/// Walking the set built from a list of bits yields that list's values in
/// strictly increasing order, each once.
pub proof fn lemma_iteration_yields_sorted_list(bits: Seq<u8>, set: BitSet)
    requires
        forall|i: int| 0 <= i < bits.len() ==> bits[i] < 32,
        forall|b: u8| set.contains(b as int) <==> bits.contains(b),
    ensures
        forall|i: int, k: int|
            0 <= i < k < set.members_above(-1).len() ==> #[trigger] set.members_above(-1)[i]
                < #[trigger] set.members_above(-1)[k],
        forall|b: u8| set.members_above(-1).contains(b) <==> bits.contains(b),
{
    set.lemma_members_above(-1);
    let all = set.members_above(-1);
    assert forall|b: u8| all.contains(b) <==> bits.contains(b) by {
        if all.contains(b) {
            let w = choose|w: int| 0 <= w < all.len() && #[trigger] all[w] == b;
            assert(set.contains(all[w] as int));
        }
    }
}

impl Default for BitSet {
    /// The empty set.
    fn default() -> (r: BitSet)
        ensures
            forall|b: int| !r.contains(b),
    {
        BitSet::new()
    }
}

/// Walks the members of a `BitSet` from the smallest up.
#[derive(Clone, Copy)]
pub struct BitSetIterator {
    set: BitSet,
    i: i8,
}

impl BitSetIterator {
    /// The set being walked.
    pub closed spec fn source(self) -> BitSet {
        self.set
    }

    /// The last bit examined; `-1` before the first call of `next`.
    pub closed spec fn position(self) -> int {
        self.i as int
    }

    /// The position lies in `[-1, 31]`.
    pub closed spec fn wf(self) -> bool {
        -1 <= self.i <= 31
    }

    /// An iterator positioned before the smallest member of `set`.
    pub fn new(set: BitSet) -> (r: BitSetIterator)
        ensures
            r.wf(),
            r.source() == set,
            r.position() == -1,
    {
        BitSetIterator { set, i: -1 }
    }

    /// The least member above the position, which then becomes the position;
    /// `None` once no member is left above it.
    pub fn next(&mut self) -> (r: Option<u8>)
        requires
            old(self).wf(),
        ensures
            final(self).wf(),
            final(self).source() == old(self).source(),
            match r {
                Some(j) => {
                    &&& old(self).position() < j
                    &&& old(self).source().contains(j as int)
                    &&& forall|k: int|
                        old(self).position() < k < j ==> !old(self).source().contains(k)
                    &&& final(self).position() == j
                },
                None => forall|k: int|
                    old(self).position() < k ==> !old(self).source().contains(k),
            },
            old(self).source().members_above(old(self).position()) == match r {
                Some(j) => seq![j] + final(self).source().members_above(final(self).position()),
                None => Seq::<u8>::empty(),
            },
    {
        while self.i < 31
            invariant
                -1 <= old(self).i,
                -1 <= self.i <= 31,
                self.set == old(self).set,
                old(self).i <= self.i,
                forall|k: int| old(self).i < k <= self.i ==> !self.set.contains(k),
            decreases 31 - self.i,
        {
            let ghost previous = self.i as int;
            self.i = self.i + 1;
            if self.set.has(self.i as u8) {
                proof {
                    assert(previous == self.i - 1);
                    self.set.lemma_skip_non_members(old(self).i as int, previous);
                }
                return Some(self.i as u8);
            }
        }
        proof {
            self.set.lemma_skip_non_members(old(self).i as int, 31);
        }
        None
    }
}

} // verus!
