use vstd::prelude::*;

verus! {

/// One smoothing pass: the first and last items stay, and every other item
/// is replaced by `midpoint` of its two neighbours.
pub fn smooth<T: Copy, F: Fn(T, T) -> T>(items: Vec<T>, midpoint: F) -> (r: Vec<T>)
    requires
        forall|a: T, b: T| midpoint.requires((a, b)),
    ensures
        r.len() == items.len(),
        items.len() > 0 ==> r@[0] == items@[0],
        items.len() > 0 ==> r@[items.len() - 1] == items@[items.len() - 1],
        forall|i: int|
            0 < i < items.len() - 1 ==> midpoint.ensures(
                (items@[i - 1], items@[i + 1]),
                #[trigger] r@[i],
            ),
        (forall|i: int| 0 <= i < items.len() ==> #[trigger] items@[i] == items@[0]) && (forall|
            x: T,
            y: T,
        | midpoint.ensures((x, x), y) ==> y == x) ==> r@ == items@,
{
    let n = items.len();
    let mut r: Vec<T> = Vec::with_capacity(n);
    let mut i: usize = 0;
    while i < n
        invariant
            n == items.len(),
            forall|a: T, b: T| midpoint.requires((a, b)),
            i <= n,
            r.len() == i,
            i > 0 ==> r@[0] == items@[0],
            forall|k: int| 0 <= k < i && k == n - 1 ==> r@[k] == items@[k],
            forall|k: int|
                0 < k < i && k < n - 1 ==> midpoint.ensures(
                    (items@[k - 1], items@[k + 1]),
                    #[trigger] r@[k],
                ),
        decreases n - i,
    {
        if i == 0 || i == n - 1 {
            r.push(items[i]);
        } else {
            let m = midpoint(items[i - 1], items[i + 1]);
            r.push(m);
        }
        i = i + 1;
    }
    proof {
        if (forall|i: int| 0 <= i < items.len() ==> #[trigger] items@[i] == items@[0]) && (forall|
            x: T,
            y: T,
        | midpoint.ensures((x, x), y) ==> y == x) {
            assert forall|k: int| 0 <= k < n implies r@[k] == items@[k] by {
                if 0 < k < n - 1 {
                    assert(items@[k - 1] == items@[0]);
                    assert(items@[k + 1] == items@[0]);
                    assert(midpoint.ensures((items@[k - 1], items@[k + 1]), r@[k]));
                    assert(items@[k] == items@[0]);
                }
            }
            assert(r@ =~= items@);
        }
    }
    r
}


/// Whether `r` is one smoothing pass over `s`: the same length, the same
/// endpoints, and every interior item `midpoint` of the neighbours of its
/// place in `s`.
pub open spec fn is_smoothing<T, F: Fn(T, T) -> T>(midpoint: F, s: Seq<T>, r: Seq<T>) -> bool {
    &&& r.len() == s.len()
    &&& s.len() > 0 ==> r[0] == s[0] && r[s.len() - 1] == s[s.len() - 1]
    &&& forall|i: int|
        0 < i < s.len() - 1 ==> midpoint.ensures((s[i - 1], s[i + 1]), #[trigger] r[i])
}

/// Whether `steps` is a chain of smoothing passes: each sequence in it is
/// one pass over the one before.
pub open spec fn is_smoothing_chain<T, F: Fn(T, T) -> T>(midpoint: F, steps: Seq<Seq<T>>) -> bool {
    forall|i: int|
        0 <= i < steps.len() - 1 ==> is_smoothing(midpoint, steps[i], #[trigger] steps[i + 1])
}

/// Whether `r` comes from `s` by `k` smoothing passes in a row.
pub open spec fn is_smoothed<T, F: Fn(T, T) -> T>(midpoint: F, s: Seq<T>, r: Seq<T>, k: nat) -> bool {
    exists|steps: Seq<Seq<T>>|
        {
            &&& steps.len() == k + 1
            &&& steps[0] == s
            &&& steps[k as int] == r
            &&& #[trigger] is_smoothing_chain(midpoint, steps)
        }
}

/// `passes` smoothing passes in a row: the length and both endpoints are
/// kept, and a constant sequence stays as it is.
pub fn smooth_passes<T: Copy, F: Fn(T, T) -> T>(items: Vec<T>, passes: usize, midpoint: F) -> (r:
    Vec<T>)
    requires
        forall|a: T, b: T| midpoint.requires((a, b)),
    ensures
        is_smoothed(midpoint, items@, r@, passes as nat),
        r.len() == items.len(),
        items.len() > 0 ==> r@[0] == items@[0],
        items.len() > 0 ==> r@[items.len() - 1] == items@[items.len() - 1],
        passes == 0 ==> r@ == items@,
        (forall|i: int| 0 <= i < items.len() ==> #[trigger] items@[i] == items@[0]) && (forall|
            x: T,
            y: T,
        | midpoint.ensures((x, x), y) ==> y == x) ==> r@ == items@,
{
    let ghost original = items@;
    let ghost mut steps: Seq<Seq<T>> = seq![items@];
    let mut current = items;
    let mut k: usize = 0;
    while k < passes
        invariant
            forall|a: T, b: T| midpoint.requires((a, b)),
            k <= passes,
            steps.len() == k + 1,
            steps[0] == original,
            steps[k as int] == current@,
            is_smoothing_chain(midpoint, steps),
            current.len() == original.len(),
            original.len() > 0 ==> current@[0] == original[0],
            original.len() > 0 ==> current@[original.len() - 1] == original[original.len() - 1],
            k == 0 ==> current@ == original,
            (forall|i: int| 0 <= i < original.len() ==> #[trigger] original[i] == original[0]) && (
            forall|x: T, y: T| midpoint.ensures((x, x), y) ==> y == x) ==> current@ == original,
        decreases passes - k,
    {
        let ghost before = current@;
        current = smooth(current, &midpoint);
        proof {
            assert forall|i: int| 0 < i < before.len() - 1 implies midpoint.ensures(
                (before[i - 1], before[i + 1]),
                #[trigger] current@[i],
            ) by {
                assert((&midpoint).ensures((before[i - 1], before[i + 1]), current@[i]));
            }
            assert(is_smoothing(midpoint, before, current@));
            let longer = steps.push(current@);
            assert forall|i: int| 0 <= i < longer.len() - 1 implies is_smoothing(
                midpoint,
                longer[i],
                #[trigger] longer[i + 1],
            ) by {
                if i < k {
                    assert(longer[i] == steps[i] && longer[i + 1] == steps[i + 1]);
                }
            }
            steps = longer;
        }
        k = k + 1;
    }
    proof {
        assert(steps.len() == passes + 1);
    }
    current
}

} // verus!
