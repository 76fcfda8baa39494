use vstd::prelude::*;

verus! {

broadcast use vstd::seq_lib::group_to_multiset_ensures, vstd::multiset::group_multiset_axioms;

/// `s[lo..hi]` is in non-descending order.
pub open spec fn sorted_between(s: Seq<i32>, lo: int, hi: int) -> bool {
    forall|i: int, j: int| lo <= i <= j < hi ==> s[i] <= s[j]
}

/// The whole sequence is in non-descending order.
pub open spec fn is_sorted(s: Seq<i32>) -> bool {
    sorted_between(s, 0, s.len() as int)
}

/// Exchanging two neighbours keeps the multiset of elements.
proof fn lemma_swap_keeps_multiset(s: Seq<i32>, j: int)
    requires
        0 <= j,
        j + 1 < s.len(),
    ensures
        s.update(j, s[j + 1]).update(j + 1, s[j]).to_multiset() =~= s.to_multiset(),
{
    let t = s.update(j, s[j + 1]);
    assert(t[j + 1] == s[j + 1]);
}

/// Sorts `arr` in place into non-descending order, stopping as soon as a
/// pass over the unsorted prefix makes no exchange. Returns the number of
/// passes made: one for an input that is already sorted and not empty.
pub fn bubble_sort(arr: &mut [i32]) -> (passes: usize)
    ensures
        is_sorted(final(arr)@),
        final(arr)@.to_multiset() == old(arr)@.to_multiset(),
        passes <= old(arr)@.len(),
        is_sorted(old(arr)@) ==> passes == (if old(arr)@.len() == 0 { 0usize } else { 1usize }),
{
    let n = arr.len();
    let mut i: usize = 0;
    let mut done = false;
    while i < n && !done
        invariant
            n == arr@.len(),
            i <= n,
            arr@.to_multiset() == old(arr)@.to_multiset(),
            // the last `i` places hold the largest elements, in order
            sorted_between(arr@, n - i, n as int),
            forall|a: int, b: int| 0 <= a < n - i <= b < n ==> arr@[a] <= arr@[b],
            done ==> is_sorted(arr@),
            done ==> i >= 1,
            is_sorted(old(arr)@) && !done ==> i == 0 && arr@ == old(arr)@,
            is_sorted(old(arr)@) && done ==> i == 1,
        decreases n - i,
    {
        let mut sorted = true;
        let mut j: usize = 0;
        while j + 1 < n - i
            invariant
                n == arr@.len(),
                i < n,
                j < n - i,
                arr@.to_multiset() == old(arr)@.to_multiset(),
                sorted_between(arr@, n - i, n as int),
                forall|a: int, b: int| 0 <= a < n - i <= b < n ==> arr@[a] <= arr@[b],
                // arr[j] is the largest of arr[0..=j]
                forall|a: int| 0 <= a <= j ==> arr@[a] <= arr@[j as int],
                sorted ==> sorted_between(arr@, 0, j + 1),
                is_sorted(old(arr)@) && i == 0 ==> sorted && arr@ == old(arr)@,
            decreases n - i - j,
        {
            if arr[j] > arr[j + 1] {
                let a = arr[j];
                let b = arr[j + 1];
                proof {
                    lemma_swap_keeps_multiset(arr@, j as int);
                }
                arr[j] = b;
                arr[j + 1] = a;
                sorted = false;
            }
            j = j + 1;
        }
        i = i + 1;
        if sorted {
            done = true;
        }
    }
    i
}

/// The multiset of `s[lo..hi]` is that of `s[lo..mid]` together with that of `s[mid..hi]`.
proof fn lemma_split_multiset(s: Seq<i32>, lo: int, mid: int, hi: int)
    requires
        0 <= lo <= mid <= hi <= s.len(),
    ensures
        s.subrange(lo, hi).to_multiset() =~= s.subrange(lo, mid).to_multiset().add(
            s.subrange(mid, hi).to_multiset(),
        ),
{
    assert(s.subrange(lo, hi) =~= s.subrange(lo, mid) + s.subrange(mid, hi));
    vstd::seq_lib::lemma_multiset_commutative(s.subrange(lo, mid), s.subrange(mid, hi));
}

/// Merges the sorted runs `a[lo..mid]` and `a[mid..hi]` into one sorted run,
/// using `aux` as scratch space.
fn merge(a: &mut [i32], aux: &mut Vec<i32>, lo: usize, mid: usize, hi: usize)
    requires
        lo < mid < hi <= old(a)@.len(),
        old(aux)@.len() == old(a)@.len(),
        sorted_between(old(a)@, lo as int, mid as int),
        sorted_between(old(a)@, mid as int, hi as int),
    ensures
        final(aux)@.len() == old(aux)@.len(),
        final(a)@.len() == old(a)@.len(),
        sorted_between(final(a)@, lo as int, hi as int),
        final(a)@.subrange(lo as int, hi as int).to_multiset() == old(a)@.subrange(
            lo as int,
            hi as int,
        ).to_multiset(),
        forall|t: int| 0 <= t < old(a)@.len() && !(lo <= t < hi) ==> final(a)@[t] == old(a)@[t],
{
    let n = a.len();
    let mut k: usize = lo;
    while k < hi
        invariant
            lo <= k <= hi <= n,
            a@ == old(a)@,
            a@.len() == n,
            aux@.len() == n,
            forall|t: int| lo <= t < k ==> aux@[t] == a@[t],
        decreases hi - k,
    {
        aux[k] = a[k];
        k = k + 1;
    }
    assert(aux@.subrange(lo as int, hi as int) =~= old(a)@.subrange(lo as int, hi as int));
    let mut i: usize = lo;
    let mut j: usize = mid;
    k = lo;
    while k < hi
        invariant
            lo <= i <= mid <= j <= hi <= n,
            k == i + (j - mid),
            a@.len() == n,
            old(a)@.len() == n,
            aux@.len() == n,
            aux@.subrange(lo as int, hi as int) == old(a)@.subrange(lo as int, hi as int),
            sorted_between(aux@, lo as int, mid as int),
            sorted_between(aux@, mid as int, hi as int),
            forall|t: int| 0 <= t < n && !(lo <= t < hi) ==> a@[t] == old(a)@[t],
            a@.subrange(lo as int, k as int).to_multiset() == aux@.subrange(
                lo as int,
                i as int,
            ).to_multiset().add(aux@.subrange(mid as int, j as int).to_multiset()),
            sorted_between(a@, lo as int, k as int),
            lo < k && i < mid ==> a@[k - 1] <= aux@[i as int],
            lo < k && j < hi ==> a@[k - 1] <= aux@[j as int],
        decreases hi - k,
    {
        let ghost a0 = a@;
        if j >= hi || (i < mid && aux[i] <= aux[j]) {
            let v = aux[i];
            a[k] = v;
            proof {
                assert(a@.subrange(lo as int, k + 1) =~= a0.subrange(lo as int, k as int).push(v));
                assert(aux@.subrange(lo as int, i + 1) =~= aux@.subrange(lo as int, i as int).push(v));
            }
            i = i + 1;
        } else {
            let v = aux[j];
            a[k] = v;
            proof {
                assert(a@.subrange(lo as int, k + 1) =~= a0.subrange(lo as int, k as int).push(v));
                assert(aux@.subrange(mid as int, j + 1) =~= aux@.subrange(mid as int, j as int).push(v));
            }
            j = j + 1;
        }
        k = k + 1;
    }
    proof {
        lemma_split_multiset(aux@, lo as int, mid as int, hi as int);
        assert(aux@.subrange(lo as int, hi as int).to_multiset() == old(a)@.subrange(
            lo as int,
            hi as int,
        ).to_multiset());
    }
}

/// Sorts `a[lo..hi]` in place, leaving the rest of `a` as it was.
fn sort_merge(a: &mut [i32], aux: &mut Vec<i32>, lo: usize, hi: usize)
    requires
        lo <= hi <= old(a)@.len(),
        old(aux)@.len() == old(a)@.len(),
    ensures
        final(aux)@.len() == old(aux)@.len(),
        final(a)@.len() == old(a)@.len(),
        sorted_between(final(a)@, lo as int, hi as int),
        final(a)@.subrange(lo as int, hi as int).to_multiset() == old(a)@.subrange(
            lo as int,
            hi as int,
        ).to_multiset(),
        forall|t: int| 0 <= t < old(a)@.len() && !(lo <= t < hi) ==> final(a)@[t] == old(a)@[t],
    decreases hi - lo,
{
    if hi - lo <= 1 {
        return;
    }
    let mid = lo + (hi - lo) / 2;
    let ghost a0 = a@;
    sort_merge(a, aux, lo, mid);
    let ghost a1 = a@;
    sort_merge(a, aux, mid, hi);
    let ghost a2 = a@;
    proof {
        assert(a2.subrange(lo as int, mid as int) =~= a1.subrange(lo as int, mid as int));
        assert(a1.subrange(mid as int, hi as int) =~= a0.subrange(mid as int, hi as int));
        lemma_split_multiset(a0, lo as int, mid as int, hi as int);
        lemma_split_multiset(a2, lo as int, mid as int, hi as int);
    }
    merge(a, aux, lo, mid, hi);
}

/// Sorts `a` in place into non-descending order with a top-down merge sort
/// over a scratch buffer of the same length.
pub fn merge_sort(a: &mut [i32])
    ensures
        is_sorted(final(a)@),
        final(a)@.to_multiset() == old(a)@.to_multiset(),
{
    let n = a.len();
    let mut aux: Vec<i32> = vec![0; n];
    sort_merge(a, &mut aux, 0, n);
    proof {
        assert(a@.subrange(0, n as int) =~= a@);
        assert(old(a)@.subrange(0, n as int) =~= old(a)@);
    }
}

} // verus!
