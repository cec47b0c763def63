//! Ascending lists without repeats, as sets of small numbers.
use vstd::prelude::*;

verus! {

/// Every item is smaller than all that follow it.
pub open spec fn ascending(s: Seq<u32>) -> bool {
    forall|i: int, j: int| 0 <= i < j < s.len() ==> s[i] < s[j]
}

/// Adds `x` where it belongs, unless it is there.
pub fn insert(v: &mut Vec<u32>, x: u32)
    requires
        ascending(old(v)@),
    ensures
        ascending(final(v)@),
        final(v)@.to_set() == old(v)@.to_set().insert(x),
{
    let mut i: usize = 0;
    while i < v.len() && v[i] < x
        invariant
            i <= v@.len(),
            v@ == old(v)@,
            forall|j: int| 0 <= j < i ==> v@[j] < x,
        decreases v@.len() - i,
    {
        i += 1;
    }
    if i < v.len() && v[i] == x {
        assert(v@[i as int] == x);
        assert(v@.to_set() =~= old(v)@.to_set().insert(x));
    } else {
        let ghost s = v@;
        v.insert(i, x);
        assert forall|k: u32| v@.to_set().contains(k) == s.to_set().insert(x).contains(k) by {
            if v@.contains(k) {
                let j = choose|j: int| 0 <= j < v@.len() && v@[j] == k;
                if j < i {
                    assert(s[j] == k);
                } else if j > i {
                    assert(s[j - 1] == k);
                }
            }
            if s.contains(k) {
                let j = choose|j: int| 0 <= j < s.len() && s[j] == k;
                if j < i {
                    assert(v@[j] == k);
                } else {
                    assert(v@[j + 1] == k);
                }
            }
            assert(v@[i as int] == x);
        }
        assert(v@.to_set() =~= s.to_set().insert(x));
    }
}

/// Two ascending lists of the same items are the same list.
pub proof fn ascending_is_canonical(a: Seq<u32>, b: Seq<u32>)
    requires
        ascending(a),
        ascending(b),
        a.to_set() == b.to_set(),
    ensures
        a == b,
    decreases a.len(),
{
    if a.len() == 0 {
        if b.len() > 0 {
            assert(b.to_set().contains(b[0]));
            assert(a.contains(b[0]));
        }
        assert(a =~= b);
    } else {
        assert(a.to_set().contains(a.last()));
        assert(b.contains(a.last()));
        assert(b.to_set().contains(b.last()));
        assert(a.contains(b.last()));
        assert(a.last() == b.last());
        let x = a.drop_last();
        let y = b.drop_last();
        assert forall|k: u32| x.to_set().contains(k) == y.to_set().contains(k) by {
            if x.contains(k) {
                let j = choose|j: int| 0 <= j < x.len() && x[j] == k;
                assert(a[j] == k && a[j] < a.last());
                assert(a.to_set().contains(k));
                let m = choose|m: int| 0 <= m < b.len() && b[m] == k;
                assert(y[m] == k);
            }
            if y.contains(k) {
                let j = choose|j: int| 0 <= j < y.len() && y[j] == k;
                assert(b[j] == k && b[j] < b.last());
                assert(b.to_set().contains(k));
                let m = choose|m: int| 0 <= m < a.len() && a[m] == k;
                assert(x[m] == k);
            }
        }
        assert(x.to_set() =~= y.to_set());
        ascending_is_canonical(x, y);
        assert(a =~= x.push(a.last()));
        assert(b =~= y.push(b.last()));
    }
}

/// No item is greater than one that follows it.
pub open spec fn rising(s: Seq<u32>) -> bool {
    forall|i: int, j: int| 0 <= i <= j < s.len() ==> s[i] <= s[j]
}

/// Adds `x` behind the items that are not greater.
pub fn insert_rising(v: &mut Vec<u32>, x: u32)
    requires
        rising(old(v)@),
    ensures
        rising(final(v)@),
        final(v)@.to_multiset() == old(v)@.to_multiset().insert(x),
{
    let mut i: usize = 0;
    while i < v.len() && v[i] <= x
        invariant
            i <= v@.len(),
            v@ == old(v)@,
            forall|j: int| 0 <= j < i ==> v@[j] <= x,
        decreases v@.len() - i,
    {
        i += 1;
    }
    let ghost s = v@;
    v.insert(i, x);
    proof {
        broadcast use vstd::seq_lib::group_to_multiset_ensures;

        assert(v@ =~= s.insert(i as int, x));
        assert(s.insert(i as int, x).to_multiset() =~= s.to_multiset().insert(x));
    }
}

} // verus!
