//! The distinct items of a sequence of ids, in increasing order, and how one
//! more id is put in its place.
use vstd::prelude::*;

verus! {

/// Whether `s` is in strictly increasing order.
pub open spec fn strictly_increasing(s: Seq<u32>) -> bool {
    forall|i: int, j: int| 0 <= i < j < s.len() ==> s[i] < s[j]
}

/// `s` with `x` put in its place by order; nothing changes when `x` is in
/// `s` already.
pub open spec fn insert_sorted(s: Seq<u32>, x: u32) -> Seq<u32>
    decreases s.len(),
{
    if s.len() == 0 {
        seq![x]
    } else if x < s[0] {
        seq![x] + s
    } else if x == s[0] {
        s
    } else {
        seq![s[0]] + insert_sorted(s.drop_first(), x)
    }
}

/// The distinct items of `s`, in increasing order.
pub open spec fn ascending(s: Seq<u32>) -> Seq<u32>
    decreases s.len(),
{
    if s.len() == 0 {
        Seq::empty()
    } else {
        insert_sorted(ascending(s.drop_last()), s.last())
    }
}

/// In a strictly increasing `s`, putting `x` in its place inserts it before
/// the first item not below it, unless that item is `x`.
pub proof fn lemma_insert_at(s: Seq<u32>, x: u32, p: int)
    requires
        strictly_increasing(s),
        0 <= p <= s.len(),
        forall|i: int| 0 <= i < p ==> s[i] < x,
        p < s.len() ==> s[p] >= x,
    ensures
        insert_sorted(s, x) == (if p < s.len() && s[p] == x {
            s
        } else {
            s.insert(p, x)
        }),
    decreases s.len(),
{
    if s.len() > 0 && p > 0 {
        let t = s.drop_first();
        lemma_insert_at(t, x, p - 1);
        assert(seq![s[0]] + t.insert(p - 1, x) =~= s.insert(p, x));
        assert(seq![s[0]] + t =~= s);
    } else if s.len() > 0 {
        assert(seq![x] + s =~= s.insert(0, x));
    } else {
        assert(seq![x] =~= s.insert(0, x));
    }
}

/// Putting `x` in place keeps a sequence strictly increasing, and adds
/// exactly `x` to what it holds.
pub proof fn lemma_insert_sorted(s: Seq<u32>, x: u32)
    requires
        strictly_increasing(s),
    ensures
        strictly_increasing(insert_sorted(s, x)),
        forall|y: u32| #[trigger] insert_sorted(s, x).contains(y) <==> (s.contains(y) || y == x),
    decreases s.len(),
{
    if s.len() > 0 && x > s[0] {
        let t = s.drop_first();
        lemma_insert_sorted(t, x);
        let r = insert_sorted(t, x);
        let full = seq![s[0]] + r;
        assert forall|y: u32| r.contains(y) implies s[0] < y by {
            if t.contains(y) {
                let k = choose|k: int| 0 <= k < t.len() && t[k] == y;
                assert(s[k + 1] == y);
            }
        }
        assert forall|i: int, j: int| 0 <= i < j < full.len() implies full[i] < full[j] by {
            if i == 0 {
                assert(r.contains(full[j]));
            }
        }
        assert forall|y: u32| full.contains(y) <==> (s.contains(y) || y == x) by {
            if full.contains(y) && y != s[0] {
                let k = choose|k: int| 0 <= k < full.len() && full[k] == y;
                assert(r[k - 1] == y);
                assert(r.contains(y));
                if t.contains(y) {
                    let m = choose|m: int| 0 <= m < t.len() && t[m] == y;
                    assert(s[m + 1] == y);
                }
            }
            if s.contains(y) && y != s[0] {
                let k = choose|k: int| 0 <= k < s.len() && s[k] == y;
                assert(t[k - 1] == y);
                assert(t.contains(y));
                assert(r.contains(y));
                let m = choose|m: int| 0 <= m < r.len() && r[m] == y;
                assert(full[m + 1] == y);
            }
            if y == x {
                assert(t.contains(y) || y == x);
                assert(r.contains(y));
                let m = choose|m: int| 0 <= m < r.len() && r[m] == y;
                assert(full[m + 1] == y);
            }
            if y == s[0] {
                assert(full[0] == y);
                assert(full.contains(y));
                assert(s[0] == y);
                assert(s.contains(y));
            }
        }
    } else if s.len() > 0 && x < s[0] {
        let full = seq![x] + s;
        assert forall|y: u32| full.contains(y) <==> (s.contains(y) || y == x) by {
            if full.contains(y) && y != x {
                let k = choose|k: int| 0 <= k < full.len() && full[k] == y;
                assert(s[k - 1] == y);
            }
            if s.contains(y) {
                let k = choose|k: int| 0 <= k < s.len() && s[k] == y;
                assert(full[k + 1] == y);
            }
            if y == x {
                assert(full[0] == y);
            }
        }
    } else if s.len() > 0 {
        assert(s[0] == x);
    } else {
        assert(seq![x][0] == x);
    }
}

/// The distinct items of `s` in increasing order are strictly increasing
/// and hold exactly what `s` holds.
pub proof fn lemma_ascending(s: Seq<u32>)
    ensures
        strictly_increasing(ascending(s)),
        forall|y: u32| ascending(s).contains(y) <==> s.contains(y),
    decreases s.len(),
{
    if s.len() > 0 {
        let t = s.drop_last();
        lemma_ascending(t);
        lemma_insert_sorted(ascending(t), s.last());
        assert forall|y: u32| ascending(s).contains(y) <==> s.contains(y) by {
            if t.contains(y) {
                let k = choose|k: int| 0 <= k < t.len() && t[k] == y;
                assert(s[k] == y);
            }
            if s.contains(y) && y != s.last() {
                let k = choose|k: int| 0 <= k < s.len() && s[k] == y;
                assert(t[k] == y);
            }
            if y == s.last() {
                assert(s[s.len() - 1] == y);
            }
        }
    }
}

/// Two strictly increasing sequences that hold the same items are equal.
pub proof fn lemma_sorted_unique(s: Seq<u32>, t: Seq<u32>)
    requires
        strictly_increasing(s),
        strictly_increasing(t),
        forall|x: u32| s.contains(x) <==> t.contains(x),
    ensures
        s == t,
    decreases s.len(),
{
    if s.len() == 0 {
        if t.len() > 0 {
            assert(t.contains(t[0]));
        }
        assert(s =~= t);
    } else {
        assert(s.contains(s[0]));
        assert(t.contains(s[0]));
        let j = choose|j: int| 0 <= j < t.len() && t[j] == s[0];
        assert(t.contains(t[0]));
        assert(s.contains(t[0]));
        let i = choose|i: int| 0 <= i < s.len() && s[i] == t[0];
        assert(s[0] <= s[i]);
        assert(t[0] <= t[j]);
        assert(s[0] == t[0]);
        let s1 = s.drop_first();
        let t1 = t.drop_first();
        assert forall|x: u32| s1.contains(x) <==> t1.contains(x) by {
            if s1.contains(x) {
                let a = choose|a: int| 0 <= a < s1.len() && s1[a] == x;
                assert(s[a + 1] == x);
                assert(s.contains(x));
                assert(t.contains(x));
                let b = choose|b: int| 0 <= b < t.len() && t[b] == x;
                assert(b != 0);
                assert(t1[b - 1] == x);
            }
            if t1.contains(x) {
                let a = choose|a: int| 0 <= a < t1.len() && t1[a] == x;
                assert(t[a + 1] == x);
                assert(t.contains(x));
                assert(s.contains(x));
                let b = choose|b: int| 0 <= b < s.len() && s[b] == x;
                assert(b != 0);
                assert(s1[b - 1] == x);
            }
        }
        lemma_sorted_unique(s1, t1);
        assert(s =~= t) by {
            assert forall|k: int| 0 <= k < s.len() implies s[k] == t[k] by {
                if k > 0 {
                    assert(s[k] == s1[k - 1]);
                    assert(t[k] == t1[k - 1]);
                }
            }
        }
    }
}

} // verus!
