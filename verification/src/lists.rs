//! Lists of records kept in order and found again by their ids.
use vstd::prelude::*;
use crate::models::Keyed;

verus! {

/// The index of the first record of `s[i..]` keyed `k`, or -1.
pub open spec fn first_key_from<T: Keyed>(s: Seq<T>, k: i64, i: int) -> int
    decreases s.len() - i,
{
    if i < 0 || i >= s.len() {
        -1
    } else if s[i].key() == k {
        i
    } else {
        first_key_from(s, k, i + 1)
    }
}

/// The index of the first record of `s` keyed `k`, or -1.
pub open spec fn first_key<T: Keyed>(s: Seq<T>, k: i64) -> int {
    first_key_from(s, k, 0)
}

/// `s` where the first record keyed `k` is replaced by `item`; without such a record,
/// `s` with `item` added in front (`at_front`) or at the end.
pub open spec fn upsert_spec<T: Keyed>(s: Seq<T>, k: i64, item: T, at_front: bool) -> Seq<T> {
    let i = first_key(s, k);
    if i >= 0 {
        s.update(i, item)
    } else if at_front {
        seq![item] + s
    } else {
        s.push(item)
    }
}

/// The records of `s` that are not keyed `k`, in order.
pub open spec fn without_key<T: Keyed>(s: Seq<T>, k: i64) -> Seq<T> {
    s.filter(|t: T| t.key() != k)
}

/// Some record of `s` is keyed `k`.
pub open spec fn has_key<T: Keyed>(s: Seq<T>, k: i64) -> bool {
    exists|i: int| 0 <= i < s.len() && #[trigger] s[i].key() == k
}

/// What `first_key_from` gives is the first record keyed `k` at or after `i`.
pub proof fn lemma_first_key_from<T: Keyed>(s: Seq<T>, k: i64, i: int)
    requires
        0 <= i,
    ensures
        ({
            let r = first_key_from(s, k, i);
            &&& (r == -1 || (i <= r < s.len() && s[r].key() == k))
            &&& forall|j: int| i <= j < s.len() && (r == -1 || j < r) ==> #[trigger] s[j].key() != k
        }),
    decreases s.len() - i,
{
    if i < s.len() && s[i].key() != k {
        lemma_first_key_from(s, k, i + 1);
    }
}

/// `first_key` finds a record exactly when there is one.
pub proof fn lemma_first_key<T: Keyed>(s: Seq<T>, k: i64)
    ensures
        first_key(s, k) >= 0 <==> has_key(s, k),
        first_key(s, k) >= 0 ==> first_key(s, k) < s.len() && s[first_key(s, k)].key() == k,
{
    lemma_first_key_from(s, k, 0);
    if first_key(s, k) >= 0 {
        assert(s[first_key(s, k)].key() == k);
    }
}

/// The index of the first record of `v` keyed `k`.
pub fn find_key<T: Keyed>(v: &Vec<T>, k: i64) -> (r: Option<usize>)
    ensures
        match r {
            Some(i) => first_key(v@, k) == i as int,
            None => first_key(v@, k) == -1,
        },
{
    let mut i: usize = 0;
    while i < v.len()
        invariant
            i <= v.len(),
            first_key(v@, k) == first_key_from(v@, k, i as int),
        decreases v.len() - i,
    {
        if v[i].get_key() == k {
            return Some(i);
        }
        i = i + 1;
    }
    None
}

/// Whether some record of `v` is keyed `k`.
pub fn contains_key<T: Keyed>(v: &Vec<T>, k: i64) -> (r: bool)
    ensures
        r == has_key(v@, k),
{
    proof {
        lemma_first_key(v@, k);
    }
    find_key(v, k).is_some()
}

/// Replaces the first record keyed `k` by `item`, or adds `item` in front (`at_front`) or at
/// the end.
pub fn upsert<T: Keyed>(v: &mut Vec<T>, k: i64, item: T, at_front: bool)
    ensures
        final(v)@ == upsert_spec(old(v)@, k, item, at_front),
{
    match find_key(v, k) {
        Some(i) => {
            proof {
                lemma_first_key(v@, k);
            }
            v.set(i, item);
        },
        None => {
            if at_front {
                v.insert(0, item);
                assert(v@ =~= upsert_spec(old(v)@, k, item, at_front));
            } else {
                v.push(item);
            }
        },
    }
}

/// Filtering a prefix one element longer.
pub proof fn lemma_filter_take_step<A>(s: Seq<A>, pred: spec_fn(A) -> bool, j: int)
    requires
        0 <= j < s.len(),
    ensures
        s.take(j + 1).filter(pred) == if pred(s[j]) {
            s.take(j).filter(pred).push(s[j])
        } else {
            s.take(j).filter(pred)
        },
{
    reveal(Seq::filter);
    assert(s.take(j + 1).drop_last() =~= s.take(j));
    assert(s.take(j + 1).last() == s[j]);
}

/// Dropping records keyed `k` from a longer prefix.
proof fn lemma_without_key_step<T: Keyed>(s: Seq<T>, k: i64, j: int)
    requires
        0 <= j < s.len(),
    ensures
        without_key(s.take(j + 1), k) == if s[j].key() != k {
            without_key(s.take(j), k).push(s[j])
        } else {
            without_key(s.take(j), k)
        },
{
    reveal(Seq::filter);
    assert(s.take(j + 1).drop_last() =~= s.take(j));
    assert(s.take(j + 1).last() == s[j]);
}

/// Drops every record keyed `k`, keeping the order of the others.
pub fn remove_key<T: Keyed>(v: &mut Vec<T>, k: i64)
    ensures
        final(v)@ == without_key(old(v)@, k),
{
    let ghost orig = v@;
    let mut i: usize = 0;
    let ghost mut j: int = 0;
    proof {
        reveal(Seq::filter);
        assert(orig.take(0) =~= Seq::<T>::empty());
        assert(orig.skip(0) =~= orig);
        assert(without_key(orig.take(0), k) =~= Seq::<T>::empty());
    }
    while i < v.len()
        invariant
            0 <= j <= orig.len(),
            i == without_key(orig.take(j), k).len(),
            v@ == without_key(orig.take(j), k) + orig.skip(j),
        decreases v.len() - i,
    {
        proof {
            lemma_without_key_step(orig, k, j);
            assert(v@[i as int] == orig[j]);
        }
        if v[i].get_key() == k {
            v.remove(i);
            proof {
                assert(v@ =~= without_key(orig.take(j + 1), k) + orig.skip(j + 1));
                j = j + 1;
            }
        } else {
            proof {
                assert(v@ =~= without_key(orig.take(j + 1), k) + orig.skip(j + 1));
                j = j + 1;
            }
            i = i + 1;
        }
    }
    proof {
        assert(orig.skip(j).len() == 0);
        assert(orig.take(j) =~= orig);
        assert(v@ =~= without_key(orig, k));
    }
}

/// A record put in under its key is the one found under that key afterwards.
pub proof fn lemma_upsert_then_find<T: Keyed>(s: Seq<T>, k: i64, item: T, at_front: bool)
    requires
        item.key() == k,
    ensures
        ({
            let r = upsert_spec(s, k, item, at_front);
            let i = first_key(r, k);
            &&& 0 <= i < r.len()
            &&& r[i] == item
        }),
{
    let r = upsert_spec(s, k, item, at_front);
    lemma_first_key(s, k);
    lemma_first_key_from(r, k, 0);
    let i = first_key(s, k);
    if i >= 0 {
        lemma_first_key_from(s, k, 0);
        assert(r[i].key() == k);
        let j = first_key(r, k);
        assert(j != -1);
        if j < i {
            assert(r[j] == s[j]);
        }
    } else {
        if at_front {
            assert(r[0] == item);
        } else {
            assert(r[s.len() as int] == item);
            let j = first_key(r, k);
            if 0 <= j < s.len() {
                assert(r[j] == s[j]);
                assert(has_key(s, k));
            }
        }
    }
}

/// No record of `without_key(s, k)` has the key `k`.
proof fn lemma_without_key_lacks_key<T: Keyed>(s: Seq<T>, k: i64)
    ensures
        forall|i: int|
            0 <= i < without_key(s, k).len() ==> #[trigger] without_key(s, k)[i].key() != k,
    decreases s.len(),
{
    reveal(Seq::filter);
    if s.len() > 0 {
        lemma_without_key_lacks_key(s.drop_last(), k);
    }
}

/// After the records of a key are dropped, none is left under it.
pub proof fn lemma_remove_then_absent<T: Keyed>(s: Seq<T>, k: i64)
    ensures
        !has_key(without_key(s, k), k),
        first_key(without_key(s, k), k) == -1,
{
    lemma_without_key_lacks_key(s, k);
    lemma_first_key(without_key(s, k), k);
    lemma_first_key_from(without_key(s, k), k, 0);
}

} // verus!
