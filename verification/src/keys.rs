//! Ordered maps keyed by integers: lookups, updates, and walks in key order.
use std::collections::BTreeMap;
use vstd::prelude::*;
use vstd::std_specs::cmp::OrdSpec;
use vstd::std_specs::iter::IteratorSpec;

verus! {

/// Each element is smaller than every later one.
pub open spec fn strictly_increasing(s: Seq<u64>) -> bool {
    forall|i: int, j: int| 0 <= i < j < s.len() ==> s[i] < s[j]
}

/// `s` lists exactly the members of `dom`, in increasing order.
pub open spec fn lists_in_order(s: Seq<u64>, dom: Set<u64>) -> bool {
    &&& strictly_increasing(s)
    &&& forall|k: u64| s.contains(k) <==> dom.contains(k)
}

/// The keys of `m` in increasing order.
pub fn sorted_keys<V>(m: &BTreeMap<u64, V>) -> (v: Vec<u64>)
    ensures
        lists_in_order(v@, m@.dom()),
{
    let mut out: Vec<u64> = Vec::new();
    for k in it: m.keys()
        invariant
            out@ == it.seq().unref().take(it.index()),
            it.seq() == vstd::std_specs::btree::spec_keys_iter(m).remaining(),
    {
        out.push(*k);
    }
    proof {
        broadcast use vstd::laws_cmp::group_laws_cmp;

        let s = vstd::std_specs::btree::spec_keys_iter(m).remaining();
        assert(out@ =~= s.unref());
        assert(vstd::std_specs::btree::increasing_seq(s));
        assert(vstd::laws_cmp::obeys_cmp::<&u64>());
        assert forall|i: int, j: int| 0 <= i < j < out@.len() implies out@[i] < out@[j] by {
            assert((&s[i]).cmp_spec(&s[j]) is Less);
        }
        assert(s.unref().to_set() == m@.dom());
        assert forall|k: u64| out@.contains(k) <==> m@.dom().contains(k) by {
            assert(out@.to_set().contains(k) <==> out@.contains(k));
        }
    }
    out
}

/// The value stored under `k`, if any.
pub fn lookup<'a, V>(m: &'a BTreeMap<u64, V>, k: u64) -> (r: Option<&'a V>)
    ensures
        r is Some <==> m@.contains_key(k),
        r matches Some(v) ==> *v == m@[k],
{
    proof {
        broadcast use vstd::laws_cmp::group_laws_cmp;

    }
    m.get(&k)
}

/// Whether anything is stored under `k`.
pub fn has_key<V>(m: &BTreeMap<u64, V>, k: u64) -> (b: bool)
    ensures
        b == m@.contains_key(k),
{
    proof {
        broadcast use vstd::laws_cmp::group_laws_cmp;

    }
    m.contains_key(&k)
}

/// Stores `v` under `k`, replacing what was there.
pub fn store<V>(m: &mut BTreeMap<u64, V>, k: u64, v: V)
    ensures
        final(m)@ == old(m)@.insert(k, v),
{
    proof {
        broadcast use vstd::laws_cmp::group_laws_cmp;

    }
    let _ = m.insert(k, v);
}

/// Removes what is stored under `k` and hands it out.
pub fn take_out<V>(m: &mut BTreeMap<u64, V>, k: u64) -> (r: Option<V>)
    ensures
        final(m)@ == old(m)@.remove(k),
        r is Some <==> old(m)@.contains_key(k),
        r matches Some(v) ==> v == old(m)@[k],
{
    proof {
        broadcast use vstd::laws_cmp::group_laws_cmp;

    }
    m.remove(&k)
}

/// Whether `k` is one of the first `n` elements of `ks`.
pub open spec fn among(ks: Seq<u64>, n: int, k: u64) -> bool {
    exists|j: int| 0 <= j < n && #[trigger] ks[j] == k
}

/// The members of `t` among the first `n` elements of `ks`.
pub open spec fn picked(ks: Seq<u64>, t: Set<u64>, n: int) -> Set<u64>
    decreases n,
{
    if n <= 0 {
        Set::empty()
    } else if t.contains(ks[n - 1]) {
        picked(ks, t, n - 1).insert(ks[n - 1])
    } else {
        picked(ks, t, n - 1)
    }
}

/// What `picked` holds, and that it grows by one with each member met.
pub proof fn lemma_picked(ks: Seq<u64>, t: Set<u64>, n: int)
    requires
        strictly_increasing(ks),
        0 <= n <= ks.len(),
    ensures
        picked(ks, t, n).finite(),
        picked(ks, t, n).len() <= n,
        forall|k: u64|
            #![trigger picked(ks, t, n).contains(k)]
            picked(ks, t, n).contains(k) <==> t.contains(k) && among(ks, n, k),
        n < ks.len() ==> !picked(ks, t, n).contains(ks[n]),
    decreases n,
{
    if n > 0 {
        lemma_picked(ks, t, n - 1);
        let prev = picked(ks, t, n - 1);
        let cur = picked(ks, t, n);
        assert forall|k: u64| cur.contains(k) <==> t.contains(k) && among(ks, n, k) by {
            if cur.contains(k) {
                if prev.contains(k) {
                    let j = choose|j: int| 0 <= j < n - 1 && #[trigger] ks[j] == k;
                    assert(0 <= j < n && ks[j] == k);
                } else {
                    assert(ks[n - 1] == k);
                }
            }
            if t.contains(k) && among(ks, n, k) {
                let j = choose|j: int| 0 <= j < n && #[trigger] ks[j] == k;
                if j < n - 1 {
                    assert(among(ks, n - 1, k));
                }
            }
        }
        if n < ks.len() && cur.contains(ks[n]) {
            let j = choose|j: int| 0 <= j < n && #[trigger] ks[j] == ks[n];
            assert(ks[j] < ks[n]);
        }
    }
}

/// Walking all of an ordered list of `dom` picks every member of `t`.
pub proof fn lemma_picked_all(ks: Seq<u64>, t: Set<u64>, dom: Set<u64>)
    requires
        lists_in_order(ks, dom),
        t.subset_of(dom),
    ensures
        picked(ks, t, ks.len() as int) == t,
        t.finite(),
{
    lemma_picked(ks, t, ks.len() as int);
    let p = picked(ks, t, ks.len() as int);
    assert forall|k: u64| p.contains(k) <==> t.contains(k) by {
        if t.contains(k) {
            assert(dom.contains(k));
            assert(ks.contains(k));
            let j = choose|j: int| 0 <= j < ks.len() && ks[j] == k;
            assert(0 <= j < ks.len() && ks[j] == k);
            assert(among(ks, ks.len() as int, k));
        }
    }
    assert(p =~= t);
}

/// The members of `t` in increasing order.
pub open spec fn in_order(t: Set<u64>) -> Seq<u64> {
    choose|s: Seq<u64>| lists_in_order(s, t)
}

/// An increasing list of `t` is `in_order(t)`.
pub proof fn lemma_in_order(s: Seq<u64>, t: Set<u64>)
    requires
        lists_in_order(s, t),
    ensures
        in_order(t) == s,
{
    lemma_ordered_list_unique(in_order(t), s, t);
}

/// Extending an ordered list of what was picked so far by the next
/// element of the walk, where it is a member.
pub proof fn lemma_picked_step(ks: Seq<u64>, t: Set<u64>, n: int, acc: Seq<u64>)
    requires
        strictly_increasing(ks),
        0 <= n < ks.len(),
        lists_in_order(acc, picked(ks, t, n)),
    ensures
        t.contains(ks[n]) ==> lists_in_order(acc.push(ks[n]), picked(ks, t, n + 1)),
        !t.contains(ks[n]) ==> lists_in_order(acc, picked(ks, t, n + 1)),
{
    lemma_picked(ks, t, n);
    if t.contains(ks[n]) {
        let next = acc.push(ks[n]);
        assert forall|i: int, j: int| 0 <= i < j < next.len() implies next[i] < next[j] by {
            if j == acc.len() {
                assert(acc.contains(acc[i]));
                assert(picked(ks, t, n).contains(acc[i]));
                let m = choose|m: int| 0 <= m < n && #[trigger] ks[m] == acc[i];
                assert(ks[m] < ks[n]);
            }
        }
        assert forall|k: u64| next.contains(k) <==> picked(ks, t, n + 1).contains(k) by {
            if next.contains(k) {
                let i = choose|i: int| 0 <= i < next.len() && next[i] == k;
                if i < acc.len() {
                    assert(acc[i] == k);
                    assert(acc.contains(k));
                }
            }
            if picked(ks, t, n + 1).contains(k) {
                if k == ks[n] {
                    assert(next[acc.len() as int] == k);
                } else {
                    assert(acc.contains(k));
                    let i = choose|i: int| 0 <= i < acc.len() && acc[i] == k;
                    assert(next[i] == k);
                }
            }
        }
    }
}

/// What a list holds after one more element was appended.
pub proof fn lemma_push_contains(s: Seq<u64>, k: u64)
    ensures
        forall|o: u64| #[trigger] s.push(k).contains(o) <==> s.contains(o) || o == k,
{
    let next = s.push(k);
    assert forall|o: u64| #[trigger] next.contains(o) <==> s.contains(o) || o == k by {
        if next.contains(o) {
            let m = choose|m: int| 0 <= m < next.len() && next[m] == o;
            if m < s.len() {
                assert(s[m] == o);
            }
        }
        if s.contains(o) {
            let m = choose|m: int| 0 <= m < s.len() && s[m] == o;
            assert(next[m] == o);
        }
        if o == k {
            assert(next[s.len() as int] == o);
        }
    }
}

/// Two increasing lists of the same set are the same list.
pub proof fn lemma_ordered_list_unique(a: Seq<u64>, b: Seq<u64>, dom: Set<u64>)
    requires
        lists_in_order(a, dom),
        lists_in_order(b, dom),
    ensures
        a == b,
    decreases a.len(),
{
    if a.len() == 0 {
        if b.len() > 0 {
            assert(b.contains(b[0]));
            assert(a.contains(b[0]));
        }
        assert(a =~= b);
    } else {
        assert(a.contains(a[0]));
        assert(b.contains(a[0]));
        assert(b.len() > 0);
        assert(b.contains(b[0]));
        assert(a.contains(b[0]));
        let ia = choose|i: int| 0 <= i < a.len() && a[i] == b[0];
        let ib = choose|i: int| 0 <= i < b.len() && b[i] == a[0];
        assert(a[0] == b[0]);
        let a1 = a.drop_first();
        let b1 = b.drop_first();
        let d1 = dom.remove(a[0]);
        assert forall|k: u64| a1.contains(k) <==> d1.contains(k) by {
            if a1.contains(k) {
                let i = choose|i: int| 0 <= i < a1.len() && a1[i] == k;
                assert(a[i + 1] == k);
                assert(a.contains(k));
            }
            if d1.contains(k) {
                assert(a.contains(k));
                let i = choose|i: int| 0 <= i < a.len() && a[i] == k;
                assert(a1[i - 1] == k);
            }
        }
        assert forall|k: u64| b1.contains(k) <==> d1.contains(k) by {
            if b1.contains(k) {
                let i = choose|i: int| 0 <= i < b1.len() && b1[i] == k;
                assert(b[i + 1] == k);
                assert(b.contains(k));
            }
            if d1.contains(k) {
                assert(b.contains(k));
                let i = choose|i: int| 0 <= i < b.len() && b[i] == k;
                assert(b1[i - 1] == k);
            }
        }
        assert(strictly_increasing(a1)) by {
            assert forall|i: int, j: int| 0 <= i < j < a1.len() implies a1[i] < a1[j] by {
                assert(a[i + 1] < a[j + 1]);
            }
        }
        assert(strictly_increasing(b1)) by {
            assert forall|i: int, j: int| 0 <= i < j < b1.len() implies b1[i] < b1[j] by {
                assert(b[i + 1] < b[j + 1]);
            }
        }
        lemma_ordered_list_unique(a1, b1, d1);
        assert(a =~= seq![a[0]] + a1);
        assert(b =~= seq![b[0]] + b1);
    }
}

} // verus!
