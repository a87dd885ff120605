//! Ascending lists of integers.
use vstd::prelude::*;

verus! {

/// Whether a sequence is strictly ascending.
pub open spec fn ascending(s: Seq<u32>) -> bool {
    forall|i: int, j: int| 0 <= i < j < s.len() ==> s[i] < s[j]
}

/// Whether a sequence lists the members of a set, each once, ascending.
pub open spec fn lists(s: Seq<u32>, members: Set<u32>) -> bool {
    &&& ascending(s)
    &&& forall|x: u32| members.contains(x) <==> s.contains(x)
}

/// Two ascending lists of the same members are the same list.
pub proof fn ascending_lists_are_unique(a: Seq<u32>, b: Seq<u32>, members: Set<u32>)
    requires
        lists(a, members),
        lists(b, members),
    ensures
        a == b,
    decreases a.len(),
{
    if a.len() == 0 {
        if b.len() > 0 {
            assert(b.contains(b[0]));
            assert(a.contains(b[0]));
        }
        assert(a =~= b);
    } else {
        assert(a.contains(a.last()));
        assert(b.contains(a.last()));
        assert(b.contains(b.last()));
        assert(a.contains(b.last()));
        let i = choose|i: int| 0 <= i < b.len() && b[i] == a.last();
        let j = choose|j: int| 0 <= j < a.len() && a[j] == b.last();
        assert(a.last() == b.last()) by {
            if i < b.len() - 1 {
                assert(b[i] < b[b.len() - 1]);
                if j < a.len() - 1 {
                    assert(a[j] < a[a.len() - 1]);
                }
            }
        }
        let rest = members.remove(a.last());
        lemma_drop_last_lists(a, members);
        lemma_drop_last_lists(b, members);
        ascending_lists_are_unique(a.drop_last(), b.drop_last(), rest);
        assert(a =~= a.drop_last().push(a.last()));
        assert(b =~= b.drop_last().push(b.last()));
    }
}

proof fn lemma_drop_last_lists(s: Seq<u32>, members: Set<u32>)
    requires
        lists(s, members),
        s.len() > 0,
    ensures
        lists(s.drop_last(), members.remove(s.last())),
{
    let short = s.drop_last();
    assert forall|x: u32| members.remove(s.last()).contains(x) <==> short.contains(x) by {
        if short.contains(x) {
            let i = choose|i: int| 0 <= i < short.len() && short[i] == x;
            assert(s[i] == x);
            assert(s[i] < s[s.len() - 1]);
        }
        if members.contains(x) && x != s.last() {
            let i = choose|i: int| 0 <= i < s.len() && s[i] == x;
            assert(short[i] == x);
        }
    }
}

/// The distinct values of a list, ascending.
pub fn sorted_distinct(values: &Vec<u32>) -> (r: Vec<u32>)
    ensures
        lists(r@, values@.to_set()),
{
    let mut out: Vec<u32> = Vec::new();
    let mut k: usize = 0;
    while k < values.len()
        invariant
            k <= values@.len(),
            lists(out@, values@.take(k as int).to_set()),
        decreases values@.len() - k,
    {
        let v: u32 = values[k];
        let mut at: usize = 0;
        while at < out.len() && out[at] < v
            invariant
                at <= out@.len(),
                forall|i: int| 0 <= i < at ==> out@[i] < v,
            decreases out@.len() - at,
        {
            at = at + 1;
        }
        let ghost before = out@;
        let ghost seen = values@.take(k as int);
        let ghost next = values@.take(k + 1);
        let ghost was = seen.to_set();
        let ghost now = next.to_set();
        proof {
            assert(next =~= seen.push(v));
            assert forall|x: u32| now.contains(x) <==> was.contains(x) || x == v by {
                if now.contains(x) {
                    let i = choose|i: int| 0 <= i < next.len() && next[i] == x;
                    if i < k {
                        assert(seen[i] == x);
                    }
                }
                if was.contains(x) {
                    let i = choose|i: int| 0 <= i < seen.len() && seen[i] == x;
                    assert(next[i] == x);
                }
                if x == v {
                    assert(next[k as int] == x);
                }
            }
        }
        if at == out.len() || out[at] != v {
            out.insert(at, v);
            proof {
                assert forall|x: u32| out@.contains(x) <==> before.contains(x) || x == v by {
                    if out@.contains(x) && x != v {
                        let i = choose|i: int| 0 <= i < out@.len() && out@[i] == x;
                        if i < at {
                            assert(before[i] == x);
                        } else {
                            assert(before[i - 1] == x);
                        }
                    }
                    if before.contains(x) {
                        let i = choose|i: int| 0 <= i < before.len() && before[i] == x;
                        if i < at {
                            assert(out@[i] == x);
                        } else {
                            assert(out@[i + 1] == x);
                        }
                    }
                    if x == v {
                        assert(out@[at as int] == x);
                    }
                }
            }
        } else {
            assert(before.contains(v)) by {
                assert(before[at as int] == v);
            }
        }
        k = k + 1;
    }
    assert(values@.take(k as int) =~= values@);
    out
}

/// Inserting into a sequence adds one to what it holds.
pub proof fn lemma_insert_adds_one<A>(s: Seq<A>, at: int, x: A)
    requires
        0 <= at <= s.len(),
    ensures
        s.insert(at, x).to_multiset() == s.to_multiset().insert(x),
{
    let t = s.insert(at, x);
    vstd::seq_lib::to_multiset_remove(t, at);
    assert(t.remove(at) =~= s);
    assert(t[at] == x);
    assert(t.to_multiset().count(x) > 0) by {
        t.to_multiset_ensures();
        assert(t.contains(x));
    }
    assert(s.to_multiset().insert(x) =~= t.to_multiset());
}

} // verus!
