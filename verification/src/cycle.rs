//! Cycles among references: which references form one, and the one a
//! depth-first search in ascending order meets first.
use crate::sort::{ascending_lists_are_unique, lists};
use std::collections::HashMap;
use vstd::prelude::*;

verus! {

broadcast use vstd::std_specs::hash::group_hash_axioms;

/// Whether `a` refers to `b`.
pub open spec fn refers(refs: Map<u32, Seq<u32>>, a: u32, b: u32) -> bool {
    refs.contains_key(a) && refs[a].contains(b)
}

/// Whether a sequence goes along references through distinct members.
pub open spec fn is_chain(refs: Map<u32, Seq<u32>>, c: Seq<u32>) -> bool {
    &&& c.len() > 0
    &&& c.no_duplicates()
    &&& forall|k: int| 0 <= k < c.len() ==> refs.contains_key(#[trigger] c[k])
    &&& forall|k: int, m: int|
        0 <= k && m == k + 1 && m < c.len() ==> #[trigger] refers(refs, c[k], c[m])
}

/// Whether a sequence is a cycle of references: a chain whose last member refers
/// back to the first.
pub open spec fn is_cycle(refs: Map<u32, Seq<u32>>, c: Seq<u32>) -> bool {
    is_chain(refs, c) && refers(refs, c.last(), c[0])
}

/// What a search below one member comes to.
pub enum Explored {
    /// A cycle turned up.
    Found(Seq<u32>),
    /// Nothing turned up, and these members are finished.
    Finished(Set<u32>),
}

/// The members that are neither on the path nor finished.
pub open spec fn untouched(refs: Map<u32, Seq<u32>>, path: Seq<u32>, done: Set<u32>) -> Set<u32> {
    refs.dom().filter(|x: u32| !path.contains(x) && !done.contains(x))
}

/// Depth-first search below the end of a path, from its reference number `idx`
/// on, skipping what is finished. A reference back onto the path closes a cycle.
pub open spec fn explore(
    refs: Map<u32, Seq<u32>>,
    path: Seq<u32>,
    idx: nat,
    done: Set<u32>,
) -> Explored
    decreases untouched(refs, path, done).len(), refs[path.last()].len() - idx,
    when refs.dom().finite()
{
    let kids = refs[path.last()];
    if idx >= kids.len() {
        Explored::Finished(done.insert(path.last()))
    } else if path.contains(kids[idx as int]) {
        Explored::Found(path.skip(path.index_of(kids[idx as int])))
    } else if done.contains(kids[idx as int]) || !refs.contains_key(kids[idx as int]) {
        explore(refs, path, idx + 1, done)
    } else {
        proof {
            lemma_push_touches(refs, path, done, kids[idx as int]);
        }
        match explore(refs, path.push(kids[idx as int]), 0, done) {
            Explored::Found(c) => Explored::Found(c),
            Explored::Finished(d) => {
                proof {
                    lemma_more_done(refs, path, done, done.union(d));
                }
                explore(refs, path, idx + 1, done.union(d))
            },
        }
    }
}

/// Search from each member of a list in turn, skipping what is finished.
pub open spec fn search_from(
    refs: Map<u32, Seq<u32>>,
    ids: Seq<u32>,
    i: int,
    done: Set<u32>,
) -> Option<Seq<u32>>
    decreases ids.len() - i,
{
    if i >= ids.len() || i < 0 {
        None
    } else if done.contains(ids[i]) {
        search_from(refs, ids, i + 1, done)
    } else {
        match explore(refs, seq![ids[i]], 0, done) {
            Explored::Found(c) => Some(c),
            Explored::Finished(d) => search_from(refs, ids, i + 1, d),
        }
    }
}

/// The cycle a search through the whole list meets first, if there is one.
pub open spec fn first_cycle(refs: Map<u32, Seq<u32>>, ids: Seq<u32>) -> Option<Seq<u32>> {
    search_from(refs, ids, 0, Set::empty())
}

/// Going on to a new member leaves fewer untouched.
pub proof fn lemma_push_touches(refs: Map<u32, Seq<u32>>, path: Seq<u32>, done: Set<u32>, x: u32)
    requires
        refs.dom().finite(),
        refs.contains_key(x),
        !path.contains(x),
        !done.contains(x),
    ensures
        untouched(refs, path.push(x), done).len() < untouched(refs, path, done).len(),
{
    let a = untouched(refs, path, done);
    let b = untouched(refs, path.push(x), done);
    assert(path.push(x)[path.len() as int] == x);
    assert forall|y: u32| b.contains(y) implies a.remove(x).contains(y) by {
        if path.contains(y) {
            let i = choose|i: int| 0 <= i < path.len() && path[i] == y;
            assert(path.push(x)[i] == y);
        }
    }
    vstd::set_lib::lemma_len_subset(b, a.remove(x));
}

/// Finishing more leaves no more untouched.
pub proof fn lemma_more_done(refs: Map<u32, Seq<u32>>, path: Seq<u32>, a: Set<u32>, b: Set<u32>)
    requires
        refs.dom().finite(),
        a.subset_of(b),
    ensures
        untouched(refs, path, b).len() <= untouched(refs, path, a).len(),
{
    vstd::set_lib::lemma_len_subset(untouched(refs, path, b), untouched(refs, path, a));
}

/// Whether a finished set is free of cycles: it is closed under references, and
/// no cycle meets it.
spec fn clear(refs: Map<u32, Seq<u32>>, done: Set<u32>) -> bool {
    &&& forall|x: u32, y: u32|
        done.contains(x) && #[trigger] refers(refs, x, y) && refs.contains_key(y)
            ==> done.contains(y)
    &&& forall|c: Seq<u32>, k: int| #[trigger]
        is_cycle(refs, c) && 0 <= k < c.len() ==> !done.contains(#[trigger] c[k])
}

/// What holds when the search stands at a path.
spec fn searching(refs: Map<u32, Seq<u32>>, path: Seq<u32>, idx: nat, done: Set<u32>) -> bool {
    &&& refs.dom().finite()
    &&& is_chain(refs, path)
    &&& clear(refs, done)
    &&& done.subset_of(refs.dom())
    &&& forall|k: int| 0 <= k < path.len() ==> !done.contains(#[trigger] path[k])
    &&& forall|k: int|
        0 <= k < idx && k < refs[path.last()].len() && refs.contains_key(
            #[trigger] refs[path.last()][k],
        ) ==> done.contains(refs[path.last()][k])
}

/// From a member of a closed set every step along a cycle stays in the set.
proof fn lemma_cycle_stays(refs: Map<u32, Seq<u32>>, done: Set<u32>, c: Seq<u32>, k: int, m: int)
    requires
        is_cycle(refs, c),
        forall|x: u32, y: u32|
            done.contains(x) && #[trigger] refers(refs, x, y) && refs.contains_key(y)
                ==> done.contains(y),
        0 <= k <= m < c.len(),
        done.contains(c[k]),
    ensures
        done.contains(c[m]),
        done.contains(c[0]),
    decreases c.len() - k,
{
    if k + 1 < c.len() {
        assert(refers(refs, c[k], c[k + 1]));
        assert(refs.contains_key(c[k + 1]));
        lemma_cycle_stays(refs, done, c, k + 1, if m > k { m } else { k + 1 });
    } else {
        assert(refers(refs, c[k], c[0]));
        assert(refs.contains_key(c[0]));
    }
}

/// Finishing a member whose references are all finished keeps the set clear.
proof fn lemma_finish(refs: Map<u32, Seq<u32>>, done: Set<u32>, x: u32)
    requires
        clear(refs, done),
        refs.contains_key(x),
        !done.contains(x),
        forall|k: int|
            0 <= k < refs[x].len() && refs.contains_key(#[trigger] refs[x][k]) ==> done.contains(
                refs[x][k],
            ),
    ensures
        clear(refs, done.insert(x)),
{
    let d = done.insert(x);
    assert forall|a: u32, b: u32|
        d.contains(a) && #[trigger] refers(refs, a, b) && refs.contains_key(b) implies d.contains(
        b,
    ) by {
        if a == x {
            let k = choose|k: int| 0 <= k < refs[x].len() && refs[x][k] == b;
            assert(refs.contains_key(refs[x][k]));
        }
    }
    assert forall|c: Seq<u32>, k: int| #[trigger]
        is_cycle(refs, c) && 0 <= k < c.len() implies !d.contains(#[trigger] c[k]) by {
        if c[k] == x {
            let next = if k + 1 < c.len() {
                k + 1
            } else {
                0
            };
            if k + 1 < c.len() {
                assert(refers(refs, c[k], c[k + 1]));
            }
            assert(refers(refs, x, c[next]));
            let j = choose|j: int| 0 <= j < refs[x].len() && refs[x][j] == c[next];
            assert(refs.contains_key(c[next]));
            assert(refs.contains_key(refs[x][j]));
            assert(done.contains(c[next]));
        }
    }
}

/// What a search below a path comes to: a real cycle, or a larger clear set with
/// the path's end in it and the rest of the path not.
proof fn lemma_explore(refs: Map<u32, Seq<u32>>, path: Seq<u32>, idx: nat, done: Set<u32>)
    requires
        searching(refs, path, idx, done),
    ensures
        match explore(refs, path, idx, done) {
            Explored::Found(c) => is_cycle(refs, c),
            Explored::Finished(d) => {
                &&& clear(refs, d)
                &&& done.subset_of(d)
                &&& d.subset_of(refs.dom())
                &&& d.contains(path.last())
                &&& forall|k: int| 0 <= k < path.len() - 1 ==> !d.contains(#[trigger] path[k])
            },
        },
    decreases untouched(refs, path, done).len(), refs[path.last()].len() - idx,
{
    let kids = refs[path.last()];
    assert(refs.contains_key(path[path.len() - 1]));
    if idx >= kids.len() {
        lemma_finish(refs, done, path.last());
        assert forall|k: int| 0 <= k < path.len() - 1 implies !done.insert(path.last()).contains(
            #[trigger] path[k],
        ) by {
            assert(path[k] != path[path.len() - 1]);
        }
    } else {
        let child = kids[idx as int];
        assert(kids.contains(child));
        assert(refers(refs, path.last(), child));
        if path.contains(child) {
            let at = path.index_of(child);
            assert(0 <= at < path.len() && path[at] == child);
            let c = path.skip(at);
            assert forall|k: int, m: int|
                0 <= k && m == k + 1 && m < c.len() implies #[trigger] refers(refs, c[k], c[m]) by {
                assert(refers(refs, path[at + k], path[at + m]));
            }
            assert forall|k: int| 0 <= k < c.len() implies refs.contains_key(#[trigger] c[k]) by {
                assert(refs.contains_key(path[at + k]));
            }
            assert(c[0] == child);
            assert(c.last() == path.last());
        } else if done.contains(child) || !refs.contains_key(child) {
            lemma_explore(refs, path, idx + 1, done);
        } else {
            let longer = path.push(child);
            lemma_push_touches(refs, path, done, child);
            assert forall|k: int, m: int|
                0 <= k && m == k + 1 && m < longer.len() implies #[trigger] refers(
                refs,
                longer[k],
                longer[m],
            ) by {
                if m < path.len() {
                    assert(refers(refs, path[k], path[m]));
                }
            }
            lemma_explore(refs, longer, 0, done);
            match explore(refs, longer, 0, done) {
                Explored::Found(c) => {},
                Explored::Finished(d) => {
                    assert(done.union(d) =~= d);
                    lemma_more_done(refs, path, done, d);
                    assert forall|k: int| 0 <= k < path.len() implies !d.contains(
                        #[trigger] path[k],
                    ) by {
                        assert(!d.contains(longer[k]));
                    }
                    lemma_explore(refs, path, idx + 1, d);
                },
            }
        }
    }
}

proof fn lemma_search(refs: Map<u32, Seq<u32>>, ids: Seq<u32>, i: int, done: Set<u32>)
    requires
        refs.dom().finite(),
        forall|k: int| 0 <= k < ids.len() ==> refs.contains_key(#[trigger] ids[k]),
        0 <= i <= ids.len(),
        clear(refs, done),
        done.subset_of(refs.dom()),
        forall|k: int| 0 <= k < i ==> done.contains(#[trigger] ids[k]),
    ensures
        match search_from(refs, ids, i, done) {
            Some(c) => is_cycle(refs, c),
            None => forall|c: Seq<u32>, k: int, m: int|
                0 <= k < ids.len() && 0 <= m < c.len() && #[trigger] is_cycle(refs, c)
                    ==> #[trigger] ids[k] != #[trigger] c[m],
        },
    decreases ids.len() - i,
{
    if i < ids.len() {
        if done.contains(ids[i]) {
            lemma_search(refs, ids, i + 1, done);
        } else {
            let path = seq![ids[i]];
            assert(searching(refs, path, 0, done));
            lemma_explore(refs, path, 0, done);
            match explore(refs, path, 0, done) {
                Explored::Found(c) => {},
                Explored::Finished(d) => {
                    assert(d.contains(ids[i]));
                    lemma_search(refs, ids, i + 1, d);
                },
            }
        }
    } else {
        assert forall|c: Seq<u32>, k: int, m: int|
            0 <= k < ids.len() && 0 <= m < c.len() && #[trigger] is_cycle(
                refs,
                c,
            ) implies #[trigger] ids[k] != #[trigger] c[m] by {
            assert(done.contains(ids[k]));
            assert(!done.contains(c[m]));
        }
    }
}

/// The reported cycle is a real one, and none is reported exactly when there is
/// none.
pub proof fn first_cycle_is_a_cycle(refs: Map<u32, Seq<u32>>, ids: Seq<u32>)
    requires
        refs.dom().finite(),
        forall|x: u32| refs.contains_key(x) <==> ids.contains(x),
    ensures
        match first_cycle(refs, ids) {
            Some(c) => is_cycle(refs, c),
            None => forall|c: Seq<u32>| !#[trigger] is_cycle(refs, c),
        },
{
    assert forall|k: int| 0 <= k < ids.len() implies refs.contains_key(#[trigger] ids[k]) by {
        assert(ids.contains(ids[k]));
    }
    lemma_search(refs, ids, 0, Set::empty());
    if first_cycle(refs, ids) is None {
        assert forall|c: Seq<u32>| !#[trigger] is_cycle(refs, c) by {
            if is_cycle(refs, c) {
                assert(refs.contains_key(c[0]));
                assert(ids.contains(c[0]));
                let k = choose|k: int| 0 <= k < ids.len() && ids[k] == c[0];
                assert(ids[k] != c[0]);
            }
        }
    }
}

/// How far the search has come with a member.
#[derive(Clone, Copy, PartialEq, Eq, Structural, Debug)]
enum Mark {
    White,
    Gray,
    Black,
}

/// The references a table holds.
pub open spec fn table_refs(table: Map<u32, Vec<u32>>) -> Map<u32, Seq<u32>> {
    table.map_values(|v: Vec<u32>| v@)
}

/// What holds of a stack of members and of how many references of each were
/// taken: those taken are finished, or next on the stack.
spec fn frames(refs: Map<u32, Seq<u32>>, path: Seq<u32>, next: Seq<usize>, done: Set<u32>) -> bool {
    &&& refs.dom().finite()
    &&& next.len() == path.len()
    &&& path.len() > 0 ==> is_chain(refs, path)
    &&& clear(refs, done)
    &&& done.subset_of(refs.dom())
    &&& forall|k: int| 0 <= k < path.len() ==> !done.contains(#[trigger] path[k])
    &&& forall|f: int, k: int|
        0 <= f < path.len() && 0 <= k < next[f] && k < refs[path[f]].len() && refs.contains_key(
            #[trigger] refs[path[f]][k],
        ) ==> done.contains(refs[path[f]][k]) || (f + 1 < path.len() && refs[path[f]][k] == path[f
            + 1])
}

/// What the search comes to from a stack: below its end, and if nothing turns up
/// there, below what is under it.
spec fn resume(
    refs: Map<u32, Seq<u32>>,
    path: Seq<u32>,
    next: Seq<usize>,
    done: Set<u32>,
) -> Explored
    decreases path.len(),
{
    if path.len() == 0 {
        Explored::Finished(done)
    } else {
        match explore(refs, path, next.last() as nat, done) {
            Explored::Found(c) => Explored::Found(c),
            Explored::Finished(d) => resume(refs, path.drop_last(), next.drop_last(), d),
        }
    }
}

spec fn marked(
    refs: Map<u32, Seq<u32>>,
    marks: Map<u32, Mark>,
    path: Seq<u32>,
    done: Set<u32>,
) -> bool {
    &&& marks.dom() == refs.dom()
    &&& forall|x: u32| #[trigger]
        marks.contains_key(x) ==> (marks[x] == Mark::Gray <==> path.contains(x)) && (marks[x]
            == Mark::Black <==> done.contains(x))
}

proof fn lemma_top_searching(
    refs: Map<u32, Seq<u32>>,
    path: Seq<u32>,
    next: Seq<usize>,
    done: Set<u32>,
)
    requires
        frames(refs, path, next, done),
        path.len() > 0,
    ensures
        searching(refs, path, next.last() as nat, done),
{
    let f = path.len() - 1;
    assert forall|k: int|
        0 <= k < next.last() && k < refs[path.last()].len() && refs.contains_key(
            #[trigger] refs[path.last()][k],
        ) implies done.contains(refs[path.last()][k]) by {
        assert(refs.contains_key(refs[path[f]][k]));
    }
}

/// Taking a reference to something finished or unknown.
proof fn lemma_skip(
    refs: Map<u32, Seq<u32>>,
    path: Seq<u32>,
    next: Seq<usize>,
    done: Set<u32>,
)
    requires
        frames(refs, path, next, done),
        path.len() > 0,
        next.last() < refs[path.last()].len() <= usize::MAX,
        !path.contains(refs[path.last()][next.last() as int]),
        done.contains(refs[path.last()][next.last() as int]) || !refs.contains_key(
            refs[path.last()][next.last() as int],
        ),
    ensures
        frames(refs, path, next.update(path.len() - 1, (next.last() + 1) as usize), done),
        resume(refs, path, next.update(path.len() - 1, (next.last() + 1) as usize), done) == resume(
            refs,
            path,
            next,
            done,
        ),
{
    let after = next.update(path.len() - 1, (next.last() + 1) as usize);
    assert(after.drop_last() =~= next.drop_last());
    assert forall|f: int, k: int|
        0 <= f < path.len() && 0 <= k < after[f] && k < refs[path[f]].len() && refs.contains_key(
            #[trigger] refs[path[f]][k],
        ) implies done.contains(refs[path[f]][k]) || (f + 1 < path.len() && refs[path[f]][k]
        == path[f + 1]) by {}
}

/// Going on to a member that was not met yet.
proof fn lemma_descend(
    refs: Map<u32, Seq<u32>>,
    path: Seq<u32>,
    next: Seq<usize>,
    done: Set<u32>,
)
    requires
        frames(refs, path, next, done),
        path.len() > 0,
        next.last() < refs[path.last()].len() <= usize::MAX,
        !path.contains(refs[path.last()][next.last() as int]),
        !done.contains(refs[path.last()][next.last() as int]),
        refs.contains_key(refs[path.last()][next.last() as int]),
    ensures
        ({
            let child = refs[path.last()][next.last() as int];
            let after = next.update(path.len() - 1, (next.last() + 1) as usize).push(0);
            &&& frames(refs, path.push(child), after, done)
            &&& resume(refs, path.push(child), after, done) == resume(refs, path, next, done)
        }),
{
    let child = refs[path.last()][next.last() as int];
    let moved = next.update(path.len() - 1, (next.last() + 1) as usize);
    let after = moved.push(0);
    let longer = path.push(child);
    assert(refs[path.last()].contains(child));
    assert(refs.contains_key(path[path.len() - 1]));
    assert forall|k: int, m: int|
        0 <= k && m == k + 1 && m < longer.len() implies #[trigger] refers(
        refs,
        longer[k],
        longer[m],
    ) by {
        if m < path.len() {
            assert(refers(refs, path[k], path[m]));
        }
    }
    assert forall|f: int, k: int|
        0 <= f < longer.len() && 0 <= k < after[f] && k < refs[longer[f]].len()
            && refs.contains_key(#[trigger] refs[longer[f]][k]) implies done.contains(
        refs[longer[f]][k],
    ) || (f + 1 < longer.len() && refs[longer[f]][k] == longer[f + 1]) by {
        assert(f < path.len());
        assert(longer[f] == path[f]);
        if k < next[f] {
            assert(refs.contains_key(refs[path[f]][k]));
        }
    }
    lemma_top_searching(refs, longer, after, done);
    lemma_explore(refs, longer, 0, done);
    assert(longer.drop_last() =~= path);
    assert(after.drop_last() =~= moved);
    assert(moved.drop_last() =~= next.drop_last());
    reveal_with_fuel(resume, 3);
    match explore(refs, longer, 0, done) {
        Explored::Found(c) => {},
        Explored::Finished(d) => {
            assert(done.union(d) =~= d);
        },
    }
}

/// Finishing the end of the stack.
proof fn lemma_ascend(
    refs: Map<u32, Seq<u32>>,
    path: Seq<u32>,
    next: Seq<usize>,
    done: Set<u32>,
)
    requires
        frames(refs, path, next, done),
        path.len() > 0,
        next.last() >= refs[path.last()].len(),
    ensures
        frames(refs, path.drop_last(), next.drop_last(), done.insert(path.last())),
        resume(refs, path.drop_last(), next.drop_last(), done.insert(path.last())) == resume(
            refs,
            path,
            next,
            done,
        ),
{
    let shorter = path.drop_last();
    let d = done.insert(path.last());
    lemma_top_searching(refs, path, next, done);
    assert(refs.contains_key(path[path.len() - 1]));
    lemma_finish(refs, done, path.last());
    if shorter.len() > 0 {
        assert forall|k: int, m: int|
            0 <= k && m == k + 1 && m < shorter.len() implies #[trigger] refers(
            refs,
            shorter[k],
            shorter[m],
        ) by {
            assert(refers(refs, path[k], path[m]));
        }
        assert forall|k: int| 0 <= k < shorter.len() implies refs.contains_key(
            #[trigger] shorter[k],
        ) by {
            assert(refs.contains_key(path[k]));
        }
    }
    assert forall|k: int| 0 <= k < shorter.len() implies !d.contains(#[trigger] shorter[k]) by {
        assert(path[k] != path[path.len() - 1]);
    }
    assert forall|f: int, k: int|
        0 <= f < shorter.len() && 0 <= k < next.drop_last()[f] && k < refs[shorter[f]].len()
            && refs.contains_key(#[trigger] refs[shorter[f]][k]) implies d.contains(
        refs[shorter[f]][k],
    ) || (f + 1 < shorter.len() && refs[shorter[f]][k] == shorter[f + 1]) by {
        assert(refs.contains_key(refs[path[f]][k]));
    }
}

/// Popping the end of the path and finishing it leaves the same untouched.
proof fn lemma_ascend_untouched(refs: Map<u32, Seq<u32>>, path: Seq<u32>, done: Set<u32>)
    requires
        path.len() > 0,
    ensures
        untouched(refs, path.drop_last(), done.insert(path.last())) == untouched(refs, path, done),
{
    let shorter = path.drop_last();
    assert forall|x: u32| path.contains(x) <==> shorter.contains(x) || x == path.last() by {
        if path.contains(x) {
            let i = choose|i: int| 0 <= i < path.len() && path[i] == x;
            if i < shorter.len() {
                assert(shorter[i] == x);
            }
        }
        if shorter.contains(x) {
            let i = choose|i: int| 0 <= i < shorter.len() && shorter[i] == x;
            assert(path[i] == x);
        }
        if x == path.last() {
            assert(path[path.len() - 1] == x);
        }
    }
    assert(untouched(refs, shorter, done.insert(path.last())) =~= untouched(refs, path, done));
}

/// Where a member stands on a stack.
fn position(stack: &Vec<u32>, x: u32) -> (r: usize)
    requires
        stack@.contains(x),
        stack@.no_duplicates(),
    ensures
        r < stack@.len(),
        r == stack@.index_of(x),
{
    let mut i: usize = 0;
    let n: usize = stack.len();
    while stack[i] != x
        invariant
            i < n,
            n == stack@.len(),
            stack@.contains(x),
            forall|j: int| 0 <= j < i ==> stack@[j] != x,
        decreases stack@.len() - i,
    {
        proof {
            let j = choose|j: int| 0 <= j < stack@.len() && stack@[j] == x;
            assert(j > i);
        }
        i = i + 1;
    }
    assert(stack@[stack@.index_of(x)] == x);
    i
}

fn tail(stack: &Vec<u32>, from: usize) -> (r: Vec<u32>)
    requires
        from <= stack@.len(),
    ensures
        r@ == stack@.skip(from as int),
{
    let mut out: Vec<u32> = Vec::new();
    let mut i: usize = from;
    while i < stack.len()
        invariant
            from <= i <= stack@.len(),
            out@ == stack@.subrange(from as int, i as int),
        decreases stack@.len() - i,
    {
        out.push(stack[i]);
        i = i + 1;
        assert(out@ =~= stack@.subrange(from as int, i as int));
    }
    assert(out@ =~= stack@.skip(from as int));
    out
}

/// The result of searching below one member.
enum Below {
    Found(Vec<u32>),
    Finished,
}

/// Search below one member that was not met yet. Iterative, so that deep chains
/// of references cannot exhaust the call stack.
fn search_below(
    table: &HashMap<u32, Vec<u32>>,
    root: u32,
    marks: &mut HashMap<u32, Mark>,
    Ghost(done): Ghost<Set<u32>>,
) -> (r: (Below, Ghost<Set<u32>>))
    requires
        table@.contains_key(root),
        !done.contains(root),
        frames(table_refs(table@), Seq::<u32>::empty(), Seq::<usize>::empty(), done),
        marked(table_refs(table@), old(marks)@, Seq::<u32>::empty(), done),
    ensures
        match r.0 {
            Below::Found(c) => explore(table_refs(table@), seq![root], 0, done)
                == Explored::Found(c@),
            Below::Finished => {
                &&& explore(table_refs(table@), seq![root], 0, done) == Explored::Finished(r.1@)
                &&& frames(
                    table_refs(table@),
                    Seq::<u32>::empty(),
                    Seq::<usize>::empty(),
                    r.1@,
                )
                &&& marked(table_refs(table@), final(marks)@, Seq::<u32>::empty(), r.1@)
            },
        },
{
    let ghost refs = table_refs(table@);
    let ghost mut ended = done;
    let ghost start = explore(refs, seq![root], 0, done);
    let mut stack: Vec<u32> = Vec::new();
    let mut next: Vec<usize> = Vec::new();
    stack.push(root);
    next.push(0);
    marks.insert(root, Mark::Gray);
    proof {
        assert(stack@ =~= seq![root]);
        assert(next@ =~= seq![0usize]);
        assert(stack@.drop_last() =~= Seq::<u32>::empty());
        assert(next@.drop_last() =~= Seq::<usize>::empty());
        assert(marks@.dom() =~= refs.dom());
        assert(forall|x: u32| stack@.contains(x) <==> x == root) by {
            assert(stack@[0] == root);
        }
        match start {
            Explored::Found(c) => {},
            Explored::Finished(d) => {
                assert(resume(refs, stack@.drop_last(), next@.drop_last(), d)
                    == Explored::Finished(d));
            },
        }
    }
    while stack.len() > 0
        invariant
            refs == table_refs(table@),
            start == explore(refs, seq![root], 0, done),
            frames(refs, stack@, next@, ended),
            marked(refs, marks@, stack@, ended),
            resume(refs, stack@, next@, ended) == start,
        decreases
            untouched(refs, stack@, ended).len(),
            stack@.len(),
            refs[stack@.last()].len() - next@.last(),
    {
        let top: usize = stack.len() - 1;
        let node: u32 = stack[top];
        let idx: usize = next[top];
        proof {
            assert(refs.contains_key(stack@[top as int]));
            lemma_top_searching(refs, stack@, next@, ended);
        }
        let ghost old_stack = stack@;
        let ghost old_next = next@;
        match table.get(&node) {
            Some(kids) => {
                assert(kids@ == refs[node]);
                if idx < kids.len() {
                    let child: u32 = kids[idx];
                    let mark = match marks.get(&child) {
                        Some(m) => Some(*m),
                        None => None,
                    };
                    match mark {
                        Some(Mark::Gray) => {
                            assert(marks@.contains_key(child));
                            let at: usize = position(&stack, child);
                            let c = tail(&stack, at);
                            return (Below::Found(c), Ghost(ended));
                        },
                        Some(Mark::White) => {
                            assert(marks@.contains_key(child));
                            proof {
                                lemma_descend(refs, old_stack, old_next, ended);
                                lemma_push_touches(refs, old_stack, ended, child);
                            }
                            next.set(top, idx + 1);
                            marks.insert(child, Mark::Gray);
                            stack.push(child);
                            next.push(0);
                            proof {
                                assert(marks@.dom() =~= refs.dom());
                                assert forall|x: u32|
                                    stack@.contains(x) <==> old_stack.contains(x) || x == child by {
                                    if stack@.contains(x) {
                                        let i = choose|i: int|
                                            0 <= i < stack@.len() && stack@[i] == x;
                                        if i < old_stack.len() {
                                            assert(old_stack[i] == x);
                                        }
                                    }
                                    if old_stack.contains(x) {
                                        let i = choose|i: int|
                                            0 <= i < old_stack.len() && old_stack[i] == x;
                                        assert(stack@[i] == x);
                                    }
                                    if x == child {
                                        assert(stack@[old_stack.len() as int] == x);
                                    }
                                }
                            }
                        },
                        _ => {
                            proof {
                                if refs.contains_key(child) {
                                    assert(marks@.contains_key(child));
                                }
                                if old_stack.contains(child) {
                                    let i = choose|i: int|
                                        0 <= i < old_stack.len() && old_stack[i] == child;
                                    assert(refs.contains_key(old_stack[i]));
                                }
                                lemma_skip(refs, old_stack, old_next, ended);
                            }
                            next.set(top, idx + 1);
                        },
                    }
                } else {
                    proof {
                        lemma_ascend(refs, old_stack, old_next, ended);
                        lemma_ascend_untouched(refs, old_stack, ended);
                    }
                    marks.insert(node, Mark::Black);
                    let _ = stack.pop();
                    let _ = next.pop();
                    proof {
                        assert(stack@ =~= old_stack.drop_last());
                        assert(next@ =~= old_next.drop_last());
                        assert forall|x: u32|
                            old_stack.contains(x) <==> stack@.contains(x) || x == node by {
                            if old_stack.contains(x) {
                                let i = choose|i: int|
                                    0 <= i < old_stack.len() && old_stack[i] == x;
                                if i < stack@.len() {
                                    assert(stack@[i] == x);
                                }
                            }
                            if stack@.contains(x) {
                                let i = choose|i: int| 0 <= i < stack@.len() && stack@[i] == x;
                                assert(old_stack[i] == x);
                            }
                        }
                        assert(!stack@.contains(node)) by {
                            if stack@.contains(node) {
                                let i = choose|i: int| 0 <= i < stack@.len() && stack@[i] == node;
                                assert(old_stack[i] == old_stack[top as int]);
                            }
                        }
                        ended = ended.insert(node);
                        assert(marks@.dom() =~= refs.dom());
                    }
                }
            },
            None => {
                assert(table@.contains_key(node));
            },
        }
    }
    assert(stack@ =~= Seq::<u32>::empty());
    assert(next@ =~= Seq::<usize>::empty());
    (Below::Finished, Ghost(ended))
}

/// The first cycle among the references of a table, its members searched in the
/// order listed.
pub fn find_cycle(table: &HashMap<u32, Vec<u32>>, ids: &Vec<u32>) -> (r: Option<Vec<u32>>)
    requires
        forall|x: u32| table@.contains_key(x) <==> ids@.contains(x),
    ensures
        match r {
            Some(c) => first_cycle(table_refs(table@), ids@) == Some(c@),
            None => first_cycle(table_refs(table@), ids@) is None,
        },
{
    let ghost refs = table_refs(table@);
    let ghost mut done: Set<u32> = Set::empty();
    let mut marks: HashMap<u32, Mark> = HashMap::new();
    let mut k: usize = 0;
    while k < ids.len()
        invariant
            k <= ids@.len(),
            forall|x: u32| #[trigger] marks@.contains_key(x) <==> ids@.take(k as int).contains(x),
            forall|x: u32| #[trigger] marks@.contains_key(x) ==> marks@[x] == Mark::White,
        decreases ids@.len() - k,
    {
        let ghost before = marks@;
        marks.insert(ids[k], Mark::White);
        proof {
            let seen = ids@.take(k as int);
            let now = ids@.take(k + 1);
            assert(now =~= seen.push(ids@[k as int]));
            assert forall|x: u32| #[trigger] marks@.contains_key(x) <==> now.contains(x) by {
                if now.contains(x) {
                    let i = choose|i: int| 0 <= i < now.len() && now[i] == x;
                    if i < k {
                        assert(seen[i] == x);
                    }
                }
                if before.contains_key(x) {
                    assert(seen.contains(x));
                    let i = choose|i: int| 0 <= i < seen.len() && seen[i] == x;
                    assert(now[i] == x);
                }
                assert(now[k as int] == ids@[k as int]);
            }
        }
        k = k + 1;
    }
    proof {
        assert(ids@.take(k as int) =~= ids@);
        assert forall|x: u32| marks@.dom().contains(x) <==> refs.dom().contains(x) by {
            assert(marks@.contains_key(x) <==> ids@.contains(x));
        }
        assert(marks@.dom() =~= refs.dom());
        assert(refs.dom() =~= table@.dom());
    }
    let mut i: usize = 0;
    while i < ids.len()
        invariant
            i <= ids@.len(),
            refs == table_refs(table@),
            forall|x: u32| table@.contains_key(x) <==> ids@.contains(x),
            frames(refs, Seq::<u32>::empty(), Seq::<usize>::empty(), done),
            marked(refs, marks@, Seq::<u32>::empty(), done),
            search_from(refs, ids@, i as int, done) == first_cycle(refs, ids@),
        decreases ids@.len() - i,
    {
        let root: u32 = ids[i];
        assert(ids@.contains(root));
        assert(marks@.dom().contains(root));
        let fresh = match marks.get(&root) {
            Some(m) => *m == Mark::White,
            None => false,
        };
        if fresh {
            assert(marks@.contains_key(root));
            let (below, Ghost(after)) = search_below(table, root, &mut marks, Ghost(done));
            match below {
                Below::Found(c) => {
                    return Some(c);
                },
                Below::Finished => {
                    proof {
                        done = after;
                    }
                },
            }
        } else {
            assert(marks@.contains_key(root));
            assert(!Seq::<u32>::empty().contains(root));
        }
        i = i + 1;
    }
    None
}

/// Whether a sequence is a cycle over links: distinct members, each linked to the
/// next and the last to the first.
pub open spec fn is_link_cycle(links: Map<u32, Set<u32>>, c: Seq<u32>) -> bool {
    &&& c.len() > 0
    &&& c.no_duplicates()
    &&& forall|k: int| 0 <= k < c.len() ==> links.contains_key(#[trigger] c[k])
    &&& forall|k: int, m: int|
        0 <= k && m == k + 1 && m < c.len() ==> #[trigger] linked(links, c[k], c[m])
    &&& linked(links, c.last(), c[0])
}

/// Whether `a` links to `b`.
pub open spec fn linked(links: Map<u32, Set<u32>>, a: u32, b: u32) -> bool {
    links.contains_key(a) && links[a].contains(b)
}

/// Whether references and a list of members are the links and their members in
/// ascending order.
pub open spec fn ordered_links(
    links: Map<u32, Set<u32>>,
    refs: Map<u32, Seq<u32>>,
    ids: Seq<u32>,
) -> bool {
    &&& lists(ids, links.dom())
    &&& refs.dom() == links.dom()
    &&& forall|a: u32| #[trigger] refs.contains_key(a) ==> lists(refs[a], links[a])
}

/// Whether a result is what the search comes to over links, everything taken in
/// ascending order.
pub open spec fn reports_cycle(links: Map<u32, Set<u32>>, r: Option<Seq<u32>>) -> bool {
    exists|refs: Map<u32, Seq<u32>>, ids: Seq<u32>| #[trigger]
        ordered_links(links, refs, ids) && first_cycle(refs, ids) == r
}

/// What is reported over links is one thing: a real cycle, or nothing exactly
/// when there is no cycle.
pub proof fn report_is_exact(links: Map<u32, Set<u32>>, a: Option<Seq<u32>>, b: Option<Seq<u32>>)
    requires
        links.dom().finite(),
        reports_cycle(links, a),
        reports_cycle(links, b),
    ensures
        a == b,
        match a {
            Some(c) => is_link_cycle(links, c),
            None => forall|c: Seq<u32>| !#[trigger] is_link_cycle(links, c),
        },
{
    let (refs, ids) = choose|refs: Map<u32, Seq<u32>>, ids: Seq<u32>| #[trigger]
        ordered_links(links, refs, ids) && first_cycle(refs, ids) == a;
    let (refs2, ids2) = choose|refs: Map<u32, Seq<u32>>, ids: Seq<u32>| #[trigger]
        ordered_links(links, refs, ids) && first_cycle(refs, ids) == b;
    ascending_lists_are_unique(ids, ids2, links.dom());
    assert forall|x: u32| #[trigger] refs.contains_key(x) implies refs[x] == refs2[x] by {
        assert(refs2.contains_key(x));
        ascending_lists_are_unique(refs[x], refs2[x], links[x]);
    }
    assert(refs =~= refs2);
    assert forall|x: u32, y: u32| #[trigger] refers(refs, x, y) == linked(links, x, y) by {
        if refs.contains_key(x) {
            assert(lists(refs[x], links[x]));
        }
    }
    assert forall|c: Seq<u32>| #[trigger] is_link_cycle(links, c) == is_cycle(refs, c) by {
        if is_link_cycle(links, c) {
            assert forall|k: int, m: int|
                0 <= k && m == k + 1 && m < c.len() implies #[trigger] refers(
                refs,
                c[k],
                c[m],
            ) by {
                assert(linked(links, c[k], c[m]));
            }
            assert(refers(refs, c.last(), c[0]));
        }
        if is_cycle(refs, c) {
            assert forall|k: int, m: int|
                0 <= k && m == k + 1 && m < c.len() implies #[trigger] linked(
                links,
                c[k],
                c[m],
            ) by {
                assert(refers(refs, c[k], c[m]));
            }
            assert(refers(refs, c.last(), c[0]));
        }
    }
    assert forall|x: u32| refs.contains_key(x) <==> ids.contains(x) by {
        assert(links.dom().contains(x) <==> ids.contains(x));
    }
    first_cycle_is_a_cycle(refs, ids);
    match a {
        Some(c) => {
            assert(is_link_cycle(links, c) == is_cycle(refs, c));
        },
        None => {},
    }
}

} // verus!
