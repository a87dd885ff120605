//! Named scalar parameters carried beside a graph.
use crate::scalar::Single;
use crate::text::same_text;
use vstd::prelude::*;

verus! {

/// A set of named scalars.
#[derive(Clone, Debug)]
pub struct ScalarParams {
    entries: Vec<(String, Single)>,
}

/// A biome's named scalars.
pub type BiomeParams = ScalarParams;

/// The world's named scalars.
pub type WorldParams = ScalarParams;

/// The scalars that a list of entries gives; of two with one name, the later.
pub open spec fn named_values(entries: Seq<(String, Single)>) -> Map<Seq<char>, Single>
    decreases entries.len(),
{
    if entries.len() == 0 {
        Map::empty()
    } else {
        named_values(entries.drop_last()).insert(entries.last().0@, entries.last().1)
    }
}

proof fn lemma_remove_entry(entries: Seq<(String, Single)>, i: int, name: Seq<char>)
    requires
        0 <= i < entries.len(),
        entries[i].0@ != name,
    ensures
        named_values(entries.remove(i)).contains_key(name) == named_values(entries).contains_key(
            name,
        ),
        named_values(entries).contains_key(name) ==> named_values(entries.remove(i))[name]
            == named_values(entries)[name],
    decreases entries.len(),
{
    if i < entries.len() - 1 {
        lemma_remove_entry(entries.drop_last(), i, name);
        assert(entries.remove(i).drop_last() =~= entries.drop_last().remove(i));
        assert(entries.remove(i).last() == entries.last());
    } else {
        assert(entries.remove(i) =~= entries.drop_last());
    }
}

proof fn lemma_prefix_decides(entries: Seq<(String, Single)>, name: Seq<char>, k: int)
    requires
        0 <= k <= entries.len(),
        forall|i: int| k <= i < entries.len() ==> (#[trigger] entries[i]).0@ != name,
    ensures
        named_values(entries).contains_key(name) == named_values(entries.take(k)).contains_key(
            name,
        ),
        named_values(entries).contains_key(name) ==> named_values(entries)[name] == named_values(
            entries.take(k),
        )[name],
    decreases entries.len() - k,
{
    if k < entries.len() {
        assert(entries[k].0@ != name);
        lemma_prefix_decides(entries, name, k + 1);
        assert(entries.take(k + 1).drop_last() =~= entries.take(k));
    } else {
        assert(entries.take(k) =~= entries);
    }
}

impl ScalarParams {
    /// The scalars by name.
    pub closed spec fn view(&self) -> Map<Seq<char>, Single> {
        named_values(self.entries@)
    }

    /// Empty parameter set.
    pub fn new() -> (r: Self)
        ensures
            r@ == Map::<Seq<char>, Single>::empty(),
    {
        ScalarParams { entries: Vec::new() }
    }

    /// Build from names and values; of two values for one name, the later.
    pub fn from_entries(entries: Vec<(String, Single)>) -> (r: Self)
        ensures
            r@ == named_values(entries@),
    {
        ScalarParams { entries }
    }

    /// The value of a name, or `None` if unset.
    pub fn get(&self, name: &str) -> (r: Option<Single>)
        ensures
            r == (if self@.contains_key(name@) {
                Some(self@[name@])
            } else {
                None
            }),
    {
        let mut k: usize = self.entries.len();
        while k > 0
            invariant
                k <= self.entries@.len(),
                forall|i: int|
                    k <= i < self.entries@.len() ==> (#[trigger] self.entries@[i]).0@ != name@,
            decreases k,
        {
            k = k - 1;
            if same_text(self.entries[k].0.as_str(), name) {
                proof {
                    lemma_prefix_decides(self.entries@, name@, k + 1);
                    assert(self.entries@.take(k + 1).last() == self.entries@[k as int]);
                }
                return Some(self.entries[k].1);
            }
        }
        proof {
            lemma_prefix_decides(self.entries@, name@, 0);
            assert(self.entries@.take(0) =~= Seq::<(String, Single)>::empty());
        }
        None
    }

    /// The value of a name, or a default if unset.
    pub fn get_or(&self, name: &str, default: Single) -> (r: Single)
        ensures
            r == (if self@.contains_key(name@) {
                self@[name@]
            } else {
                default
            }),
    {
        match self.get(name) {
            Some(v) => v,
            None => default,
        }
    }

    /// Insert or replace a parameter.
    pub fn set(&mut self, name: String, value: Single)
        ensures
            final(self)@ == old(self)@.insert(name@, value),
    {
        let ghost before = self@;
        let ghost text = name@;
        let mut k: usize = 0;
        while k < self.entries.len()
            invariant
                k <= self.entries@.len(),
                text == name@,
                forall|n: Seq<char>|
                    n != text ==> named_values(self.entries@).contains_key(n)
                        == before.contains_key(n),
                forall|n: Seq<char>|
                    n != text && before.contains_key(n) ==> #[trigger] named_values(
                        self.entries@,
                    )[n] == before[n],
            decreases self.entries@.len() - k,
        {
            if same_text(self.entries[k].0.as_str(), name.as_str()) {
                let ghost held = self.entries@;
                let _ = self.entries.remove(k);
                proof {
                    assert(self.entries@ =~= held.remove(k as int));
                    assert forall|n: Seq<char>| n != text implies named_values(
                        self.entries@,
                    ).contains_key(n) == before.contains_key(n) by {
                        lemma_remove_entry(held, k as int, n);
                    }
                    assert forall|n: Seq<char>|
                        n != text && before.contains_key(n) implies #[trigger] named_values(
                        self.entries@,
                    )[n] == before[n] by {
                        lemma_remove_entry(held, k as int, n);
                        assert(named_values(held)[n] == before[n]);
                    }
                }
            } else {
                k = k + 1;
            }
        }
        let ghost held = self.entries@;
        self.entries.push((name, value));
        proof {
            assert(self.entries@.drop_last() =~= held);
            assert(self@ =~= before.insert(text, value));
        }
    }

    /// Whether no parameter is set.
    pub fn is_empty(&self) -> (r: bool)
        ensures
            r == (self@ == Map::<Seq<char>, Single>::empty()),
    {
        proof {
            if self.entries@.len() > 0 {
                assert(self@.contains_key(self.entries@.last().0@));
            }
        }
        self.entries.len() == 0
    }
}

impl Default for ScalarParams {
    fn default() -> (r: Self)
        ensures
            r@ == Map::<Seq<char>, Single>::empty(),
    {
        ScalarParams::new()
    }
}

} // verus!
