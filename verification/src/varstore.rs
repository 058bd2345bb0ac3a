//! The shared variable store: a string-to-string mapping written by
//! producers whose response action stores variables, and read during
//! template substitution.  The view is a map, so every key has exactly one
//! binding; on a collision the last writer wins.
use vstd::prelude::*;

use crate::VarPairs;

verus! {

/// The mathematical content of a sequence of store entries: later entries
/// override earlier ones with the same key.
pub open spec fn map_of(s: Seq<(String, String)>) -> Map<Seq<char>, Seq<char>>
    decreases s.len(),
{
    if s.len() == 0 {
        Map::empty()
    } else {
        map_of(s.drop_last()).insert(s.last().0@, s.last().1@)
    }
}

/// The views of a pair vector.
pub open spec fn pairs_view(ps: Seq<(String, String)>) -> Seq<(Seq<char>, Seq<char>)> {
    ps.map_values(|p: (String, String)| (p.0@, p.1@))
}

/// Inserting every pair of `pairs` into `m`, in order.
pub open spec fn insert_all(
    m: Map<Seq<char>, Seq<char>>,
    pairs: Seq<(Seq<char>, Seq<char>)>,
) -> Map<Seq<char>, Seq<char>>
    decreases pairs.len(),
{
    if pairs.len() == 0 {
        m
    } else {
        insert_all(m, pairs.drop_last()).insert(pairs.last().0, pairs.last().1)
    }
}

/// The shared string-to-string mapping.  Entries are kept arena-style, in
/// write order; a superseded binding is shadowed by the newer one rather
/// than destroyed, and only the newest binding of a key is visible.  One
/// store outlives all producers; callers that share it across tasks put it
/// behind a reader/writer lock and hold that lock only across a single
/// `get`/`set`/`store_variable` call.
pub struct VariableStore {
    entries: Vec<(String, String)>,
}

impl View for VariableStore {
    type V = Map<Seq<char>, Seq<char>>;

    closed spec fn view(&self) -> Map<Seq<char>, Seq<char>> {
        map_of(self.entries@)
    }
}

proof fn lemma_map_of_contains(s: Seq<(String, String)>, k: Seq<char>)
    ensures
        map_of(s).contains_key(k) <==> exists|i: int| 0 <= i < s.len() && s[i].0@ == k,
    decreases s.len(),
{
    if s.len() > 0 {
        lemma_map_of_contains(s.drop_last(), k);
        if s.last().0@ != k && map_of(s).contains_key(k) {
            let i = choose|i: int| 0 <= i < s.drop_last().len() && s.drop_last()[i].0@ == k;
            assert(s[i].0@ == k);
        }
        if exists|i: int| 0 <= i < s.len() && s[i].0@ == k {
            let i = choose|i: int| 0 <= i < s.len() && s[i].0@ == k;
            if i < s.len() - 1 {
                assert(s.drop_last()[i].0@ == k);
            }
        }
    }
}

proof fn lemma_map_of_newest(s: Seq<(String, String)>, i: int)
    requires
        0 <= i < s.len(),
        forall|j: int| i < j < s.len() ==> s[j].0@ != s[i].0@,
    ensures
        map_of(s).contains_key(s[i].0@),
        map_of(s)[s[i].0@] == s[i].1@,
    decreases s.len(),
{
    if i < s.len() - 1 {
        assert(forall|j: int|
            i < j < s.drop_last().len() ==> s.drop_last()[j].0@ != s.drop_last()[i].0@);
        lemma_map_of_newest(s.drop_last(), i);
        assert(s.drop_last()[i] == s[i]);
    }
}

impl VariableStore {
    /// An empty store.
    pub fn new() -> (store: VariableStore)
        ensures
            store@ == Map::<Seq<char>, Seq<char>>::empty(),
    {
        VariableStore { entries: Vec::new() }
    }

    /// Looks a variable up by name; the newest binding of the name wins.
    pub fn get(&self, name: &str) -> (value: Option<String>)
        ensures
            match value {
                Some(v) => self@.contains_key(name@) && v@ == self@[name@],
                None => !self@.contains_key(name@),
            },
    {
        let key: String = name.to_owned();
        let mut i = self.entries.len();
        while i > 0
            invariant
                i <= self.entries@.len(),
                key@ == name@,
                forall|p: int| i <= p < self.entries@.len() ==> self.entries@[p].0@ != name@,
            decreases i,
        {
            i = i - 1;
            if self.entries[i].0 == key {
                proof {
                    lemma_map_of_newest(self.entries@, i as int);
                }
                return Some(self.entries[i].1.clone());
            }
        }
        proof {
            lemma_map_of_contains(self.entries@, name@);
        }
        None
    }

    /// Binds `name` to `value`, shadowing any earlier binding of `name`.
    pub fn set(&mut self, name: String, value: String)
        ensures
            final(self)@ == old(self)@.insert(name@, value@),
    {
        let ghost pre = self.entries@;
        self.entries.push((name, value));
        proof {
            assert(self.entries@.drop_last() =~= pre);
        }
    }
}

/// Writes every pair into the store, in order; on a key collision the
/// later pair wins, inside `pairs` as well as against older bindings.
pub fn store_variable(storage_var: &mut VariableStore, pairs: &VarPairs)
    ensures
        final(storage_var)@ == insert_all(old(storage_var)@, pairs_view(pairs@)),
{
    let ghost vs = pairs_view(pairs@);
    let n = pairs.len();
    for i in 0..n
        invariant
            n == pairs@.len(),
            vs == pairs_view(pairs@),
            storage_var@ == insert_all(old(storage_var)@, vs.subrange(0, i as int)),
    {
        let entry = &pairs[i];
        storage_var.set(entry.0.clone(), entry.1.clone());
        proof {
            assert(vs.subrange(0, i + 1).drop_last() =~= vs.subrange(0, i as int));
            assert(vs.subrange(0, i + 1).last() == (pairs@[i as int].0@, pairs@[i as int].1@));
        }
    }
    proof {
        assert(vs.subrange(0, vs.len() as int) =~= vs);
    }
}

/// The round trip law: after `store_variable`, every key that was written is
/// bound, and reading it back gives the value of the last pair that wrote it.
pub proof fn lemma_store_round_trip(
    m: Map<Seq<char>, Seq<char>>,
    pairs: Seq<(Seq<char>, Seq<char>)>,
    i: int,
)
    requires
        0 <= i < pairs.len(),
        forall|j: int| i < j < pairs.len() ==> pairs[j].0 != pairs[i].0,
    ensures
        insert_all(m, pairs).contains_key(pairs[i].0),
        insert_all(m, pairs)[pairs[i].0] == pairs[i].1,
    decreases pairs.len(),
{
    if i < pairs.len() - 1 {
        assert(forall|j: int|
            i < j < pairs.drop_last().len() ==> pairs.drop_last()[j].0 != pairs.drop_last()[i].0);
        lemma_store_round_trip(m, pairs.drop_last(), i);
        assert(pairs.drop_last()[i] == pairs[i]);
    }
}

} // verus!
