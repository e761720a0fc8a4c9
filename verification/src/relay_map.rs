//! An ordered map from relay block hashes to parachain header proofs.

use vstd::prelude::*;
use crate::hash::{
    lemma_lex_lt_total, lemma_lex_lt_transitive, lemma_same_bytes, lex_lt, BlockHash,
};
use crate::primitives::{ParachainHeaderProofs, ParachainHeaderProofsView};

verus! {

/// A key with its value, as plain values.
pub type Entry = (Seq<u8>, ParachainHeaderProofsView);

/// The map that a list of entries stands for: a later entry replaces an
/// earlier one with the same key.
pub open spec fn as_map(entries: Seq<Entry>) -> Map<Seq<u8>, ParachainHeaderProofsView>
    decreases entries.len(),
{
    if entries.len() == 0 {
        Map::empty()
    } else {
        as_map(entries.drop_last()).insert(entries.last().0, entries.last().1)
    }
}

/// The keys are 32 bytes long and strictly ascending in byte-wise order.
pub open spec fn ascending(entries: Seq<Entry>) -> bool {
    &&& forall|i: int| 0 <= i < entries.len() ==> (#[trigger] entries[i]).0.len() == 32
    &&& forall|i: int, j: int|
        0 <= i < j < entries.len() ==> lex_lt((#[trigger] entries[i]).0, (#[trigger] entries[j]).0)
}

/// A key is in the map of a list exactly if some entry of the list has it.
pub proof fn lemma_as_map_domain(entries: Seq<Entry>, key: Seq<u8>)
    ensures
        as_map(entries).contains_key(key) <==> exists|i: int|
            0 <= i < entries.len() && (#[trigger] entries[i]).0 == key,
    decreases entries.len(),
{
    if entries.len() > 0 {
        let front = entries.drop_last();
        lemma_as_map_domain(front, key);
        if as_map(entries).contains_key(key) {
            if entries.last().0 == key {
                assert(entries[entries.len() - 1].0 == key);
            } else {
                let i = choose|i: int| 0 <= i < front.len() && (#[trigger] front[i]).0 == key;
                assert(entries[i].0 == key);
            }
        }
        if exists|i: int| 0 <= i < entries.len() && (#[trigger] entries[i]).0 == key {
            let i = choose|i: int| 0 <= i < entries.len() && (#[trigger] entries[i]).0 == key;
            if i < front.len() {
                assert(front[i].0 == key);
            }
        }
    }
}

/// In an ascending list every entry is what the map holds under its key.
pub proof fn lemma_as_map_value(entries: Seq<Entry>, i: int)
    requires
        ascending(entries),
        0 <= i < entries.len(),
    ensures
        as_map(entries).contains_key(entries[i].0),
        as_map(entries)[entries[i].0] == entries[i].1,
    decreases entries.len(),
{
    let front = entries.drop_last();
    if i < entries.len() - 1 {
        assert(ascending(front)) by {
            assert forall|a: int, b: int| 0 <= a < b < front.len() implies lex_lt(
                (#[trigger] front[a]).0,
                (#[trigger] front[b]).0,
            ) by {
                assert(front[a] == entries[a] && front[b] == entries[b]);
            }
            assert forall|a: int| 0 <= a < front.len() implies (#[trigger] front[a]).0.len()
                == 32 by {
                assert(front[a] == entries[a]);
            }
        }
        lemma_as_map_value(front, i);
        assert(lex_lt(entries[i].0, entries[entries.len() - 1].0));
        lemma_lex_lt_total(entries[i].0, entries.last().0);
    }
}

/// Dropping the greatest entry of an ascending list removes its key from the
/// map and leaves the list ascending.
proof fn lemma_drop_last_removes(entries: Seq<Entry>)
    requires
        ascending(entries),
        entries.len() > 0,
    ensures
        ascending(entries.drop_last()),
        as_map(entries.drop_last()) == as_map(entries).remove(entries.last().0),
{
    let front = entries.drop_last();
    assert forall|a: int, b: int| 0 <= a < b < front.len() implies lex_lt(
        (#[trigger] front[a]).0,
        (#[trigger] front[b]).0,
    ) by {
        assert(front[a] == entries[a] && front[b] == entries[b]);
    }
    assert forall|a: int| 0 <= a < front.len() implies (#[trigger] front[a]).0.len() == 32 by {
        assert(front[a] == entries[a]);
    }
    lemma_as_map_domain(front, entries.last().0);
    if as_map(front).contains_key(entries.last().0) {
        let i = choose|i: int| 0 <= i < front.len() && (#[trigger] front[i]).0 == entries.last().0;
        assert(front[i] == entries[i]);
        assert(lex_lt(entries[i].0, entries[entries.len() - 1].0));
        lemma_lex_lt_total(entries[i].0, entries.last().0);
    }
    assert(as_map(front) =~= as_map(entries).remove(entries.last().0));
}

/// An ascending list stands for a map with as many keys as the list has
/// entries.
pub proof fn lemma_as_map_len(entries: Seq<Entry>)
    requires
        ascending(entries),
    ensures
        as_map(entries).dom().finite(),
        as_map(entries).dom().len() == entries.len(),
    decreases entries.len(),
{
    if entries.len() > 0 {
        let front = entries.drop_last();
        lemma_drop_last_removes(entries);
        lemma_as_map_len(front);
        assert(!as_map(front).contains_key(entries.last().0));
        assert(as_map(entries).dom() =~= as_map(front).dom().insert(entries.last().0));
    } else {
        assert(as_map(entries).dom() =~= Set::<Seq<u8>>::empty());
    }
}

/// Putting an entry with a new key into an ascending list, at the place that
/// keeps the list ascending, inserts it into the map.
proof fn lemma_insert_entry(
    entries: Seq<Entry>,
    at: int,
    key: Seq<u8>,
    value: ParachainHeaderProofsView,
)
    requires
        ascending(entries),
        0 <= at <= entries.len(),
        ascending(entries.insert(at, (key, value))),
    ensures
        as_map(entries.insert(at, (key, value))) == as_map(entries).insert(key, value),
{
    let grown = entries.insert(at, (key, value));
    let expected = as_map(entries).insert(key, value);
    assert forall|x: Seq<u8>| as_map(grown).contains_key(x) <==> expected.contains_key(x) by {
        lemma_as_map_domain(grown, x);
        lemma_as_map_domain(entries, x);
        if as_map(grown).contains_key(x) {
            let i = choose|i: int| 0 <= i < grown.len() && (#[trigger] grown[i]).0 == x;
            if i < at {
                assert(entries[i].0 == x);
            } else if i > at {
                assert(entries[i - 1].0 == x);
            }
        }
        if expected.contains_key(x) {
            if x == key {
                assert(grown[at].0 == x);
            } else {
                let j = choose|j: int| 0 <= j < entries.len() && (#[trigger] entries[j]).0 == x;
                if j < at {
                    assert(grown[j].0 == x);
                } else {
                    assert(grown[j + 1].0 == x);
                }
            }
        }
    }
    assert forall|x: Seq<u8>| as_map(grown).contains_key(x) implies as_map(grown)[x]
        == expected[x] by {
        lemma_as_map_domain(entries, x);
        if x == key {
            lemma_as_map_value(grown, at);
        } else {
            assert(expected.contains_key(x));
            assert(as_map(entries).contains_key(x));
            let j = choose|j: int| 0 <= j < entries.len() && (#[trigger] entries[j]).0 == x;
            lemma_as_map_value(entries, j);
            if j < at {
                lemma_as_map_value(grown, j);
            } else {
                lemma_as_map_value(grown, j + 1);
            }
        }
    }
    assert(as_map(grown) =~= expected);
}

/// Replacing the value of an entry of an ascending list inserts the new value
/// into the map, under the same key.
proof fn lemma_replace_entry(entries: Seq<Entry>, at: int, value: ParachainHeaderProofsView)
    requires
        ascending(entries),
        0 <= at < entries.len(),
    ensures
        ascending(entries.update(at, (entries[at].0, value))),
        as_map(entries.update(at, (entries[at].0, value))) == as_map(entries).insert(
            entries[at].0,
            value,
        ),
{
    let key = entries[at].0;
    let changed = entries.update(at, (key, value));
    let expected = as_map(entries).insert(key, value);
    assert(ascending(changed)) by {
        assert forall|a: int, b: int| 0 <= a < b < changed.len() implies lex_lt(
            (#[trigger] changed[a]).0,
            (#[trigger] changed[b]).0,
        ) by {
            assert(changed[a].0 == entries[a].0 && changed[b].0 == entries[b].0);
        }
        assert forall|a: int| 0 <= a < changed.len() implies (#[trigger] changed[a]).0.len()
            == 32 by {
            assert(changed[a].0 == entries[a].0);
        }
    }
    assert forall|x: Seq<u8>| as_map(changed).contains_key(x) <==> expected.contains_key(x) by {
        lemma_as_map_domain(changed, x);
        lemma_as_map_domain(entries, x);
        if as_map(changed).contains_key(x) {
            let i = choose|i: int| 0 <= i < changed.len() && (#[trigger] changed[i]).0 == x;
            assert(entries[i].0 == x);
        }
        if expected.contains_key(x) {
            if x == key {
                assert(changed[at].0 == x);
            } else {
                let j = choose|j: int| 0 <= j < entries.len() && (#[trigger] entries[j]).0 == x;
                assert(changed[j].0 == x);
            }
        }
    }
    assert forall|x: Seq<u8>| as_map(changed).contains_key(x) implies as_map(changed)[x]
        == expected[x] by {
        lemma_as_map_domain(entries, x);
        if x == key {
            lemma_as_map_value(changed, at);
        } else {
            assert(expected.contains_key(x));
            assert(as_map(entries).contains_key(x));
            let j = choose|j: int| 0 <= j < entries.len() && (#[trigger] entries[j]).0 == x;
            lemma_as_map_value(entries, j);
            lemma_as_map_value(changed, j);
        }
    }
    assert(as_map(changed) =~= expected);
}

/// The entries that a vector of keys and values holds, as plain values.
pub open spec fn entry_views(entries: Seq<(BlockHash, ParachainHeaderProofs)>) -> Seq<Entry> {
    Seq::new(entries.len(), |i: int| (entries[i].0@, entries[i].1@))
}

/// Parachain header proofs by relay block hash. The keys are kept in
/// ascending byte-wise order, and no key occurs twice.
#[derive(Debug, PartialEq, Eq)]
pub struct ParachainHeaderMap {
    entries: Vec<(BlockHash, ParachainHeaderProofs)>,
}

impl View for ParachainHeaderMap {
    type V = Map<Seq<u8>, ParachainHeaderProofsView>;

    open spec fn view(&self) -> Map<Seq<u8>, ParachainHeaderProofsView> {
        as_map(self.entries())
    }
}

impl ParachainHeaderMap {
    /// The entries of the map, in ascending order of their keys.
    pub closed spec fn entries(&self) -> Seq<Entry> {
        entry_views(self.entries@)
    }

    /// The entries are in strictly ascending order of their keys.
    #[verifier::type_invariant]
    pub closed spec fn wf(&self) -> bool {
        ascending(self.entries())
    }

    /// A well-formed map lists its entries in ascending order.
    pub proof fn lemma_entries_ascending(&self)
        requires
            self.wf(),
        ensures
            ascending(self.entries()),
    {
    }

    /// The empty map.
    pub fn new() -> (map: ParachainHeaderMap)
        ensures
            map.entries() == Seq::<Entry>::empty(),
            map@ == Map::<Seq<u8>, ParachainHeaderProofsView>::empty(),
            map.wf(),
    {
        let map = ParachainHeaderMap { entries: Vec::new() };
        assert(map.entries() =~= Seq::<Entry>::empty());
        map
    }

    /// Number of entries.
    pub fn len(&self) -> (n: usize)
        ensures
            n == self.entries().len(),
            n == self@.dom().len(),
            self@.dom().finite(),
    {
        proof {
            use_type_invariant(self);
            lemma_as_map_len(self.entries());
        }
        self.entries.len()
    }

    /// The key of the entry at position `i` in ascending order.
    pub fn key_at(&self, i: usize) -> (key: BlockHash)
        requires
            i < self.entries().len(),
        ensures
            key@ == self.entries()[i as int].0,
    {
        self.entries[i].0
    }

    /// The proofs of the entry at position `i` in ascending order.
    pub fn proofs_at(&self, i: usize) -> (proofs: &ParachainHeaderProofs)
        requires
            i < self.entries().len(),
        ensures
            proofs@ == self.entries()[i as int].1,
    {
        &self.entries[i].1
    }

    /// The entries of the map, in ascending order of their keys.
    pub fn into_entries(self) -> (entries: Vec<(BlockHash, ParachainHeaderProofs)>)
        ensures
            entry_views(entries@) == self.entries(),
            ascending(entry_views(entries@)),
    {
        proof {
            use_type_invariant(&self);
        }
        self.entries
    }

    /// The proofs held under `key`, if any.
    pub fn get(&self, key: &BlockHash) -> (found: Option<&ParachainHeaderProofs>)
        ensures
            match found {
                Some(proofs) => self@.contains_key(key@) && self@[key@] == proofs@,
                None => !self@.contains_key(key@),
            },
    {
        proof {
            use_type_invariant(self);
        }
        let mut i: usize = 0;
        while i < self.entries.len()
            invariant
                i <= self.entries@.len(),
                ascending(self.entries()),
                forall|j: int| 0 <= j < i ==> (#[trigger] self.entries()[j]).0 != key@,
            decreases self.entries@.len() - i,
        {
            proof {
                lemma_same_bytes(self.entries@[i as int].0, *key);
            }
            if self.entries[i].0 == *key {
                proof {
                    lemma_as_map_value(self.entries(), i as int);
                }
                return Some(&self.entries[i].1);
            }
            i = i + 1;
        }
        proof {
            lemma_as_map_domain(self.entries(), key@);
        }
        None
    }

    /// Whether the map holds proofs under `key`.
    pub fn contains_key(&self, key: &BlockHash) -> (found: bool)
        ensures
            found == self@.contains_key(key@),
    {
        self.get(key).is_some()
    }

    /// Puts `value` under `key`; what was held under `key` before is replaced.
    pub fn insert(&mut self, key: BlockHash, value: ParachainHeaderProofs)
        ensures
            final(self)@ == old(self)@.insert(key@, value@),
            final(self).wf(),
    {
        proof {
            use_type_invariant(&*self);
        }
        let mut entries: Vec<(BlockHash, ParachainHeaderProofs)> = Vec::new();
        core::mem::swap(&mut self.entries, &mut entries);
        let ghost before = entry_views(entries@);
        let mut at: usize = 0;
        while at < entries.len() && entries[at].0.precedes(&key)
            invariant
                at <= entries@.len(),
                before == entry_views(entries@),
                forall|j: int| 0 <= j < at ==> lex_lt((#[trigger] before[j]).0, key@),
            decreases entries@.len() - at,
        {
            at = at + 1;
        }
        proof {
            if at < entries@.len() {
                lemma_same_bytes(entries@[at as int].0, key);
            }
        }
        if at < entries.len() && entries[at].0 == key {
            proof {
                lemma_replace_entry(before, at as int, value@);
            }
            entries[at] = (key, value);
            assert(entry_views(entries@) =~= before.update(at as int, (key@, value@)));
        } else {
            let ghost grown = before.insert(at as int, (key@, value@));
            proof {
                assert forall|a: int, b: int| 0 <= a < b < grown.len() implies lex_lt(
                    (#[trigger] grown[a]).0,
                    (#[trigger] grown[b]).0,
                ) by {
                    if at < before.len() {
                        lemma_lex_lt_total(before[at as int].0, key@);
                        if b > at + 1 {
                            assert(lex_lt(before[at as int].0, before[b - 1].0));
                            lemma_lex_lt_transitive(key@, before[at as int].0, before[b - 1].0);
                        }
                    }
                    if b < at {
                        assert(lex_lt(before[a].0, before[b].0));
                    } else if a > at {
                        assert(lex_lt(before[a - 1].0, before[b - 1].0));
                    } else if a < at && b > at {
                        assert(lex_lt(before[a].0, before[b - 1].0));
                    }
                }
                assert forall|a: int| 0 <= a < grown.len() implies (#[trigger] grown[a]).0.len()
                    == 32 by {
                    if a < at {
                        assert(before[a].0.len() == 32);
                    } else if a > at {
                        assert(before[a - 1].0.len() == 32);
                    }
                }
                lemma_insert_entry(before, at as int, key@, value@);
            }
            entries.insert(at, (key, value));
            assert(entry_views(entries@) =~= grown);
        }
        self.entries = entries;
    }
}

impl Clone for ParachainHeaderMap {
    fn clone(&self) -> (copy: ParachainHeaderMap)
        ensures
            copy.entries() == self.entries(),
            copy@ == self@,
            copy.wf(),
    {
        proof {
            use_type_invariant(self);
        }
        let mut entries: Vec<(BlockHash, ParachainHeaderProofs)> = Vec::new();
        let mut i: usize = 0;
        while i < self.entries.len()
            invariant
                i <= self.entries@.len(),
                entries@.len() == i,
                forall|j: int|
                    0 <= j < i ==> (#[trigger] entries@[j]).0@ == self.entries@[j].0@
                        && entries@[j].1@ == self.entries@[j].1@,
            decreases self.entries@.len() - i,
        {
            entries.push((self.entries[i].0, self.entries[i].1.clone()));
            i = i + 1;
        }
        assert(entry_views(entries@) =~= self.entries());
        ParachainHeaderMap { entries }
    }
}

} // verus!
