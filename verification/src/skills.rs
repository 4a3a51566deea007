//! The skills mapping of a character sheet: skill names, each with one
//! rating, with last-write-wins overwrite semantics on insertion.

use vstd::prelude::*;

verus! {

/// One skill with its rating.
#[derive(Debug)]
pub struct SkillEntry {
    pub name: String,
    pub rating: u8,
}

/// A mapping from skill name to rating, kept as a list of entries with
/// pairwise-distinct names. Its mathematical view is a `Map` from the name's
/// characters to the rating.
#[derive(Debug)]
pub struct SkillMap {
    pub entries: Vec<SkillEntry>,
}

/// The map that a list of entries denotes, later entries overwriting earlier
/// ones.
pub open spec fn map_of_entries(entries: Seq<SkillEntry>) -> Map<Seq<char>, u8>
    decreases entries.len(),
{
    if entries.len() == 0 {
        Map::empty()
    } else {
        map_of_entries(entries.drop_last()).insert(
            entries.last().name@,
            entries.last().rating,
        )
    }
}

impl View for SkillMap {
    type V = Map<Seq<char>, u8>;

    open spec fn view(&self) -> Map<Seq<char>, u8> {
        map_of_entries(self.entries@)
    }
}

pub proof fn lemma_map_of_entries_key(entries: Seq<SkillEntry>, k: Seq<char>)
    ensures
        map_of_entries(entries).contains_key(k) <==> exists|i: int|
            0 <= i < entries.len() && #[trigger] entries[i].name@ == k,
    decreases entries.len(),
{
    if entries.len() > 0 {
        lemma_map_of_entries_key(entries.drop_last(), k);
        if entries.last().name@ == k {
            assert(entries[entries.len() - 1].name@ == k);
        } else if map_of_entries(entries.drop_last()).contains_key(k) {
            let i = choose|i: int|
                0 <= i < entries.drop_last().len() && #[trigger] entries.drop_last()[i].name@
                    == k;
            assert(entries[i].name@ == k);
        } else if exists|i: int| 0 <= i < entries.len() && #[trigger] entries[i].name@ == k {
            let i = choose|i: int| 0 <= i < entries.len() && #[trigger] entries[i].name@ == k;
            assert(entries.drop_last()[i].name@ == k);
        }
    }
}

impl SkillMap {
    /// Well-formed: no skill name occurs twice.
    pub open spec fn wf(self) -> bool {
        forall|i: int, j: int|
            0 <= i < j < self.entries@.len() ==> #[trigger] self.entries@[i].name@
                != #[trigger] self.entries@[j].name@
    }

    /// An empty mapping.
    pub fn new() -> (m: SkillMap)
        ensures
            m.wf(),
            m@ == Map::<Seq<char>, u8>::empty(),
            m.entries@.len() == 0,
    {
        SkillMap { entries: Vec::new() }
    }

    /// Number of skills in the mapping.
    pub fn len(&self) -> (n: usize)
        ensures
            n == self.entries@.len(),
    {
        self.entries.len()
    }

    /// Under well-formedness, the mapping holds exactly as many keys as the
    /// entry list holds entries.
    pub proof fn lemma_len_is_dom_len(self)
        requires
            self.wf(),
        ensures
            self@.dom().finite(),
            self@.dom().len() == self.entries@.len(),
    {
        lemma_entries_dom_len(self.entries@);
    }

    /// Record `name -> rating`, overwriting any earlier rating for the same
    /// name.
    pub fn insert(&mut self, name: String, rating: u8)
        requires
            old(self).wf(),
        ensures
            final(self).wf(),
            final(self)@ == old(self)@.insert(name@, rating),
            final(self).entries@.len() == if old(self)@.contains_key(name@) {
                old(self).entries@.len() as int
            } else {
                old(self).entries@.len() as int + 1
            },
    {
        let n = self.entries.len();
        let mut i: usize = 0;
        while i < n
            invariant
                n == self.entries@.len(),
                *self == *old(self),
                old(self).wf(),
                0 <= i <= n,
                forall|j: int| 0 <= j < i ==> #[trigger] self.entries@[j].name@ != name@,
            decreases n - i,
        {
            if self.entries[i].name == name {
                let ghost old_entries = self.entries@;
                self.entries[i] = SkillEntry { name, rating };
                proof {
                    let e = self.entries@[i as int];
                    assert(e.name@ == old_entries[i as int].name@);
                    assert forall|p: int, q: int|
                        0 <= p < q < self.entries@.len() implies #[trigger] self.entries@[p].name@
                        != #[trigger] self.entries@[q].name@ by {
                        assert(old_entries[p].name@ != old_entries[q].name@);
                    }
                    lemma_entries_update(old_entries, i as int, e);
                    assert(old_entries[i as int].name@ == name@);
                    lemma_map_of_entries_key(old_entries, name@);
                }
                return ;
            }
            i = i + 1;
        }
        proof {
            lemma_map_of_entries_key(self.entries@, name@);
        }
        self.entries.push(SkillEntry { name, rating });
        proof {
            assert(self.entries@.drop_last() =~= old(self).entries@);
        }
    }

    /// Look a skill up by name.
    pub fn get(&self, name: &String) -> (r: Option<u8>)
        requires
            self.wf(),
        ensures
            r == if self@.contains_key(name@) {
                Some(self@[name@])
            } else {
                None::<u8>
            },
    {
        proof {
            lemma_map_of_entries_key(self.entries@, name@);
        }
        let n = self.entries.len();
        let mut i: usize = 0;
        while i < n
            invariant
                n == self.entries@.len(),
                self.wf(),
                0 <= i <= n,
                forall|j: int| 0 <= j < i ==> #[trigger] self.entries@[j].name@ != name@,
            decreases n - i,
        {
            if self.entries[i].name == *name {
                proof {
                    lemma_entries_value(self.entries@, i as int);
                }
                return Some(self.entries[i].rating);
            }
            i = i + 1;
        }
        proof {
            lemma_map_of_entries_key(self.entries@, name@);
        }
        None
    }
}

/// Under distinct names, entry `i` gives the mapping's value at its name.
pub proof fn lemma_entries_value(entries: Seq<SkillEntry>, i: int)
    requires
        0 <= i < entries.len(),
        forall|p: int, q: int|
            0 <= p < q < entries.len() ==> #[trigger] entries[p].name@ != #[trigger] entries[q].name@,
    ensures
        map_of_entries(entries).contains_key(entries[i].name@),
        map_of_entries(entries)[entries[i].name@] == entries[i].rating,
    decreases entries.len(),
{
    if i < entries.len() - 1 {
        lemma_entries_value(entries.drop_last(), i);
        assert(entries.drop_last()[i] == entries[i]);
    }
}

proof fn lemma_entries_update(entries: Seq<SkillEntry>, i: int, e: SkillEntry)
    requires
        0 <= i < entries.len(),
        e.name@ == entries[i].name@,
        forall|p: int, q: int|
            0 <= p < q < entries.len() ==> #[trigger] entries[p].name@ != #[trigger] entries[q].name@,
    ensures
        map_of_entries(entries.update(i, e)) == map_of_entries(entries).insert(e.name@, e.rating),
    decreases entries.len(),
{
    let updated = entries.update(i, e);
    if i == entries.len() - 1 {
        assert(updated.drop_last() =~= entries.drop_last());
        assert(updated.last() == e);
        assert(map_of_entries(updated) == map_of_entries(entries.drop_last()).insert(
            e.name@,
            e.rating,
        ));
        assert(map_of_entries(entries) == map_of_entries(entries.drop_last()).insert(
            e.name@,
            e.rating,
        ).insert(entries[i].name@, entries[i].rating));
        assert(map_of_entries(entries).insert(e.name@, e.rating) =~= map_of_entries(
            entries.drop_last(),
        ).insert(e.name@, e.rating));
    } else {
        lemma_entries_update(entries.drop_last(), i, e);
        assert(updated.drop_last() =~= entries.drop_last().update(i, e));
        assert(updated.last() == entries.last());
        assert(map_of_entries(updated) == map_of_entries(entries.drop_last()).insert(
            e.name@,
            e.rating,
        ).insert(entries.last().name@, entries.last().rating));
        assert(entries.last().name@ != e.name@) by {
            assert(entries[i].name@ != entries[entries.len() - 1].name@);
        }
        assert(map_of_entries(entries.drop_last()).insert(e.name@, e.rating).insert(
            entries.last().name@,
            entries.last().rating,
        ) =~= map_of_entries(entries.drop_last()).insert(
            entries.last().name@,
            entries.last().rating,
        ).insert(e.name@, e.rating));
    }
}

proof fn lemma_entries_dom_len(entries: Seq<SkillEntry>)
    requires
        forall|p: int, q: int|
            0 <= p < q < entries.len() ==> #[trigger] entries[p].name@ != #[trigger] entries[q].name@,
    ensures
        map_of_entries(entries).dom().finite(),
        map_of_entries(entries).dom().len() == entries.len(),
    decreases entries.len(),
{
    if entries.len() > 0 {
        lemma_entries_dom_len(entries.drop_last());
        lemma_map_of_entries_key(entries.drop_last(), entries.last().name@);
        assert(forall|i: int|
            0 <= i < entries.drop_last().len() ==> #[trigger] entries.drop_last()[i].name@
                == entries[i].name@);
        assert(!map_of_entries(entries.drop_last()).contains_key(entries.last().name@)) by {
            if exists|i: int|
                0 <= i < entries.drop_last().len() && #[trigger] entries.drop_last()[i].name@
                    == entries.last().name@ {
                let i = choose|i: int|
                    0 <= i < entries.drop_last().len() && #[trigger] entries.drop_last()[i].name@
                        == entries.last().name@;
                assert(entries[i].name@ != entries[entries.len() - 1].name@);
            }
        }
    }
}

} // verus!
