//! Named grammar artifacts and the ordered registry that holds them.

use vstd::prelude::*;

verus! {

/// What a grammar entry is, mathematically: a language name and the bytes of
/// its compiled grammar.
pub struct EntryModel {
    pub name: Seq<char>,
    pub artifact: Seq<u8>,
}

/// A language name paired with its compiled grammar.
///
/// The fields are private and no method changes them: once built, an entry
/// keeps its name and its bytes.
#[derive(Debug)]
pub struct GrammarEntry {
    name: String,
    artifact: Vec<u8>,
}

impl View for GrammarEntry {
    type V = EntryModel;

    closed spec fn view(&self) -> EntryModel {
        EntryModel { name: self.name@, artifact: self.artifact@ }
    }
}

impl GrammarEntry {
    /// Pairs `name` with `artifact`, byte for byte.
    pub fn new(name: String, artifact: Vec<u8>) -> (entry: GrammarEntry)
        ensures
            entry@.name == name@,
            entry@.artifact == artifact@,
    {
        GrammarEntry { name, artifact }
    }

    /// The language's name.
    pub fn name(&self) -> (name: &str)
        ensures
            name@ == self@.name,
    {
        self.name.as_str()
    }

    /// The grammar's bytes.
    pub fn artifact(&self) -> (bytes: &[u8])
        ensures
            bytes@ == self@.artifact,
    {
        self.artifact.as_slice()
    }
}

/// Whether no two entries of `entries` carry the same name.
pub open spec fn names_distinct(entries: Seq<EntryModel>) -> bool {
    forall|i: int, j: int|
        0 <= i < j < entries.len() ==> (#[trigger] entries[i]).name != (#[trigger] entries[j]).name
}

/// Whether some entry of `entries` is named `name`.
pub open spec fn has_name(entries: Seq<EntryModel>, name: Seq<char>) -> bool {
    exists|i: int| 0 <= i < entries.len() && (#[trigger] entries[i]).name == name
}

/// Grammar entries in the order in which they were registered.
///
/// The registry only grows: nothing removes or reorders an entry.
#[derive(Debug)]
pub struct GrammarRegistry {
    entries: Vec<GrammarEntry>,
}

impl View for GrammarRegistry {
    type V = Seq<EntryModel>;

    closed spec fn view(&self) -> Seq<EntryModel> {
        Seq::new(self.entries@.len(), |i: int| self.entries@[i]@)
    }
}

impl GrammarRegistry {
    /// A registry with no entries.
    pub fn new() -> (registry: GrammarRegistry)
        ensures
            registry@ == Seq::<EntryModel>::empty(),
    {
        GrammarRegistry { entries: Vec::new() }
    }

    /// Appends `entry` behind the entries already registered.
    ///
    /// Every earlier entry keeps its place and its contents. Names stay
    /// pairwise distinct exactly when they were so before and `entry` brings a
    /// name that no earlier entry has.
    pub fn register(&mut self, entry: GrammarEntry)
        ensures
            final(self)@ == old(self)@.push(entry@),
            final(self)@.len() == old(self)@.len() + 1,
            forall|i: int| 0 <= i < old(self)@.len() ==> final(self)@[i] == old(self)@[i],
            final(self)@[old(self)@.len() as int] == entry@,
            names_distinct(final(self)@) <==> names_distinct(old(self)@) && !has_name(
                old(self)@,
                entry@.name,
            ),
    {
        proof {
            lemma_push_names_distinct(self@, entry@);
        }
        self.entries.push(entry);
    }

    /// The number of entries.
    pub fn len(&self) -> (count: usize)
        ensures
            count == self@.len(),
    {
        self.entries.len()
    }

    /// The entry registered at position `index`, counting from zero, or `None`
    /// where the registry holds no more than `index` entries.
    pub fn get(&self, index: usize) -> (found: Option<&GrammarEntry>)
        ensures
            found is Some <==> index < self@.len(),
            found matches Some(entry) ==> entry@ == self@[index as int],
    {
        if index < self.entries.len() {
            Some(&self.entries[index])
        } else {
            None
        }
    }
}

/// Appending an entry keeps names pairwise distinct exactly when they were
/// distinct before and the new name is not among them.
pub proof fn lemma_push_names_distinct(entries: Seq<EntryModel>, entry: EntryModel)
    ensures
        names_distinct(entries.push(entry)) <==> names_distinct(entries) && !has_name(
            entries,
            entry.name,
        ),
{
    let grown = entries.push(entry);
    if names_distinct(grown) {
        assert forall|i: int, j: int| 0 <= i < j < entries.len() implies (#[trigger] entries[i]).name
            != (#[trigger] entries[j]).name by {
            assert(grown[i] == entries[i]);
            assert(grown[j] == entries[j]);
        }
        if has_name(entries, entry.name) {
            let i = choose|i: int| 0 <= i < entries.len() && (#[trigger] entries[i]).name == entry.name;
            assert(grown[i] == entries[i]);
            assert(grown[entries.len() as int] == entry);
        }
    }
    if names_distinct(entries) && !has_name(entries, entry.name) {
        assert forall|i: int, j: int| 0 <= i < j < grown.len() implies (#[trigger] grown[i]).name
            != (#[trigger] grown[j]).name by {
            assert(grown[i] == entries[i]);
            if j < entries.len() {
                assert(grown[j] == entries[j]);
            } else {
                assert(grown[j] == entry);
            }
        }
    }
}

} // verus!
