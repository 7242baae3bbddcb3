//! Small maps from names to settings, kept in the order in which they came.

use crate::text;
use vstd::prelude::*;

verus! {

#[derive(Debug, Clone, PartialEq, Eq)]
pub struct FlagEntry {
    pub name: String,
    pub enabled: bool,
}

/// Switches by name; the first entry of a name counts.
#[derive(Debug, Clone, PartialEq, Eq)]
pub struct FlagMap {
    pub entries: Vec<FlagEntry>,
}

/// The switch that `entries` hold for `name`, if any.
pub open spec fn flag_at(entries: Seq<FlagEntry>, name: Seq<char>) -> Option<bool>
    decreases entries.len(),
{
    if entries.len() == 0 {
        None
    } else {
        match flag_at(entries.drop_last(), name) {
            Some(enabled) => Some(enabled),
            None => if entries.last().name@ == name {
                Some(entries.last().enabled)
            } else {
                None
            },
        }
    }
}

impl View for FlagMap {
    type V = Map<Seq<char>, bool>;

    open spec fn view(&self) -> Map<Seq<char>, bool> {
        Map::new(
            |name: Seq<char>| flag_at(self.entries@, name) is Some,
            |name: Seq<char>| flag_at(self.entries@, name)->0,
        )
    }
}

proof fn lemma_flag_first(entries: Seq<FlagEntry>, name: Seq<char>, at: int)
    requires
        0 <= at < entries.len(),
        entries[at].name@ == name,
        forall|j: int| 0 <= j < at ==> (#[trigger] entries[j]).name@ != name,
    ensures
        flag_at(entries, name) == Some(entries[at].enabled),
    decreases entries.len(),
{
    if at < entries.len() - 1 {
        lemma_flag_first(entries.drop_last(), name, at);
    } else {
        lemma_flag_absent(entries.drop_last(), name);
    }
}

proof fn lemma_flag_absent(entries: Seq<FlagEntry>, name: Seq<char>)
    requires
        forall|j: int| 0 <= j < entries.len() ==> (#[trigger] entries[j]).name@ != name,
    ensures
        flag_at(entries, name) is None,
    decreases entries.len(),
{
    if entries.len() > 0 {
        lemma_flag_absent(entries.drop_last(), name);
    }
}

proof fn lemma_flag_updated(entries: Seq<FlagEntry>, at: int, entry: FlagEntry, other: Seq<char>)
    requires
        0 <= at < entries.len(),
        entry.name@ == entries[at].name@,
        other != entry.name@,
    ensures
        flag_at(entries.update(at, entry), other) == flag_at(entries, other),
    decreases entries.len(),
{
    if at < entries.len() - 1 {
        lemma_flag_updated(entries.drop_last(), at, entry, other);
        assert(entries.update(at, entry).drop_last() =~= entries.drop_last().update(at, entry));
    } else {
        assert(entries.update(at, entry).drop_last() =~= entries.drop_last());
    }
}

impl FlagMap {
    pub fn new() -> (r: FlagMap)
        ensures
            r@ == Map::<Seq<char>, bool>::empty(),
    {
        let r = FlagMap { entries: Vec::new() };
        assert(r@ =~= Map::empty());
        r
    }

    fn position(&self, name: &str) -> (r: Option<usize>)
        ensures
            match r {
                Some(at) => {
                    &&& at < self.entries.len()
                    &&& self.entries@[at as int].name@ == name@
                    &&& forall|j: int|
                        0 <= j < at ==> (#[trigger] self.entries@[j]).name@ != name@
                },
                None => forall|j: int|
                    0 <= j < self.entries.len() ==> (#[trigger] self.entries@[j]).name@ != name@,
            },
    {
        let mut i: usize = 0;
        while i < self.entries.len()
            invariant
                i <= self.entries.len(),
                forall|j: int| 0 <= j < i ==> (#[trigger] self.entries@[j]).name@ != name@,
            decreases self.entries.len() - i,
        {
            if text::same(self.entries[i].name.as_str(), name) {
                return Some(i);
            }
            i = i + 1;
        }
        None
    }

    /// The switch for `name`, if there is one.
    pub fn get(&self, name: &str) -> (r: Option<bool>)
        ensures
            r == (if self@.contains_key(name@) {
                Some(self@[name@])
            } else {
                None
            }),
    {
        match self.position(name) {
            Some(at) => {
                proof {
                    lemma_flag_first(self.entries@, name@, at as int);
                }
                Some(self.entries[at].enabled)
            },
            None => {
                proof {
                    lemma_flag_absent(self.entries@, name@);
                }
                None
            },
        }
    }

    /// Whether the switch for `name` is there and on.
    pub fn is_on(&self, name: &str) -> (r: bool)
        ensures
            r == flag_on(self@, name@),
    {
        match self.get(name) {
            Some(enabled) => enabled,
            None => false,
        }
    }

    /// Sets the switch for `name`.
    pub fn insert(&mut self, name: String, enabled: bool)
        ensures
            final(self)@ == old(self)@.insert(name@, enabled),
    {
        let ghost before = self.entries@;
        let ghost key = name@;
        match self.position(name.as_str()) {
            Some(at) => {
                let entry = FlagEntry { name, enabled };
                let ghost entry_view = entry;
                self.entries[at] = entry;
                proof {
                    assert(self.entries@ =~= before.update(at as int, entry_view));
                    lemma_flag_first(self.entries@, key, at as int);
                    assert forall|other: Seq<char>| other != key implies flag_at(
                        self.entries@,
                        other,
                    ) == flag_at(before, other) by {
                        lemma_flag_updated(before, at as int, entry_view, other);
                    }
                }
            },
            None => {
                self.entries.push(FlagEntry { name, enabled });
                proof {
                    lemma_flag_absent(before, key);
                    assert(self.entries@.drop_last() =~= before);
                }
            },
        }
        assert(self@ =~= old(self)@.insert(key, enabled));
    }
}

/// `name` is on in `flags`.
pub open spec fn flag_on(flags: Map<Seq<char>, bool>, name: Seq<char>) -> bool {
    flags.contains_key(name) && flags[name]
}

#[derive(Debug, Clone, PartialEq, Eq)]
pub struct TextEntry {
    pub name: String,
    pub value: String,
}

/// Texts by name; the first entry of a name counts.
#[derive(Debug, Clone, PartialEq, Eq)]
pub struct TextMap {
    pub entries: Vec<TextEntry>,
}

/// The text that `entries` hold for `name`, if any.
pub open spec fn text_at(entries: Seq<TextEntry>, name: Seq<char>) -> Option<Seq<char>>
    decreases entries.len(),
{
    if entries.len() == 0 {
        None
    } else {
        match text_at(entries.drop_last(), name) {
            Some(value) => Some(value),
            None => if entries.last().name@ == name {
                Some(entries.last().value@)
            } else {
                None
            },
        }
    }
}

impl View for TextMap {
    type V = Map<Seq<char>, Seq<char>>;

    open spec fn view(&self) -> Map<Seq<char>, Seq<char>> {
        Map::new(
            |name: Seq<char>| text_at(self.entries@, name) is Some,
            |name: Seq<char>| text_at(self.entries@, name)->0,
        )
    }
}

proof fn lemma_text_first(entries: Seq<TextEntry>, name: Seq<char>, at: int)
    requires
        0 <= at < entries.len(),
        entries[at].name@ == name,
        forall|j: int| 0 <= j < at ==> (#[trigger] entries[j]).name@ != name,
    ensures
        text_at(entries, name) == Some(entries[at].value@),
    decreases entries.len(),
{
    if at < entries.len() - 1 {
        lemma_text_first(entries.drop_last(), name, at);
    } else {
        lemma_text_absent(entries.drop_last(), name);
    }
}

proof fn lemma_text_absent(entries: Seq<TextEntry>, name: Seq<char>)
    requires
        forall|j: int| 0 <= j < entries.len() ==> (#[trigger] entries[j]).name@ != name,
    ensures
        text_at(entries, name) is None,
    decreases entries.len(),
{
    if entries.len() > 0 {
        lemma_text_absent(entries.drop_last(), name);
    }
}

proof fn lemma_text_named(entries: Seq<TextEntry>, name: Seq<char>)
    requires
        text_at(entries, name) is Some,
    ensures
        exists|j: int| 0 <= j < entries.len() && (#[trigger] entries[j]).name@ == name,
    decreases entries.len(),
{
    if entries.last().name@ == name {
        assert(entries[entries.len() - 1].name@ == name);
    } else {
        lemma_text_named(entries.drop_last(), name);
        let j = choose|j: int|
            0 <= j < entries.drop_last().len() && (#[trigger] entries.drop_last()[j]).name@ == name;
        assert(entries[j].name@ == name);
    }
}

proof fn lemma_text_updated(entries: Seq<TextEntry>, at: int, entry: TextEntry, other: Seq<char>)
    requires
        0 <= at < entries.len(),
        entry.name@ == entries[at].name@,
        other != entry.name@,
    ensures
        text_at(entries.update(at, entry), other) == text_at(entries, other),
    decreases entries.len(),
{
    if at < entries.len() - 1 {
        lemma_text_updated(entries.drop_last(), at, entry, other);
        assert(entries.update(at, entry).drop_last() =~= entries.drop_last().update(at, entry));
    } else {
        assert(entries.update(at, entry).drop_last() =~= entries.drop_last());
    }
}

impl TextMap {
    pub fn new() -> (r: TextMap)
        ensures
            r@ == Map::<Seq<char>, Seq<char>>::empty(),
    {
        let r = TextMap { entries: Vec::new() };
        assert(r@ =~= Map::empty());
        r
    }

    /// Whether no text is there.
    pub fn is_empty(&self) -> (r: bool)
        ensures
            r == (self@ == Map::<Seq<char>, Seq<char>>::empty()),
    {
        if self.entries.len() == 0 {
            assert(self@ =~= Map::empty());
            true
        } else {
            proof {
                let first = self.entries@[0].name@;
                lemma_text_first(self.entries@, first, 0);
                assert(self@.contains_key(first));
            }
            false
        }
    }

    fn position(&self, name: &str) -> (r: Option<usize>)
        ensures
            match r {
                Some(at) => {
                    &&& at < self.entries.len()
                    &&& self.entries@[at as int].name@ == name@
                    &&& forall|j: int|
                        0 <= j < at ==> (#[trigger] self.entries@[j]).name@ != name@
                },
                None => forall|j: int|
                    0 <= j < self.entries.len() ==> (#[trigger] self.entries@[j]).name@ != name@,
            },
    {
        let mut i: usize = 0;
        while i < self.entries.len()
            invariant
                i <= self.entries.len(),
                forall|j: int| 0 <= j < i ==> (#[trigger] self.entries@[j]).name@ != name@,
            decreases self.entries.len() - i,
        {
            if text::same(self.entries[i].name.as_str(), name) {
                return Some(i);
            }
            i = i + 1;
        }
        None
    }

    /// The text for `name`, if there is one.
    pub fn get(&self, name: &str) -> (r: Option<String>)
        ensures
            match r {
                Some(value) => self@.contains_key(name@) && self@[name@] == value@,
                None => !self@.contains_key(name@),
            },
    {
        match self.position(name) {
            Some(at) => {
                proof {
                    lemma_text_first(self.entries@, name@, at as int);
                }
                Some(self.entries[at].value.clone())
            },
            None => {
                proof {
                    lemma_text_absent(self.entries@, name@);
                }
                None
            },
        }
    }

    /// Sets the text for `name`.
    pub fn insert(&mut self, name: String, value: String)
        ensures
            final(self)@ == old(self)@.insert(name@, value@),
    {
        let ghost before = self.entries@;
        let ghost key = name@;
        let ghost text = value@;
        match self.position(name.as_str()) {
            Some(at) => {
                let entry = TextEntry { name, value };
                let ghost entry_view = entry;
                self.entries[at] = entry;
                proof {
                    assert(self.entries@ =~= before.update(at as int, entry_view));
                    lemma_text_first(self.entries@, key, at as int);
                    assert forall|other: Seq<char>| other != key implies text_at(
                        self.entries@,
                        other,
                    ) == text_at(before, other) by {
                        lemma_text_updated(before, at as int, entry_view, other);
                    }
                }
            },
            None => {
                self.entries.push(TextEntry { name, value });
                proof {
                    lemma_text_absent(before, key);
                    assert(self.entries@.drop_last() =~= before);
                }
            },
        }
        assert(self@ =~= old(self)@.insert(key, text));
    }

    /// A copy of the map.
    pub fn copy(&self) -> (r: TextMap)
        ensures
            r@ == self@,
            r.entries@ == self.entries@,
    {
        let mut entries: Vec<TextEntry> = Vec::new();
        let mut i: usize = 0;
        while i < self.entries.len()
            invariant
                i <= self.entries.len(),
                entries@ == self.entries@.take(i as int),
            decreases self.entries.len() - i,
        {
            let entry = TextEntry {
                name: self.entries[i].name.clone(),
                value: self.entries[i].value.clone(),
            };
            assert(entry == self.entries@[i as int]);
            entries.push(entry);
            i = i + 1;
            assert(self.entries@.take(i as int) =~= self.entries@.take(i - 1).push(
                self.entries@[i - 1],
            ));
        }
        assert(self.entries@.take(i as int) =~= self.entries@);
        TextMap { entries }
    }

    /// Whether every text of this map stands in `other` too, under the same name.
    fn within(&self, other: &TextMap) -> (r: bool)
        ensures
            r == (forall|name: Seq<char>|
                #[trigger] self@.contains_key(name) ==> other@.contains_key(name) && other@[name]
                    == self@[name]),
    {
        let mut i: usize = 0;
        while i < self.entries.len()
            invariant
                i <= self.entries.len(),
                forall|j: int|
                    0 <= j < i ==> {
                        let name = (#[trigger] self.entries@[j]).name@;
                        other@.contains_key(name) && other@[name] == self@[name]
                    },
            decreases self.entries.len() - i,
        {
            let name = self.entries[i].name.clone();
            proof {
                if text_at(self.entries@, name@) is None {
                    lemma_text_present(self.entries@, i as int);
                }
            }
            let here = self.get(name.as_str());
            let there = other.get(name.as_str());
            let agrees = match (here, there) {
                (Some(a), Some(b)) => text::same(a.as_str(), b.as_str()),
                _ => false,
            };
            if !agrees {
                proof {
                    lemma_text_present(self.entries@, i as int);
                    assert(self@.contains_key(name@));
                }
                return false;
            }
            i = i + 1;
        }
        proof {
            assert forall|name: Seq<char>| #[trigger] self@.contains_key(name) implies
                other@.contains_key(name) && other@[name] == self@[name] by {
                lemma_text_named(self.entries@, name);
            }
        }
        true
    }

    /// Whether two maps hold the same texts under the same names.
    pub fn same_as(&self, other: &TextMap) -> (r: bool)
        ensures
            r == (self@ == other@),
    {
        let r = self.within(other) && other.within(self);
        if r {
            assert(self@ =~= other@);
        }
        r
    }
}

proof fn lemma_text_present(entries: Seq<TextEntry>, at: int)
    requires
        0 <= at < entries.len(),
    ensures
        text_at(entries, entries[at].name@) is Some,
    decreases entries.len(),
{
    if at < entries.len() - 1 {
        lemma_text_present(entries.drop_last(), at);
    }
}

/// The first entry of a name is the one that counts.
pub proof fn law_first_flag_counts(entries: Seq<FlagEntry>, name: Seq<char>, at: int)
    requires
        0 <= at < entries.len(),
        entries[at].name@ == name,
        forall|i: int| 0 <= i < at ==> (#[trigger] entries[i]).name@ != name,
    ensures
        flag_at(entries, name) == Some(entries[at].enabled),
    decreases entries.len(),
{
    let front = entries.drop_last();
    if at < front.len() {
        assert forall|i: int| 0 <= i < at implies (#[trigger] front[i]).name@ != name by {
            assert(front[i] == entries[i]);
        }
        law_first_flag_counts(front, name, at);
    } else {
        assert forall|i: int| 0 <= i < front.len() implies (#[trigger] front[i]).name@ != name by {
            assert(front[i] == entries[i]);
        }
        law_flags_without_an_entry_are_unknown(front, name);
    }
}

/// A name without an entry is unknown.
pub proof fn law_flags_without_an_entry_are_unknown(entries: Seq<FlagEntry>, name: Seq<char>)
    requires
        forall|i: int| 0 <= i < entries.len() ==> (#[trigger] entries[i]).name@ != name,
    ensures
        flag_at(entries, name) is None,
    decreases entries.len(),
{
    if entries.len() > 0 {
        let front = entries.drop_last();
        assert forall|i: int| 0 <= i < front.len() implies (#[trigger] front[i]).name@ != name by {
            assert(front[i] == entries[i]);
        }
        law_flags_without_an_entry_are_unknown(front, name);
        assert(entries[entries.len() - 1].name@ != name);
    }
}

/// The first text under a name is the one that counts.
pub proof fn law_first_text_counts(entries: Seq<TextEntry>, name: Seq<char>, at: int)
    requires
        0 <= at < entries.len(),
        entries[at].name@ == name,
        forall|i: int| 0 <= i < at ==> (#[trigger] entries[i]).name@ != name,
    ensures
        text_at(entries, name) == Some(entries[at].value@),
    decreases entries.len(),
{
    let front = entries.drop_last();
    if at < front.len() {
        assert forall|i: int| 0 <= i < at implies (#[trigger] front[i]).name@ != name by {
            assert(front[i] == entries[i]);
        }
        law_first_text_counts(front, name, at);
    } else {
        assert forall|i: int| 0 <= i < front.len() implies (#[trigger] front[i]).name@ != name by {
            assert(front[i] == entries[i]);
        }
        law_names_without_a_text_are_unknown(front, name);
    }
}

/// A name without a text is unknown.
pub proof fn law_names_without_a_text_are_unknown(entries: Seq<TextEntry>, name: Seq<char>)
    requires
        forall|i: int| 0 <= i < entries.len() ==> (#[trigger] entries[i]).name@ != name,
    ensures
        text_at(entries, name) is None,
    decreases entries.len(),
{
    if entries.len() > 0 {
        let front = entries.drop_last();
        assert forall|i: int| 0 <= i < front.len() implies (#[trigger] front[i]).name@ != name by {
            assert(front[i] == entries[i]);
        }
        law_names_without_a_text_are_unknown(front, name);
        assert(entries[entries.len() - 1].name@ != name);
    }
}

} // verus!
