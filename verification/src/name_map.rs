//! Values found by name.

use vstd::prelude::*;
use vstd::string::StringSliceAdditionalSpecFns;

verus! {

/// The position in `names` of the last occurrence of `name`, or -1 where
/// there is none.
pub open spec fn last_index_of(names: Seq<Seq<char>>, name: Seq<char>) -> int
    decreases names.len(),
{
    if names.len() == 0 {
        -1
    } else if names.last() == name {
        names.len() - 1
    } else {
        last_index_of(names.drop_last(), name)
    }
}

/// The names of a list of entries, in order.
pub open spec fn names_of<V>(entries: Seq<(String, V)>) -> Seq<Seq<char>> {
    Seq::new(entries.len(), |i: int| entries[i].0@)
}

/// [`last_index_of`] finds an occurrence of the name, the last one, or
/// reports that there is none.
pub proof fn lemma_last_index_of(names: Seq<Seq<char>>, name: Seq<char>)
    ensures
        -1 <= last_index_of(names, name) < names.len(),
        last_index_of(names, name) >= 0 ==> names[last_index_of(names, name)] == name,
        forall|j: int| last_index_of(names, name) < j < names.len() ==> names[j] != name,
    decreases names.len(),
{
    if names.len() > 0 && names.last() != name {
        let rest = names.drop_last();
        lemma_last_index_of(rest, name);
        assert forall|j: int| last_index_of(names, name) < j < names.len() implies names[j]
            != name by {
            if j < rest.len() {
                assert(rest[j] == names[j]);
            }
        }
    }
}

/// Two strings hold the same text.
pub fn same_text(a: &str, b: &str) -> (same: bool)
    ensures
        same == (a@ == b@),
{
    let left = a.as_bytes();
    let right = b.as_bytes();
    proof {
        vstd::utf8::encode_utf8_decode_utf8(a@);
        vstd::utf8::encode_utf8_decode_utf8(b@);
    }
    if left.len() != right.len() {
        return false;
    }
    let mut i: usize = 0;
    while i < left.len()
        invariant
            i <= left@.len(),
            left@.len() == right@.len(),
            forall|j: int| 0 <= j < i ==> left@[j] == right@[j],
            left@ == a.spec_bytes(),
            right@ == b.spec_bytes(),
            vstd::utf8::decode_utf8(a.spec_bytes()) == a@,
            vstd::utf8::decode_utf8(b.spec_bytes()) == b@,
        decreases left@.len() - i,
    {
        if left[i] != right[i] {
            return false;
        }
        i = i + 1;
    }
    assert(left@ =~= right@);
    true
}

/// What `names` has when `name` is named anew: the name once more at the
/// end, unless it was there.
pub proof fn lemma_last_index_of_push(names: Seq<Seq<char>>, name: Seq<char>, other: Seq<char>)
    ensures
        last_index_of(names.push(name), other) == if other == name {
            names.len() as int
        } else {
            last_index_of(names, other)
        },
{
    assert(names.push(name).drop_last() =~= names);
}

/// Values by name. A name names one value: naming a value anew puts it in
/// the place of the old one.
#[derive(Debug)]
pub struct NameMap<V> {
    pub entries: Vec<(String, V)>,
}

impl<V> View for NameMap<V> {
    type V = Map<Seq<char>, V>;

    open spec fn view(&self) -> Map<Seq<char>, V> {
        Map::new(
            |name: Seq<char>| last_index_of(names_of(self.entries@), name) >= 0,
            |name: Seq<char>| self.entries@[last_index_of(names_of(self.entries@), name)].1,
        )
    }
}

/// What a list of entries is once `name` names `value`: the entry of that
/// name replaced where there is one, and else one entry more.
pub open spec fn entries_with<V>(entries: Seq<(String, V)>, name: String, value: V) -> Seq<
    (String, V),
> {
    let i = last_index_of(names_of(entries), name@);
    if 0 <= i < entries.len() {
        entries.update(i, (name, value))
    } else {
        entries.push((name, value))
    }
}

/// Naming a value keeps the names in their places: the name stays where it
/// was, or comes last.
pub proof fn lemma_names_with<V>(entries: Seq<(String, V)>, name: String, value: V)
    ensures
        names_of(entries_with(entries, name, value)) == if last_index_of(names_of(entries), name@)
            >= 0 {
            names_of(entries)
        } else {
            names_of(entries).push(name@)
        },
        forall|other: Seq<char>|
            last_index_of(names_of(entries_with(entries, name, value)), other) == if other == name@
                && last_index_of(names_of(entries), name@) < 0 {
                entries.len() as int
            } else {
                #[trigger] last_index_of(names_of(entries), other)
            },
{
    let names = names_of(entries);
    let i = last_index_of(names, name@);
    lemma_last_index_of(names, name@);
    let after = entries_with(entries, name, value);
    if i >= 0 {
        assert(names_of(after) =~= names);
    } else {
        assert(names_of(after) =~= names.push(name@));
        assert forall|other: Seq<char>|
            last_index_of(names_of(after), other) == if other == name@ {
                entries.len() as int
            } else {
                #[trigger] last_index_of(names, other)
            } by {
            lemma_last_index_of_push(names, name@, other);
        }
    }
}

impl<V> NameMap<V> {
    /// No name occurs twice.
    pub open spec fn wf(&self) -> bool {
        forall|i: int, j: int|
            0 <= i < j < self.entries@.len() ==> self.entries@[i].0@ != self.entries@[j].0@
    }

    pub fn new() -> (map: NameMap<V>)
        ensures
            map.wf(),
            map@ == Map::<Seq<char>, V>::empty(),
            map.entries@ == Seq::<(String, V)>::empty(),
    {
        let map = NameMap { entries: Vec::new() };
        assert(map@ =~= Map::<Seq<char>, V>::empty());
        map
    }

    /// Gives `name` the value `value`, whatever it had before.
    pub fn insert(&mut self, name: String, value: V)
        ensures
            final(self)@ == old(self)@.insert(name@, value),
            final(self).entries@ == entries_with(old(self).entries@, name, value),
            old(self).wf() ==> final(self).wf(),
    {
        let ghost before = self.entries@;
        let ghost text = name@;
        proof {
            lemma_names_with(before, name, value);
            lemma_last_index_of(names_of(before), text);
        }
        match self.position(name.as_str()) {
            Some(i) => { self.entries.set(i, (name, value)); },
            None => { self.entries.push((name, value)); },
        }
        proof {
            let after = self.entries@;
            assert(after == entries_with(before, name, value));
            assert forall|other: Seq<char>| #[trigger]
                self@.contains_key(other) implies self@[other] == old(self)@.insert(
                text,
                value,
            )[other] by {
                lemma_last_index_of(names_of(before), other);
            }
            assert(self@ =~= old(self)@.insert(text, value));
            if old(self).wf() {
                assert forall|i: int, j: int| 0 <= i < j < after.len() implies after[i].0@
                    != after[j].0@ by {
                    assert(names_of(after)[i] == after[i].0@);
                    assert(names_of(after)[j] == after[j].0@);
                    if j < before.len() {
                        assert(names_of(before)[i] == before[i].0@);
                        assert(names_of(before)[j] == before[j].0@);
                    } else {
                        assert(names_of(before)[i] == before[i].0@);
                    }
                }
            }
        }
    }

    /// How many names there are, where no name occurs twice.
    pub fn len(&self) -> (n: usize)
        ensures
            n == self.entries@.len(),
    {
        self.entries.len()
    }

    /// The position of the entry that `name` names, if any: the last of
    /// that name.
    pub fn position(&self, name: &str) -> (found: Option<usize>)
        ensures
            match found {
                Some(i) => i < self.entries@.len() && i == last_index_of(
                    names_of(self.entries@),
                    name@,
                ),
                None => last_index_of(names_of(self.entries@), name@) == -1,
            },
    {
        let mut i: usize = self.entries.len();
        assert(names_of(self.entries@).take(i as int) =~= names_of(self.entries@));
        while i > 0
            invariant
                i <= self.entries@.len(),
                last_index_of(names_of(self.entries@), name@) == last_index_of(
                    names_of(self.entries@).take(i as int),
                    name@,
                ),
            decreases i,
        {
            let ghost names = names_of(self.entries@).take(i as int);
            if same_text(self.entries[i - 1].0.as_str(), name) {
                return Some(i - 1);
            }
            i = i - 1;
            assert(names.drop_last() =~= names_of(self.entries@).take(i as int));
        }
        None
    }

    /// The value that `name` names, if any.
    pub fn get(&self, name: &str) -> (value: Option<&V>)
        ensures
            match value {
                Some(v) => self@.contains_key(name@) && *v == self@[name@],
                None => !self@.contains_key(name@),
            },
    {
        match self.position(name) {
            Some(i) => Some(&self.entries[i].1),
            None => None,
        }
    }

    /// Whether `name` names a value.
    pub fn contains(&self, name: &str) -> (found: bool)
        ensures
            found == self@.contains_key(name@),
    {
        self.position(name).is_some()
    }
}

} // verus!
