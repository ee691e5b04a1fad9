//! Dynamically typed configuration values and the table that maps keys to them.

use vstd::prelude::*;

verus! {

/// The mathematical content of a [`ConfigValue`].
pub enum ValueView {
    Nil,
    Boolean(bool),
    Integer(i64),
    Float(u64),
    String(Seq<char>),
    Array(Seq<ValueView>),
    Table(Seq<(Seq<char>, ValueView)>),
}

/// A value of a configuration document.
#[derive(Debug, PartialEq, Eq)]
pub enum ConfigValue {
    /// The absence of a value.
    Nil,
    Boolean(bool),
    Integer(i64),
    /// A floating-point number, held as its IEEE 754 binary64 bit pattern.
    Float(u64),
    String(String),
    Array(Vec<ConfigValue>),
    Table(Table),
}

/// A mapping from string keys to values that keeps its entries in the order in
/// which their keys first arrived. No key occurs twice.
///
/// The entries stand in a vector that is searched in order, so that what every
/// operation does to the mapping is proved here rather than taken on trust
/// from a hash map; a lookup takes time in proportion to the number of
/// entries.
#[derive(Debug, PartialEq, Eq)]
pub struct Table {
    entries: Vec<(String, ConfigValue)>,
}

/// The mapping that a sequence of entries stands for.
pub open spec fn entries_map(entries: Seq<(Seq<char>, ValueView)>) -> Map<Seq<char>, ValueView> {
    Map::new(
        |k: Seq<char>| has_key(entries, k),
        |k: Seq<char>| entries[position(entries, k)].1,
    )
}

/// Whether some entry carries the key `k`.
pub open spec fn has_key(entries: Seq<(Seq<char>, ValueView)>, k: Seq<char>) -> bool {
    exists|i: int| 0 <= i < entries.len() && #[trigger] entries[i].0 == k
}

/// The place of an entry that carries the key `k`, if there is one.
pub open spec fn position(entries: Seq<(Seq<char>, ValueView)>, k: Seq<char>) -> int {
    choose|i: int| 0 <= i < entries.len() && #[trigger] entries[i].0 == k
}

/// The entries after `value` was put under `key`.
pub open spec fn inserted(
    entries: Seq<(Seq<char>, ValueView)>,
    key: Seq<char>,
    value: ValueView,
) -> Seq<(Seq<char>, ValueView)> {
    if has_key(entries, key) {
        entries.update(position(entries, key), (key, value))
    } else {
        entries.push((key, value))
    }
}

/// No two entries carry the same key.
pub open spec fn distinct_keys(entries: Seq<(Seq<char>, ValueView)>) -> bool {
    forall|i: int, j: int|
        0 <= i < j < entries.len() ==> #[trigger] entries[i].0 != #[trigger] entries[j].0
}

impl ConfigValue {
    /// The content of this value, nested values included.
    pub open spec fn content(&self) -> ValueView
        decreases self,
    {
        match self {
            ConfigValue::Nil => ValueView::Nil,
            ConfigValue::Boolean(b) => ValueView::Boolean(*b),
            ConfigValue::Integer(i) => ValueView::Integer(*i),
            ConfigValue::Float(bits) => ValueView::Float(*bits),
            ConfigValue::String(s) => ValueView::String(s@),
            ConfigValue::Array(items) => ValueView::Array(
                Seq::new(
                    items@.len(),
                    |i: int|
                        if 0 <= i < items@.len() {
                            items@[i].content()
                        } else {
                            ValueView::Nil
                        },
                ),
            ),
            ConfigValue::Table(table) => ValueView::Table(table.entries_view()),
        }
    }
}

impl View for ConfigValue {
    type V = ValueView;

    open spec fn view(&self) -> ValueView {
        self.content()
    }
}

/// The content of a sequence of entries.
pub open spec fn entries_seq(entries: Seq<(String, ConfigValue)>) -> Seq<(Seq<char>, ValueView)>
    decreases entries,
{
    Seq::new(
        entries.len(),
        |i: int|
            if 0 <= i < entries.len() {
                (entries[i].0@, entries[i].1.content())
            } else {
                (Seq::empty(), ValueView::Nil)
            },
    )
}

impl Table {
    /// The entries in order, each key and value by its content.
    pub closed spec fn entries_view(&self) -> Seq<(Seq<char>, ValueView)>
        decreases self,
    {
        entries_seq(self.entries@)
    }

    #[verifier::type_invariant]
    spec fn keys_are_distinct(&self) -> bool {
        distinct_keys(self.entries_view())
    }
}

impl View for Table {
    type V = Map<Seq<char>, ValueView>;

    open spec fn view(&self) -> Map<Seq<char>, ValueView> {
        entries_map(self.entries_view())
    }
}

impl Table {
    /// A table without entries.
    pub fn new() -> (table: Table)
        ensures
            table.entries_view() == Seq::<(Seq<char>, ValueView)>::empty(),
            table@ == Map::<Seq<char>, ValueView>::empty(),
    {
        let table = Table { entries: Vec::new() };
        table
    }

    /// The number of entries, which is the number of keys: no key occurs
    /// twice.
    pub fn len(&self) -> (n: usize)
        ensures
            n == self.entries_view().len(),
            distinct_keys(self.entries_view()),
            self@.dom().finite(),
            n == self@.len(),
    {
        proof {
            use_type_invariant(self);
            lemma_map_len(self.entries_view());
        }
        self.entries.len()
    }

    /// The place of the entry under `key`, if there is one.
    fn find(&self, key: &String) -> (found: Option<usize>)
        ensures
            match found {
                Some(i) => i < self.entries_view().len() && self.entries_view()[i as int].0
                    == key@,
                None => !has_key(self.entries_view(), key@),
            },
    {
        let mut i: usize = 0;
        while i < self.entries.len()
            invariant
                i <= self.entries@.len(),
                forall|j: int| 0 <= j < i ==> (#[trigger] self.entries_view()[j]).0 != key@,
            decreases self.entries@.len() - i,
        {
            if self.entries[i].0 == *key {
                return Some(i);
            }
            i += 1;
        }
        None
    }

    /// Whether an entry stands under `key`.
    pub fn contains_key(&self, key: &str) -> (found: bool)
        ensures
            found == self@.contains_key(key@),
    {
        let owned = key.to_owned();
        self.find(&owned).is_some()
    }

    /// The value under `key`, if there is one.
    pub fn get(&self, key: &str) -> (found: Option<&ConfigValue>)
        ensures
            match found {
                Some(value) => self@.contains_key(key@) && value@ == self@[key@],
                None => !self@.contains_key(key@),
            },
    {
        let owned = key.to_owned();
        match self.find(&owned) {
            Some(i) => {
                proof {
                    use_type_invariant(self);
                    lemma_position_unique(self.entries_view(), i as int);
                }
                Some(&self.entries[i].1)
            },
            None => None,
        }
    }

    /// The key of the entry at place `i`.
    pub fn key_at(&self, i: usize) -> (key: &String)
        requires
            i < self.entries_view().len(),
        ensures
            key@ == self.entries_view()[i as int].0,
    {
        &self.entries[i].0
    }

    /// The value of the entry at place `i`.
    pub fn value_at(&self, i: usize) -> (value: &ConfigValue)
        requires
            i < self.entries_view().len(),
        ensures
            value@ == self.entries_view()[i as int].1,
    {
        &self.entries[i].1
    }

    /// Puts `value` under `key`. An entry that stood under `key` keeps its place
    /// and takes the new value; otherwise a new entry is appended.
    pub fn insert(&mut self, key: String, value: ConfigValue)
        ensures
            final(self)@ == old(self)@.insert(key@, value@),
            final(self).entries_view() == inserted(old(self).entries_view(), key@, value@),
    {
        proof {
            use_type_invariant(&*self);
        }
        let ghost before = self.entries_view();
        let found = self.find(&key);
        let mut entries: Vec<(String, ConfigValue)> = Vec::new();
        std::mem::swap(&mut entries, &mut self.entries);
        let ghost after = inserted(before, key@, value@);
        match found {
            Some(i) => {
                proof {
                    lemma_position_unique(before, i as int);
                    lemma_update_is_insert(before, i as int, value@);
                }
                entries.set(i, (key, value));
            },
            None => {
                proof {
                    lemma_push_is_insert(before, key@, value@);
                }
                entries.push((key, value));
            },
        }
        assert(entries_seq(entries@) =~= after);
        self.entries = entries;
    }
}

impl Clone for ConfigValue {
    fn clone(&self) -> (copy: Self)
        ensures
            copy@ == self@,
        decreases self,
    {
        match self {
            ConfigValue::Nil => ConfigValue::Nil,
            ConfigValue::Boolean(b) => ConfigValue::Boolean(*b),
            ConfigValue::Integer(i) => ConfigValue::Integer(*i),
            ConfigValue::Float(bits) => ConfigValue::Float(*bits),
            ConfigValue::String(s) => ConfigValue::String(s.clone()),
            ConfigValue::Array(items) => {
                let mut copies: Vec<ConfigValue> = Vec::new();
                let mut i: usize = 0;
                while i < items.len()
                    invariant
                        self is Array,
                        self->Array_0 == *items,
                        i <= items@.len(),
                        copies@.len() == i,
                        forall|j: int| 0 <= j < i ==> (#[trigger] copies@[j])@ == items@[j]@,
                    decreases items@.len() - i,
                {
                    copies.push(items[i].clone());
                    i += 1;
                }
                let copy = ConfigValue::Array(copies);
                assert(copy@->Array_0 =~= self@->Array_0);
                copy
            },
            ConfigValue::Table(table) => ConfigValue::Table(table.clone()),
        }
    }
}

impl Clone for Table {
    fn clone(&self) -> (copy: Self)
        ensures
            copy.entries_view() == self.entries_view(),
            copy@ == self@,
        decreases self,
    {
        proof {
            use_type_invariant(self);
        }
        let mut entries: Vec<(String, ConfigValue)> = Vec::new();
        let mut i: usize = 0;
        while i < self.entries.len()
            invariant
                i <= self.entries@.len(),
                entries@.len() == i,
                forall|j: int|
                    0 <= j < i ==> (#[trigger] entries@[j]).0@ == self.entries@[j].0@
                        && entries@[j].1@ == self.entries@[j].1@,
            decreases self.entries@.len() - i,
        {
            entries.push((self.entries[i].0.clone(), self.entries[i].1.clone()));
            i += 1;
        }
        assert(entries_seq(entries@) =~= self.entries_view());
        Table { entries }
    }
}

/// Among entries with distinct keys, a key is found at one place only.
pub proof fn lemma_position_unique(entries: Seq<(Seq<char>, ValueView)>, i: int)
    requires
        distinct_keys(entries),
        0 <= i < entries.len(),
    ensures
        has_key(entries, entries[i].0),
        position(entries, entries[i].0) == i,
{
}

/// Entries with distinct keys stand for a mapping with as many keys as there
/// are entries.
pub proof fn lemma_map_len(entries: Seq<(Seq<char>, ValueView)>)
    requires
        distinct_keys(entries),
    ensures
        entries_map(entries).dom().finite(),
        entries_map(entries).len() == entries.len(),
    decreases entries.len(),
{
    if entries.len() == 0 {
        assert(entries_map(entries) =~= Map::empty());
    } else {
        let init = entries.drop_last();
        let last = entries.last();
        assert(distinct_keys(init));
        assert(!has_key(init, last.0)) by {
            if has_key(init, last.0) {
                let i = position(init, last.0);
                assert(entries[i].0 != entries[entries.len() - 1].0);
            }
        }
        lemma_map_len(init);
        lemma_push_is_insert(init, last.0, last.1);
        assert(init.push(last) =~= entries);
    }
}

/// Replacing the value of an entry in place puts its key to the new value.
pub proof fn lemma_update_is_insert(
    entries: Seq<(Seq<char>, ValueView)>,
    i: int,
    value: ValueView,
)
    requires
        distinct_keys(entries),
        0 <= i < entries.len(),
    ensures
        distinct_keys(entries.update(i, (entries[i].0, value))),
        entries_map(entries.update(i, (entries[i].0, value))) == entries_map(entries).insert(
            entries[i].0,
            value,
        ),
{
    let k = entries[i].0;
    let after = entries.update(i, (k, value));
    assert(distinct_keys(after));
    assert forall|q: Seq<char>| has_key(after, q) == has_key(entries, q) by {
        if has_key(entries, q) {
            assert(after[position(entries, q)].0 == q);
        }
    }
    lemma_position_unique(after, i);
    assert forall|q: Seq<char>| #[trigger] has_key(after, q) implies entries_map(after)[q]
        == entries_map(entries).insert(k, value)[q] by {
        let a = position(after, q);
        lemma_position_unique(after, a);
        if q != k {
            lemma_position_unique(entries, a);
        }
    }
}

/// Putting a value under a key keeps the keys distinct, and the mapping takes
/// the key with the value.
pub proof fn lemma_inserted(entries: Seq<(Seq<char>, ValueView)>, key: Seq<char>, value: ValueView)
    requires
        distinct_keys(entries),
    ensures
        distinct_keys(inserted(entries, key, value)),
        entries_map(inserted(entries, key, value)) == entries_map(entries).insert(key, value),
{
    if has_key(entries, key) {
        lemma_update_is_insert(entries, position(entries, key), value);
    } else {
        lemma_push_is_insert(entries, key, value);
    }
}

/// Putting under a key the value that it has changes nothing.
pub proof fn lemma_inserted_again(
    entries: Seq<(Seq<char>, ValueView)>,
    key: Seq<char>,
    value: ValueView,
)
    requires
        entries_map(entries).contains_key(key),
        entries_map(entries)[key] == value,
    ensures
        inserted(entries, key, value) == entries,
{
    assert(inserted(entries, key, value) =~= entries);
}

/// Appending an entry under a key that is not present adds that key.
pub proof fn lemma_push_is_insert(
    entries: Seq<(Seq<char>, ValueView)>,
    key: Seq<char>,
    value: ValueView,
)
    requires
        distinct_keys(entries),
        !has_key(entries, key),
    ensures
        distinct_keys(entries.push((key, value))),
        entries_map(entries.push((key, value))) == entries_map(entries).insert(key, value),
{
    let after = entries.push((key, value));
    let n = entries.len() as int;
    assert(distinct_keys(after));
    assert(after[n].0 == key);
    assert forall|q: Seq<char>| has_key(after, q) == (has_key(entries, q) || q == key) by {
        if has_key(entries, q) {
            assert(after[position(entries, q)].0 == q);
        }
    }
    assert forall|q: Seq<char>| #[trigger] has_key(after, q) implies entries_map(after)[q]
        == entries_map(entries).insert(key, value)[q] by {
        let a = position(after, q);
        lemma_position_unique(after, a);
        if q != key {
            lemma_position_unique(entries, a);
        } else {
            lemma_position_unique(after, n);
        }
    }
}

} // verus!
