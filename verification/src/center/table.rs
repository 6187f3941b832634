//! Tables from text to values.
use vstd::prelude::*;

use crate::text;

verus! {

/// A table from text to values, in which no text stands twice.
#[derive(Debug)]
pub struct Table<V> {
    entries: Vec<(String, V)>,
}

/// Whether no text stands twice.
spec fn distinct<V>(entries: Seq<(String, V)>) -> bool {
    forall|i: int, j: int|
        0 <= i < j < entries.len() ==> (#[trigger] entries[i]).0@ != (#[trigger] entries[j]).0@
}

/// Whether a text stands at a place.
spec fn stands<V>(entries: Seq<(String, V)>, key: Seq<char>, i: int) -> bool {
    0 <= i < entries.len() && entries[i].0@ == key
}

/// The map that a list of entries stands for.
spec fn map_of<V>(entries: Seq<(String, V)>) -> Map<Seq<char>, V> {
    Map::new(
        |key: Seq<char>| exists|i: int| stands(entries, key, i),
        |key: Seq<char>| entries[choose|i: int| stands(entries, key, i)].1,
    )
}

proof fn map_at<V>(entries: Seq<(String, V)>, i: int)
    requires
        distinct(entries),
        0 <= i < entries.len(),
    ensures
        map_of(entries).contains_key(entries[i].0@),
        map_of(entries)[entries[i].0@] == entries[i].1,
{
    let key = entries[i].0@;
    assert(stands(entries, key, i));
    let j = choose|j: int| stands(entries, key, j);
    assert(stands(entries, key, j));
    assert(i == j) by {
        if i < j {
            assert(entries[i].0@ != entries[j].0@);
        } else if j < i {
            assert(entries[j].0@ != entries[i].0@);
        }
    }
}

proof fn map_without<V>(entries: Seq<(String, V)>, i: int)
    requires
        distinct(entries),
        0 <= i < entries.len(),
    ensures
        distinct(entries.remove(i)),
        map_of(entries.remove(i)) == map_of(entries).remove(entries[i].0@),
{
    let less = entries.remove(i);
    let key = entries[i].0@;
    assert forall|a: int, b: int| 0 <= a < b < less.len() implies (#[trigger] less[a]).0@ != (
    #[trigger] less[b]).0@ by {
        let x = if a < i { a } else { a + 1 };
        let y = if b < i { b } else { b + 1 };
        assert(less[a] == entries[x] && less[b] == entries[y]);
    }
    assert forall|k: Seq<char>| #[trigger] map_of(less).contains_key(k) implies map_of(
        entries,
    ).remove(key).contains_key(k) && map_of(less)[k] == map_of(entries).remove(key)[k] by {
        let a = choose|a: int| stands(less, k, a);
        assert(stands(less, k, a));
        let x = if a < i { a } else { a + 1 };
        assert(less[a] == entries[x]);
        map_at(less, a);
        map_at(entries, x);
        if k == key {
            if x < i {
                assert(entries[x].0@ != entries[i].0@);
            } else {
                assert(entries[i].0@ != entries[x].0@);
            }
        }
    }
    assert forall|k: Seq<char>| #[trigger] map_of(entries).remove(key).contains_key(
        k,
    ) implies map_of(less).contains_key(k) by {
        let x = choose|x: int| stands(entries, k, x);
        assert(stands(entries, k, x));
        let a = if x < i { x } else { x - 1 };
        assert(less[a] == entries[x]);
        assert(stands(less, k, a));
    }
    assert(map_of(less) =~= map_of(entries).remove(key));
}

proof fn map_with<V>(entries: Seq<(String, V)>, key: String, value: V)
    requires
        distinct(entries),
        !map_of(entries).contains_key(key@),
    ensures
        distinct(entries.push((key, value))),
        map_of(entries.push((key, value))) == map_of(entries).insert(key@, value),
{
    let more = entries.push((key, value));
    assert forall|a: int, b: int| 0 <= a < b < more.len() implies (#[trigger] more[a]).0@ != (
    #[trigger] more[b]).0@ by {
        if b == entries.len() {
            map_at(entries, a);
        } else {
            assert(entries[a].0@ != entries[b].0@);
        }
    }
    assert forall|k: Seq<char>| #[trigger] map_of(more).contains_key(k) implies map_of(
        entries,
    ).insert(key@, value).contains_key(k) && map_of(more)[k] == map_of(entries).insert(
        key@,
        value,
    )[k] by {
        let a = choose|a: int| stands(more, k, a);
        assert(stands(more, k, a));
        map_at(more, a);
        if a < entries.len() {
            map_at(entries, a);
        }
    }
    assert forall|k: Seq<char>| #[trigger] map_of(entries).insert(key@, value).contains_key(
        k,
    ) implies map_of(more).contains_key(k) by {
        if k == key@ {
            assert(stands(more, k, entries.len() as int));
        } else {
            let x = choose|x: int| stands(entries, k, x);
            assert(stands(entries, k, x));
            assert(stands(more, k, x));
        }
    }
    assert(map_of(more) =~= map_of(entries).insert(key@, value));
}

impl<V> View for Table<V> {
    type V = Map<Seq<char>, V>;

    closed spec fn view(&self) -> Map<Seq<char>, V> {
        map_of(self.entries@)
    }
}

impl<V> Table<V> {
    #[verifier::type_invariant]
    spec fn no_text_twice(self) -> bool {
        distinct(self.entries@)
    }

    /// An empty table.
    pub fn new() -> (table: Self)
        ensures
            table@ == Map::<Seq<char>, V>::empty(),
    {
        let table = Table { entries: Vec::new() };
        assert(table@ =~= Map::<Seq<char>, V>::empty());
        table
    }

    fn place(entries: &Vec<(String, V)>, key: &str) -> (place: Option<usize>)
        requires
            distinct(entries@),
        ensures
            match place {
                Some(i) => i < entries@.len() && entries@[i as int].0@ == key@ && map_of(
                    entries@,
                ).contains_key(key@) && map_of(entries@)[key@] == entries@[i as int].1,
                None => !map_of(entries@).contains_key(key@),
            },
    {
        for i in 0..entries.len()
            invariant
                distinct(entries@),
                forall|j: int| 0 <= j < i ==> (#[trigger] entries@[j]).0@ != key@,
        {
            if text::same_text(entries[i].0.as_str(), key) {
                proof {
                    map_at(entries@, i as int);
                }
                return Some(i);
            }
        }
        None
    }

    /// The value for a text.
    pub fn get(&self, key: &str) -> (value: Option<&V>)
        ensures
            match value {
                Some(v) => self@.contains_key(key@) && *v == self@[key@],
                None => !self@.contains_key(key@),
            },
    {
        proof {
            use_type_invariant(self);
        }
        match Self::place(&self.entries, key) {
            Some(i) => Some(&self.entries[i].1),
            None => None,
        }
    }

    /// Whether there is a value for a text.
    pub fn contains(&self, key: &str) -> (found: bool)
        ensures
            found == self@.contains_key(key@),
    {
        self.get(key).is_some()
    }

    /// Takes the value for a text out of the table.
    pub fn remove(&mut self, key: &str) -> (value: Option<V>)
        ensures
            final(self)@ == old(self)@.remove(key@),
            match value {
                Some(v) => old(self)@.contains_key(key@) && v == old(self)@[key@],
                None => !old(self)@.contains_key(key@),
            },
    {
        proof {
            use_type_invariant(&*self);
        }
        let mut entries: Vec<(String, V)> = Vec::new();
        std::mem::swap(&mut entries, &mut self.entries);
        let ghost before = entries@;
        let value = match Self::place(&entries, key) {
            Some(i) => {
                proof {
                    map_without(before, i as int);
                }
                let (_, value) = entries.remove(i);
                Some(value)
            },
            None => {
                assert(map_of(before).remove(key@) =~= map_of(before));
                None
            },
        };
        self.entries = entries;
        value
    }

    /// Puts a value for a text into the table, in place of the value that it had.
    pub fn insert(&mut self, key: &str, value: V)
        ensures
            final(self)@ == old(self)@.insert(key@, value),
    {
        let _ = self.remove(key);
        proof {
            use_type_invariant(&*self);
        }
        let mut entries: Vec<(String, V)> = Vec::new();
        std::mem::swap(&mut entries, &mut self.entries);
        let name = key.to_owned();
        proof {
            map_with(entries@, name, value);
        }
        entries.push((name, value));
        assert(old(self)@.remove(key@).insert(key@, value) =~= old(self)@.insert(key@, value));
        self.entries = entries;
    }

    /// The texts of the table, each once.
    pub fn keys(&self) -> (keys: Vec<String>)
        ensures
            text::texts(keys@).no_duplicates(),
            forall|key: Seq<char>|
                text::texts(keys@).contains(key) <==> #[trigger] self@.contains_key(key),
    {
        proof {
            use_type_invariant(self);
        }
        let mut keys: Vec<String> = Vec::new();
        for i in 0..self.entries.len()
            invariant
                keys@.len() == i,
                forall|j: int| 0 <= j < i ==> (#[trigger] keys@[j])@ == self.entries@[j].0@,
        {
            keys.push(self.entries[i].0.clone());
        }
        proof {
            let all = text::texts(keys@);
            let entries = self.entries@;
            assert forall|i: int, j: int| 0 <= i < all.len() && 0 <= j < all.len() && i
                != j implies all[i] != all[j] by {
                assert(all[i] == keys@[i]@ && all[j] == keys@[j]@);
                if i < j {
                    assert(entries[i].0@ != entries[j].0@);
                } else {
                    assert(entries[j].0@ != entries[i].0@);
                }
            }
            assert forall|key: Seq<char>| all.contains(key) <==> #[trigger] self@.contains_key(
                key,
            ) by {
                if all.contains(key) {
                    let i = choose|i: int| 0 <= i < all.len() && all[i] == key;
                    assert(keys@[i]@ == entries[i].0@);
                    map_at(entries, i);
                }
                if self@.contains_key(key) {
                    let i = choose|i: int| stands(entries, key, i);
                    assert(stands(entries, key, i));
                    assert(keys@[i]@ == entries[i].0@);
                    assert(all[i] == key);
                }
            }
        }
        keys
    }
}

/// The texts that a table of strings holds.
pub open spec fn text_map(table: Map<Seq<char>, String>) -> Map<Seq<char>, Seq<char>> {
    table.map_values(|s: String| s@)
}

impl Table<String> {
    /// A text whose value is the given one.
    pub fn key_of(&self, value: &str) -> (key: Option<String>)
        ensures
            match key {
                Some(k) => self@.contains_key(k@) && self@[k@]@ == value@,
                None => forall|k: Seq<char>| #[trigger]
                    self@.contains_key(k) ==> self@[k]@ != value@,
            },
    {
        proof {
            use_type_invariant(self);
        }
        for i in 0..self.entries.len()
            invariant
                distinct(self.entries@),
                forall|j: int| 0 <= j < i ==> (#[trigger] self.entries@[j]).1@ != value@,
        {
            if text::same_text(self.entries[i].1.as_str(), value) {
                proof {
                    map_at(self.entries@, i as int);
                }
                return Some(self.entries[i].0.clone());
            }
        }
        proof {
            assert forall|k: Seq<char>| #[trigger] self@.contains_key(k) implies self@[k]@
                != value@ by {
                let i = choose|i: int| stands(self.entries@, k, i);
                assert(stands(self.entries@, k, i));
                map_at(self.entries@, i);
            }
        }
        None
    }
}

} // verus!
