//! The header mapping of a message: names to values, each name once, the
//! value written last.

use crate::bytes::bytes_eq;
use vstd::prelude::*;
use vstd::string::*;
use vstd::utf8::*;

verus! {

/// A mapping from header names to header values.
///
/// Names are told apart by their exact text: nothing is folded or trimmed.
/// Its view is the mapping itself, over the UTF-8 octets of names and values.
#[derive(Debug)]
pub struct Headers {
    fields: Vec<(String, String)>,
}

/// The octets of the name of a field.
spec fn name_of(field: (String, String)) -> Seq<u8> {
    encode_utf8(field.0@)
}

/// The octets of the value of a field.
spec fn value_of(field: (String, String)) -> Seq<u8> {
    encode_utf8(field.1@)
}

/// Whether no two fields have the same name.
spec fn names_distinct(fields: Seq<(String, String)>) -> bool {
    forall|i: int, j: int|
        0 <= i < j < fields.len() ==> #[trigger] name_of(fields[i]) != #[trigger] name_of(
            fields[j],
        )
}

/// The mapping that writing `fields` one after the other gives.
spec fn fields_map(fields: Seq<(String, String)>) -> Map<Seq<u8>, Seq<u8>>
    decreases fields.len(),
{
    if fields.len() == 0 {
        Map::empty()
    } else {
        fields_map(fields.drop_last()).insert(name_of(fields.last()), value_of(fields.last()))
    }
}

/// The names in the mapping are those of the fields.
proof fn lemma_fields_map_dom(fields: Seq<(String, String)>, name: Seq<u8>)
    ensures
        fields_map(fields).dom().contains(name) <==> exists|i: int|
            0 <= i < fields.len() && #[trigger] name_of(fields[i]) == name,
        fields_map(fields).dom().finite(),
    decreases fields.len(),
{
    if fields.len() > 0 {
        let front = fields.drop_last();
        lemma_fields_map_dom(front, name);
        if fields_map(fields).dom().contains(name) {
            if name_of(fields.last()) == name {
                assert(name_of(fields[fields.len() - 1]) == name);
            } else {
                let i = choose|i: int| 0 <= i < front.len() && #[trigger] name_of(front[i]) == name;
                assert(name_of(fields[i]) == name);
            }
        }
        if exists|i: int| 0 <= i < fields.len() && #[trigger] name_of(fields[i]) == name {
            let i = choose|i: int| 0 <= i < fields.len() && #[trigger] name_of(fields[i]) == name;
            if i < front.len() {
                assert(name_of(front[i]) == name);
            }
        }
    }
}

/// Where names are distinct, each field's name maps to that field's value.
proof fn lemma_fields_map_at(fields: Seq<(String, String)>, i: int)
    requires
        names_distinct(fields),
        0 <= i < fields.len(),
    ensures
        fields_map(fields).dom().contains(name_of(fields[i])),
        fields_map(fields)[name_of(fields[i])] == value_of(fields[i]),
    decreases fields.len(),
{
    let front = fields.drop_last();
    if i < front.len() {
        assert(names_distinct(front)) by {
            assert forall|a: int, b: int| 0 <= a < b < front.len() implies #[trigger] name_of(
                front[a],
            ) != #[trigger] name_of(front[b]) by {
                assert(name_of(fields[a]) != name_of(fields[b]));
            }
        }
        lemma_fields_map_at(front, i);
        assert(front[i] == fields[i]);
        assert(name_of(fields[i]) != name_of(fields[fields.len() - 1]));
    }
}

/// Where names are distinct, the mapping has as many names as there are
/// fields.
proof fn lemma_fields_map_len(fields: Seq<(String, String)>)
    requires
        names_distinct(fields),
    ensures
        fields_map(fields).dom().finite(),
        fields_map(fields).dom().len() == fields.len(),
    decreases fields.len(),
{
    if fields.len() > 0 {
        let front = fields.drop_last();
        assert(names_distinct(front)) by {
            assert forall|a: int, b: int| 0 <= a < b < front.len() implies #[trigger] name_of(
                front[a],
            ) != #[trigger] name_of(front[b]) by {
                assert(name_of(fields[a]) != name_of(fields[b]));
            }
        }
        lemma_fields_map_len(front);
        let last_name = name_of(fields.last());
        lemma_fields_map_dom(front, last_name);
        if fields_map(front).dom().contains(last_name) {
            let i = choose|i: int| 0 <= i < front.len() && #[trigger] name_of(front[i]) == last_name;
            assert(name_of(fields[i]) != name_of(fields[fields.len() - 1]));
        }
    }
}

/// Where names are distinct, giving one field a new value under the same
/// name changes the mapping as one `insert` does.
proof fn lemma_fields_map_update(fields: Seq<(String, String)>, i: int, field: (String, String))
    requires
        names_distinct(fields),
        0 <= i < fields.len(),
        name_of(field) == name_of(fields[i]),
    ensures
        names_distinct(fields.update(i, field)),
        fields_map(fields.update(i, field)) == fields_map(fields).insert(
            name_of(field),
            value_of(field),
        ),
    decreases fields.len(),
{
    let updated = fields.update(i, field);
    assert(names_distinct(updated)) by {
        assert forall|a: int, b: int| 0 <= a < b < updated.len() implies #[trigger] name_of(
            updated[a],
        ) != #[trigger] name_of(updated[b]) by {
            assert(name_of(fields[a]) != name_of(fields[b]));
        }
    }
    let front = fields.drop_last();
    if i == fields.len() - 1 {
        assert(updated.drop_last() =~= front);
        assert(fields_map(updated) =~= fields_map(fields).insert(name_of(field), value_of(field)));
    } else {
        assert(names_distinct(front)) by {
            assert forall|a: int, b: int| 0 <= a < b < front.len() implies #[trigger] name_of(
                front[a],
            ) != #[trigger] name_of(front[b]) by {
                assert(name_of(fields[a]) != name_of(fields[b]));
            }
        }
        lemma_fields_map_update(front, i, field);
        assert(updated.drop_last() =~= front.update(i, field));
        assert(updated.last() == fields.last());
        assert(name_of(fields[i]) != name_of(fields[fields.len() - 1]));
        assert(fields_map(updated) =~= fields_map(fields).insert(name_of(field), value_of(field)));
    }
}

impl View for Headers {
    type V = Map<Seq<u8>, Seq<u8>>;

    closed spec fn view(&self) -> Map<Seq<u8>, Seq<u8>> {
        fields_map(self.fields@)
    }
}

impl Headers {
    /// No name is held twice.
    #[verifier::type_invariant]
    spec fn each_name_once(self) -> bool {
        names_distinct(self.fields@)
    }

    /// The empty mapping.
    pub fn new() -> (headers: Headers)
        ensures
            headers@ == Map::<Seq<u8>, Seq<u8>>::empty(),
    {
        Headers { fields: Vec::new() }
    }

    /// The index of the field called `name`, if there is one.
    fn position(&self, name: &[u8]) -> (found: Option<usize>)
        ensures
            match found {
                Some(i) => i < self.fields@.len() && name_of(self.fields@[i as int]) == name@,
                None => forall|j: int|
                    0 <= j < self.fields@.len() ==> #[trigger] name_of(self.fields@[j]) != name@,
            },
    {
        let n = self.fields.len();
        let mut i: usize = 0;
        while i < n
            invariant
                i <= n,
                n == self.fields@.len(),
                forall|j: int| 0 <= j < i ==> #[trigger] name_of(self.fields@[j]) != name@,
            decreases n - i,
        {
            if bytes_eq(self.fields[i].0.as_str().as_bytes(), name) {
                return Some(i);
            }
            i += 1;
        }
        None
    }

    /// Writes `value` under `name`; a value written there before is
    /// replaced.
    pub fn insert(&mut self, name: String, value: String)
        ensures
            final(self)@ == old(self)@.insert(encode_utf8(name@), encode_utf8(value@)),
    {
        proof {
            use_type_invariant(&*self);
        }
        let found = self.position(name.as_str().as_bytes());
        let ghost before = self.fields@;
        let mut fields: Vec<(String, String)> = Vec::new();
        core::mem::swap(&mut fields, &mut self.fields);
        match found {
            Some(i) => {
                proof {
                    lemma_fields_map_update(before, i as int, (name, value));
                }
                fields.set(i, (name, value));
            },
            None => {
                fields.push((name, value));
                proof {
                    assert(fields@.drop_last() =~= before);
                    assert forall|a: int, b: int| 0 <= a < b < fields@.len() implies #[trigger] name_of(
                        fields@[a],
                    ) != #[trigger] name_of(fields@[b]) by {
                        if b < before.len() {
                            assert(name_of(before[a]) != name_of(before[b]));
                        } else {
                            assert(name_of(before[a]) != encode_utf8(name@));
                        }
                    }
                }
            },
        }
        self.fields = fields;
    }

    /// The value written under `name`, if there is one.
    pub fn get(&self, name: &str) -> (value: Option<&String>)
        ensures
            match value {
                Some(v) => self@.contains_key(name.spec_bytes()) && encode_utf8(v@)
                    == self@[name.spec_bytes()],
                None => !self@.contains_key(name.spec_bytes()),
            },
    {
        proof {
            use_type_invariant(self);
            lemma_fields_map_dom(self.fields@, name.spec_bytes());
        }
        match self.position(name.as_bytes()) {
            Some(i) => {
                proof {
                    lemma_fields_map_at(self.fields@, i as int);
                }
                Some(&self.fields[i].1)
            },
            None => None,
        }
    }

    /// Whether a value is written under `name`.
    pub fn contains(&self, name: &str) -> (held: bool)
        ensures
            held == self@.contains_key(name.spec_bytes()),
    {
        self.get(name).is_some()
    }

    /// How many names have a value.
    pub fn len(&self) -> (count: usize)
        ensures
            self@.dom().finite(),
            count == self@.dom().len(),
    {
        proof {
            use_type_invariant(self);
            lemma_fields_map_len(self.fields@);
        }
        self.fields.len()
    }

    /// Whether no name has a value.
    pub fn is_empty(&self) -> (empty: bool)
        ensures
            empty == (self@ == Map::<Seq<u8>, Seq<u8>>::empty()),
    {
        proof {
            use_type_invariant(self);
            lemma_fields_map_len(self.fields@);
            if self.fields@.len() == 0 {
            } else {
                assert(self@.dom().len() > 0);
                assert(self@ != Map::<Seq<u8>, Seq<u8>>::empty());
            }
        }
        self.fields.len() == 0
    }
}

} // verus!
