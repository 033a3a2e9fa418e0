//! The field lists negotiated with the feed, one per event type.
use vstd::prelude::*;

use crate::text::{copy_strings, same_text, texts};

verus! {

/// `i` is the first entry recorded for `name`.
pub open spec fn first_entry(reg: Seq<(Seq<char>, Seq<Seq<char>>)>, name: Seq<char>, i: int) -> bool {
    0 <= i < reg.len() && reg[i].0 == name && forall|j: int| 0 <= j < i ==> reg[j].0 != name
}

/// The field list recorded for `name`, if any.
pub open spec fn schema_of(reg: Seq<(Seq<char>, Seq<Seq<char>>)>, name: Seq<char>) -> Option<
    Seq<Seq<char>>,
> {
    if exists|i: int| first_entry(reg, name, i) {
        Some(reg[choose|i: int| first_entry(reg, name, i)].1)
    } else {
        None
    }
}

proof fn lemma_schema_at(reg: Seq<(Seq<char>, Seq<Seq<char>>)>, name: Seq<char>, i: int)
    requires
        first_entry(reg, name, i),
    ensures
        schema_of(reg, name) == Some(reg[i].1),
{
    let k = choose|k: int| first_entry(reg, name, k);
    assert(first_entry(reg, name, k));
    if k < i {
        assert(reg[k].0 != name);
    }
    if i < k {
        assert(reg[i].0 != name);
    }
}

proof fn lemma_schema_absent(reg: Seq<(Seq<char>, Seq<Seq<char>>)>, name: Seq<char>)
    requires
        forall|j: int| 0 <= j < reg.len() ==> reg[j].0 != name,
    ensures
        schema_of(reg, name) is None,
{
}

pub open spec fn first_position(fields: Seq<Seq<char>>, field: Seq<char>, i: int) -> bool {
    0 <= i < fields.len() && fields[i] == field && forall|j: int| 0 <= j < i ==> fields[j] != field
}

/// The first position of `field` in `fields`, if any.
pub open spec fn position_of(fields: Seq<Seq<char>>, field: Seq<char>) -> Option<int> {
    if exists|i: int| first_position(fields, field, i) {
        Some(choose|i: int| first_position(fields, field, i))
    } else {
        None
    }
}

proof fn lemma_position_at(fields: Seq<Seq<char>>, field: Seq<char>, i: int)
    requires
        first_position(fields, field, i),
    ensures
        position_of(fields, field) == Some(i),
{
    let k = choose|k: int| first_position(fields, field, k);
    assert(first_position(fields, field, k));
    if k < i {
        assert(fields[k] != field);
    }
    if i < k {
        assert(fields[i] != field);
    }
}

/// The first position of `field` in `fields`.
pub(crate) fn find_field(fields: &[String], field: &str) -> (r: Option<usize>)
    ensures
        match r {
            Some(i) => position_of(texts(fields@), field@) == Some(i as int),
            None => position_of(texts(fields@), field@) is None,
        },
{
    let ghost fs = texts(fields@);
    let mut i: usize = 0;
    while i < fields.len()
        invariant
            i <= fields.len(),
            fs == texts(fields@),
            forall|j: int| 0 <= j < i ==> fs[j] != field@,
        decreases fields.len() - i,
    {
        if same_text(&fields[i], field) {
            assert(fs[i as int] == field@);
            proof {
                lemma_position_at(fs, field@, i as int);
            }
            return Some(i);
        }
        i = i + 1;
    }
    None
}

/// Each event type's field list, fixed the first time it is recorded.
pub struct SchemaRegistry {
    entries: Vec<(String, Vec<String>)>,
}

impl View for SchemaRegistry {
    type V = Seq<(Seq<char>, Seq<Seq<char>>)>;

    closed spec fn view(&self) -> Seq<(Seq<char>, Seq<Seq<char>>)> {
        self.entries@.map_values(|e: (String, Vec<String>)| (e.0@, texts(e.1@)))
    }
}

impl SchemaRegistry {
    pub fn new() -> (r: SchemaRegistry)
        ensures
            r@ == Seq::<(Seq<char>, Seq<Seq<char>>)>::empty(),
    {
        let r = SchemaRegistry { entries: Vec::new() };
        assert(r@ =~= Seq::<(Seq<char>, Seq<Seq<char>>)>::empty());
        r
    }

    /// Where `event_type` is recorded, if it is.
    fn find(&self, event_type: &str) -> (r: Option<usize>)
        ensures
            match r {
                Some(i) => i < self@.len() && self@[i as int].0 == event_type@ && schema_of(
                    self@,
                    event_type@,
                ) == Some(self@[i as int].1),
                None => schema_of(self@, event_type@) is None && forall|j: int|
                    0 <= j < self@.len() ==> self@[j].0 != event_type@,
            },
    {
        let mut i: usize = 0;
        while i < self.entries.len()
            invariant
                i <= self.entries.len(),
                forall|j: int| 0 <= j < i ==> self@[j].0 != event_type@,
            decreases self.entries.len() - i,
        {
            if same_text(&self.entries[i].0, event_type) {
                assert(self@[i as int].0 == event_type@);
                proof {
                    lemma_schema_at(self@, event_type@, i as int);
                }
                return Some(i);
            }
            i = i + 1;
        }
        proof {
            lemma_schema_absent(self@, event_type@);
        }
        None
    }

    /// Whether a field list is recorded for `event_type`.
    pub fn contains(&self, event_type: &str) -> (r: bool)
        ensures
            r == schema_of(self@, event_type@) is Some,
    {
        self.find(event_type).is_some()
    }

    /// A copy of the field list recorded for `event_type`.
    pub fn fields(&self, event_type: &str) -> (r: Option<Vec<String>>)
        ensures
            match r {
                Some(f) => schema_of(self@, event_type@) == Some(texts(f@)),
                None => schema_of(self@, event_type@) is None,
            },
    {
        match self.find(event_type) {
            Some(i) => Some(copy_strings(&self.entries[i].1)),
            None => None,
        }
    }

    /// Records `fields` for `event_type` the first time it is seen; later calls change
    /// nothing. Returns whether it was recorded now.
    pub fn negotiate(&mut self, event_type: &str, fields: &[String]) -> (r: bool)
        ensures
            r == schema_of(old(self)@, event_type@) is None,
            r ==> final(self)@ == old(self)@.push((event_type@, texts(fields@))),
            !r ==> final(self)@ == old(self)@,
            schema_of(final(self)@, event_type@) == if r {
                Some(texts(fields@))
            } else {
                schema_of(old(self)@, event_type@)
            },
    {
        if self.find(event_type).is_some() {
            return false;
        }
        let ghost before = self@;
        let name = crate::text::string_of(&crate::text::chars_of(event_type));
        let entry = (name, copy_strings(fields));
        assert(forall|j: int| 0 <= j < before.len() ==> before[j].0 != event_type@);
        self.entries.push(entry);
        assert(self@ =~= before.push((event_type@, texts(fields@))));
        assert(self@[before.len() as int].0 == event_type@);
        proof {
            lemma_schema_at(self@, event_type@, before.len() as int);
        }
        true
    }

    /// The position of `field_name` in the field list of `event_type`; `None` when the event
    /// type has no field list or the field is not in it.
    pub fn field_index(&self, event_type: &str, field_name: &str) -> (r: Option<usize>)
        ensures
            match r {
                Some(i) => schema_of(self@, event_type@) matches Some(fs) && position_of(
                    fs,
                    field_name@,
                ) == Some(i as int),
                None => schema_of(self@, event_type@) matches Some(fs) ==> position_of(
                    fs,
                    field_name@,
                ) is None,
            },
    {
        let k = match self.find(event_type) {
            Some(k) => k,
            None => {
                return None;
            },
        };
        let fields = &self.entries[k].1;
        assert(self@[k as int].1 == texts(fields@));
        find_field(fields, field_name)
    }
}

} // verus!
