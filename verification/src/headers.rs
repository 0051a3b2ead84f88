//! An insertion-ordered table of header fields in which no name occurs twice.

use vstd::prelude::*;

verus! {

/// The model of a header table: name and value of each field, in order.
pub type Fields = Seq<(Seq<char>, Seq<char>)>;

/// No two fields carry the same name.
pub open spec fn distinct_names(fields: Fields) -> bool {
    forall|i: int, j: int|
        0 <= i < j < fields.len() ==> (#[trigger] fields[i]).0 != (#[trigger] fields[j]).0
}

/// Whether some field is called `name`.
pub open spec fn has_name(fields: Fields, name: Seq<char>) -> bool {
    exists|i: int| 0 <= i < fields.len() && (#[trigger] fields[i]).0 == name
}

/// The position of a field called `name`.
pub open spec fn position(fields: Fields, name: Seq<char>) -> int {
    choose|i: int| 0 <= i < fields.len() && (#[trigger] fields[i]).0 == name
}

/// The value of the field called `name`.
pub open spec fn value_of(fields: Fields, name: Seq<char>) -> Option<Seq<char>> {
    if has_name(fields, name) {
        Some(fields[position(fields, name)].1)
    } else {
        None
    }
}

/// The table after `name` has been given `value`: a field of that name keeps
/// its place and takes the new value, a new name goes to the end.
pub open spec fn inserted(fields: Fields, name: Seq<char>, value: Seq<char>) -> Fields {
    if has_name(fields, name) {
        fields.update(position(fields, name), (name, value))
    } else {
        fields.push((name, value))
    }
}

/// Inserting keeps the names distinct.
pub proof fn lemma_inserted_distinct(fields: Fields, name: Seq<char>, value: Seq<char>)
    requires
        distinct_names(fields),
    ensures
        distinct_names(inserted(fields, name, value)),
        value_of(inserted(fields, name, value), name) == Some(value),
{
    let after = inserted(fields, name, value);
    if has_name(fields, name) {
        let at = position(fields, name);
        assert(after[at].0 == name);
        assert forall|i: int, j: int| 0 <= i < j < after.len() implies (#[trigger] after[i]).0 != (
        #[trigger] after[j]).0 by {
            assert(after[i].0 == fields[i].0);
            assert(after[j].0 == fields[j].0);
        }
        let found = position(after, name);
        if found != at {
            if found < at {
                assert(after[found].0 != after[at].0);
            } else {
                assert(after[at].0 != after[found].0);
            }
        }
    } else {
        let at = fields.len() as int;
        assert(after[at].0 == name);
        assert forall|i: int, j: int| 0 <= i < j < after.len() implies (#[trigger] after[i]).0 != (
        #[trigger] after[j]).0 by {
            assert(after[i] == fields[i]);
            if j < at {
                assert(after[j] == fields[j]);
            }
        }
        let found = position(after, name);
        if found != at {
            assert(after[found] == fields[found]);
        }
    }
}

/// Inserting a name that the table does not hold appends the field.
pub proof fn lemma_inserted_new(fields: Fields, name: Seq<char>, value: Seq<char>)
    requires
        forall|i: int| 0 <= i < fields.len() ==> (#[trigger] fields[i]).0 != name,
    ensures
        inserted(fields, name, value) == fields.push((name, value)),
{
}

/// One header field.
#[derive(Debug)]
pub struct Header {
    pub name: String,
    pub value: String,
}

/// Header fields in the order in which their names first came, each name once.
#[derive(Debug)]
pub struct Headers {
    entries: Vec<Header>,
}

impl View for Headers {
    type V = Fields;

    closed spec fn view(&self) -> Fields {
        Seq::new(self.entries@.len(), |i: int| (self.entries@[i].name@, self.entries@[i].value@))
    }
}

impl Headers {
    #[verifier::type_invariant]
    spec fn well_formed(&self) -> bool {
        distinct_names(self@)
    }

    /// The empty table.
    pub fn new() -> (headers: Headers)
        ensures
            headers@ == Seq::<(Seq<char>, Seq<char>)>::empty(),
    {
        let headers = Headers { entries: Vec::new() };
        assert(headers@ =~= Seq::<(Seq<char>, Seq<char>)>::empty());
        headers
    }

    /// The number of fields.
    pub fn len(&self) -> (n: usize)
        ensures
            n == self@.len(),
            distinct_names(self@),
    {
        proof {
            use_type_invariant(self);
        }
        self.entries.len()
    }

    /// The field at position `i`.
    pub fn entry(&self, i: usize) -> (header: &Header)
        requires
            i < self@.len(),
        ensures
            (header.name@, header.value@) == self@[i as int],
    {
        &self.entries[i]
    }

    /// The value of the field called `name`.
    pub fn get(&self, name: &String) -> (value: Option<&String>)
        ensures
            match value {
                Some(v) => value_of(self@, name@) == Some(v@),
                None => value_of(self@, name@) is None,
            },
    {
        proof {
            use_type_invariant(self);
        }
        let mut i: usize = 0;
        while i < self.entries.len()
            invariant
                i <= self.entries.len(),
                distinct_names(self@),
                forall|j: int| 0 <= j < i ==> (#[trigger] self@[j]).0 != name@,
            decreases self.entries.len() - i,
        {
            if self.entries[i].name == *name {
                proof {
                    assert(self@[i as int].0 == name@);
                    let found = position(self@, name@);
                    if found < i {
                        assert(self@[found].0 != self@[i as int].0);
                    } else if found > i {
                        assert(self@[i as int].0 != self@[found].0);
                    }
                }
                return Some(&self.entries[i].value);
            }
            i = i + 1;
        }
        None
    }

    /// Gives `name` the value `value`.
    pub fn insert(&mut self, name: String, value: String)
        ensures
            final(self)@ == inserted(old(self)@, name@, value@),
            distinct_names(final(self)@),
    {
        proof {
            use_type_invariant(&*self);
            lemma_inserted_distinct(self@, name@, value@);
        }
        let mut taken = Headers { entries: Vec::new() };
        core::mem::swap(self, &mut taken);
        let mut entries = taken.entries;
        let ghost before = old(self)@;
        let mut i: usize = 0;
        while i < entries.len()
            invariant
                i <= entries.len(),
                entries == old(self).entries,
                before == old(self)@,
                distinct_names(before),
                forall|j: int| 0 <= j < i ==> (#[trigger] before[j]).0 != name@,
            decreases entries.len() - i,
        {
            if entries[i].name == name {
                proof {
                    assert(before[i as int].0 == name@);
                    let found = position(before, name@);
                    if found < i {
                        assert(before[found].0 != before[i as int].0);
                    } else if found > i {
                        assert(before[i as int].0 != before[found].0);
                    }
                }
                entries.set(i, Header { name, value });
                let ghost after = Headers { entries };
                assert(after@ =~= inserted(before, name@, value@));
                *self = Headers { entries };
                return ;
            }
            i = i + 1;
        }
        entries.push(Header { name, value });
        let ghost after = Headers { entries };
        assert(after@ =~= inserted(before, name@, value@));
        *self = Headers { entries };
    }
}

} // verus!
