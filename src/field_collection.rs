//! An ordered collection of fields that allows repeated tags.
use vstd::prelude::*;
use crate::error::Error;
use crate::field::Field;

verus! {

/// How [`FieldCollection::set`] treats a tag that is already present.
#[derive(Debug, Clone, Copy, PartialEq, Eq, Structural)]
pub enum SetOperation {
    /// Replace the first field with this tag; do nothing if there is none.
    ReplaceFirst,
    /// Replace the first field with this tag; append the field if there is none.
    ReplaceFirstOrAppend,
    /// Always append the field.
    Append,
}

/// How [`FieldCollection::remove`] treats repeated tags.
#[derive(Debug, Clone, Copy, PartialEq, Eq, Structural)]
pub enum RemoveOperation {
    /// Remove the first field with this tag.
    RemoveFirst,
    /// Remove every field with this tag.
    RemoveAll,
}

/// The position of the first field carrying `tag`.
pub open spec fn index_of(s: Seq<(u32, Seq<char>)>, tag: u32) -> Option<int>
    decreases s.len(),
{
    if s.len() == 0 {
        None
    } else {
        match index_of(s.drop_last(), tag) {
            Some(i) => Some(i),
            None => if s.last().0 == tag {
                Some(s.len() - 1)
            } else {
                None
            },
        }
    }
}

/// The value of the first field carrying `tag`.
pub open spec fn value_of(s: Seq<(u32, Seq<char>)>, tag: u32) -> Option<Seq<char>> {
    match index_of(s, tag) {
        Some(i) => Some(s[i].1),
        None => None,
    }
}

/// The collection after `set(f, op)`.
pub open spec fn set_spec(s: Seq<(u32, Seq<char>)>, f: (u32, Seq<char>), op: SetOperation) -> Seq<
    (u32, Seq<char>),
> {
    if op == SetOperation::Append {
        s.push(f)
    } else {
        match index_of(s, f.0) {
            Some(i) => s.update(i, f),
            None => if op == SetOperation::ReplaceFirstOrAppend {
                s.push(f)
            } else {
                s
            },
        }
    }
}

/// Whether `set(f, op)` adds or updates a field.
pub open spec fn set_changes(s: Seq<(u32, Seq<char>)>, tag: u32, op: SetOperation) -> bool {
    op != SetOperation::ReplaceFirst || index_of(s, tag) is Some
}

/// The collection after `remove(tag, op)`.
pub open spec fn remove_spec(s: Seq<(u32, Seq<char>)>, tag: u32, op: RemoveOperation) -> Seq<
    (u32, Seq<char>),
> {
    match op {
        RemoveOperation::RemoveFirst => match index_of(s, tag) {
            Some(i) => s.remove(i),
            None => s,
        },
        RemoveOperation::RemoveAll => s.filter(other_tag(tag)),
    }
}

/// Holds of the fields whose tag is not `tag`.
pub open spec fn other_tag(tag: u32) -> spec_fn((u32, Seq<char>)) -> bool {
    |f: (u32, Seq<char>)| f.0 != tag
}

/// `index_of` finds the first field with the tag, and finds none only where there is none.
pub proof fn lemma_index_of(s: Seq<(u32, Seq<char>)>, tag: u32)
    ensures
        match index_of(s, tag) {
            Some(i) => 0 <= i < s.len() && s[i].0 == tag && forall|j: int|
                0 <= j < i ==> #[trigger] s[j].0 != tag,
            None => forall|j: int| 0 <= j < s.len() ==> #[trigger] s[j].0 != tag,
        },
    decreases s.len(),
{
    if s.len() > 0 {
        lemma_index_of(s.drop_last(), tag);
        assert(forall|j: int| 0 <= j < s.len() - 1 ==> s.drop_last()[j] == #[trigger] s[j]);
    }
}

/// The first field with the tag is the one `index_of` names.
pub proof fn lemma_index_of_first(s: Seq<(u32, Seq<char>)>, tag: u32, i: int)
    requires
        0 <= i < s.len(),
        s[i].0 == tag,
        forall|j: int| 0 <= j < i ==> #[trigger] s[j].0 != tag,
    ensures
        index_of(s, tag) == Some(i),
{
    lemma_index_of(s, tag);
}

proof fn lemma_filter_step(s: Seq<(u32, Seq<char>)>, i: int, pred: spec_fn((u32, Seq<char>)) -> bool)
    requires
        0 <= i < s.len(),
    ensures
        s.subrange(0, i + 1).filter(pred) == if pred(s[i]) {
            s.subrange(0, i).filter(pred).push(s[i])
        } else {
            s.subrange(0, i).filter(pred)
        },
{
    reveal(Seq::filter);
    let t = s.subrange(0, i + 1);
    assert(t.len() > 0);
    assert(t.drop_last() =~= s.subrange(0, i));
    assert(t.last() == s[i]);
}

/// Fields with the same tags in the same places have the same first position for each tag.
pub proof fn lemma_index_of_same_tags(s: Seq<(u32, Seq<char>)>, t: Seq<(u32, Seq<char>)>, tag: u32)
    requires
        s.len() == t.len(),
        forall|j: int| 0 <= j < s.len() ==> (#[trigger] s[j]).0 == t[j].0,
    ensures
        index_of(s, tag) == index_of(t, tag),
    decreases s.len(),
{
    if s.len() > 0 {
        lemma_index_of_same_tags(s.drop_last(), t.drop_last(), tag);
    }
}

/// After a set that replaces or appends, the first value of the field's tag is the new one
/// and every other tag keeps its first value.
pub proof fn lemma_set_value(s: Seq<(u32, Seq<char>)>, f: (u32, Seq<char>), op: SetOperation, t: u32)
    requires
        op != SetOperation::Append,
    ensures
        value_of(set_spec(s, f, op), t) == if t == f.0 && (op == SetOperation::ReplaceFirstOrAppend
            || index_of(s, f.0) is Some) {
            Some(f.1)
        } else {
            value_of(s, t)
        },
{
    lemma_index_of(s, f.0);
    lemma_index_of(s, t);
    match index_of(s, f.0) {
        Some(i) => {
            let n = s.update(i, f);
            lemma_index_of_same_tags(n, s, t);
            lemma_index_of(n, t);
        },
        None => {
            if op == SetOperation::ReplaceFirstOrAppend {
                let n = s.push(f);
                assert(n.drop_last() =~= s);
            }
        },
    }
}

/// An ordered sequence of fields. Repeated tags are allowed and insertion order is kept.
#[derive(Debug)]
pub struct FieldCollection {
    fields: Vec<Field>,
}

impl View for FieldCollection {
    type V = Seq<(u32, Seq<char>)>;

    closed spec fn view(&self) -> Seq<(u32, Seq<char>)> {
        self.fields@.map_values(|f: Field| f@)
    }
}

impl Default for FieldCollection {
    fn default() -> (r: Self)
        ensures
            r@ == Seq::<(u32, Seq<char>)>::empty(),
    {
        let r = FieldCollection { fields: Vec::new() };
        assert(r@ =~= Seq::<(u32, Seq<char>)>::empty());
        r
    }
}

impl Clone for FieldCollection {
    fn clone(&self) -> (r: Self)
        ensures
            r@ == self@,
    {
        let mut fields: Vec<Field> = Vec::new();
        let mut i: usize = 0;
        while i < self.fields.len()
            invariant
                i <= self.fields@.len(),
                fields@.len() == i,
                forall|j: int| 0 <= j < i ==> #[trigger] fields@[j] == self.fields@[j],
            decreases self.fields@.len() - i,
        {
            let f = self.fields[i].clone();
            fields.push(f);
            i += 1;
        }
        let r = FieldCollection { fields };
        assert(r@ =~= self@);
        r
    }
}

impl FieldCollection {
    pub fn clear(&mut self)
        ensures
            final(self)@ == Seq::<(u32, Seq<char>)>::empty(),
    {
        self.fields.clear();
        assert(self@ =~= Seq::<(u32, Seq<char>)>::empty());
    }

    pub fn is_empty(&self) -> (r: bool)
        ensures
            r == (self@.len() == 0),
    {
        self.fields.len() == 0
    }

    pub fn len(&self) -> (r: usize)
        ensures
            r == self@.len(),
    {
        self.fields.len()
    }

    /// The field at a position.
    pub fn field_at(&self, index: usize) -> (r: &Field)
        requires
            index < self@.len(),
        ensures
            r@ == self@[index as int],
    {
        &self.fields[index]
    }

    pub fn push(&mut self, field: Field)
        ensures
            final(self)@ == old(self)@.push(field@),
    {
        self.fields.push(field);
        assert(self@ =~= old(self)@.push(field@));
    }

    /// The position of the first field with `tag`.
    pub fn position(&self, tag: u32) -> (r: Option<usize>)
        ensures
            match r {
                Some(i) => index_of(self@, tag) == Some(i as int) && i < self@.len(),
                None => index_of(self@, tag) is None,
            },
    {
        let mut i: usize = 0;
        while i < self.fields.len()
            invariant
                i <= self@.len(),
                self@.len() == self.fields@.len(),
                forall|j: int| 0 <= j < i ==> #[trigger] self@[j].0 != tag,
            decreases self.fields@.len() - i,
        {
            if self.fields[i].tag == tag {
                proof {
                    lemma_index_of_first(self@, tag, i as int);
                }
                return Some(i);
            }
            i += 1;
        }
        proof {
            lemma_index_of(self@, tag);
            if let Some(k) = index_of(self@, tag) {
                assert(self@[k].0 != tag);
            }
        }
        None
    }

    /// The first field with `tag`, or `MessageDoesNotContainFieldWithTag`.
    pub fn get(&self, tag: u32) -> (r: Result<&Field, Error>)
        ensures
            match index_of(self@, tag) {
                Some(i) => r matches Ok(f) && f@ == self@[i],
                None => r == Err::<&Field, Error>(Error::MessageDoesNotContainFieldWithTag(tag)),
            },
    {
        match self.position(tag) {
            Some(i) => Ok(&self.fields[i]),
            None => Err(Error::MessageDoesNotContainFieldWithTag(tag)),
        }
    }

    /// The first field with `tag`, if any.
    pub fn try_get(&self, tag: u32) -> (r: Option<&Field>)
        ensures
            match index_of(self@, tag) {
                Some(i) => r matches Some(f) && f@ == self@[i],
                None => r is None,
            },
    {
        match self.position(tag) {
            Some(i) => Some(&self.fields[i]),
            None => None,
        }
    }

    /// Add or update a field according to `operation`; true when a field was added or updated.
    pub fn set(&mut self, field: &Field, operation: SetOperation) -> (r: bool)
        ensures
            final(self)@ == set_spec(old(self)@, field@, operation),
            r == set_changes(old(self)@, field.tag, operation),
    {
        if operation == SetOperation::Append {
            self.push(field.clone());
            return true;
        }
        match self.position(field.tag) {
            Some(i) => {
                proof {
                    lemma_index_of(self@, field.tag);
                }
                self.fields.set(i, field.clone());
                assert(self@ =~= old(self)@.update(i as int, field@));
                true
            },
            None => {
                if operation == SetOperation::ReplaceFirstOrAppend {
                    self.push(field.clone());
                    true
                } else {
                    false
                }
            },
        }
    }

    /// Remove the first field, or every field, with `tag`; true when a field was removed.
    pub fn remove(&mut self, tag: u32, operation: RemoveOperation) -> (r: bool)
        ensures
            final(self)@ == remove_spec(old(self)@, tag, operation),
            r == (index_of(old(self)@, tag) is Some),
    {
        match operation {
            RemoveOperation::RemoveFirst => {
                match self.position(tag) {
                    Some(i) => {
                        proof {
                            lemma_index_of(self@, tag);
                        }
                        self.fields.remove(i);
                        assert(self@ =~= old(self)@.remove(i as int));
                        true
                    },
                    None => false,
                }
            },
            RemoveOperation::RemoveAll => {
                let found = self.position(tag);
                let mut kept: Vec<Field> = Vec::new();
                let mut i: usize = 0;
                while i < self.fields.len()
                    invariant
                        i <= self.fields@.len(),
                        self@ == old(self)@,
                        kept@.map_values(|f: Field| f@) == self@.subrange(0, i as int).filter(other_tag(tag)),
                    decreases self.fields@.len() - i,
                {
                    let ghost before = self@.subrange(0, i as int);
                    proof {
                        lemma_filter_step(self@, i as int, other_tag(tag));
                        assert(self@[i as int] == self.fields@[i as int]@);
                    }
                    assert(self@.subrange(0, i + 1).drop_last() =~= before);
                    assert(self@.subrange(0, i + 1).last() == self@[i as int]);
                    if self.fields[i].tag != tag {
                        let f = self.fields[i].clone();
                        assert(f@ == self@[i as int]);
                        assert(other_tag(tag)(self@[i as int]));
                        kept.push(f);
                        assert(kept@.map_values(|f: Field| f@) =~= before.filter(other_tag(tag)).push(
                            self@[i as int],
                        ));
                        assert(self@.subrange(0, i + 1).filter(other_tag(tag)) == before.filter(other_tag(tag)).push(
                            self@[i as int],
                        ));
                    } else {
                        assert(!other_tag(tag)(self@[i as int]));
                        assert(self@.subrange(0, i + 1).filter(other_tag(tag)) == before.filter(other_tag(tag)));
                    }
                    i += 1;
                }
                assert(self@.subrange(0, self@.len() as int) =~= self@);
                self.fields = kept;
                found.is_some()
            },
        }
    }
}

} // verus!
