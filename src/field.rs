//! A tag/value pair.
use vstd::prelude::*;
use crate::dictionary::FieldValue;

verus! {

/// A tag/value pair. Values are kept as text; numeric interpretation is left to the caller.
#[derive(Debug, PartialEq, Default)]
pub struct Field {
    pub tag: u32,
    pub value: String,
}

impl View for Field {
    type V = (u32, Seq<char>);

    open spec fn view(&self) -> (u32, Seq<char>) {
        (self.tag, self.value@)
    }
}

impl Clone for Field {
    fn clone(&self) -> (r: Self)
        ensures
            r == *self,
    {
        Field { tag: self.tag, value: self.value.clone() }
    }
}

impl Field {
    pub fn from_str(tag: u32, value: &str) -> (r: Field)
        ensures
            r@ == (tag, value@),
    {
        Field { tag, value: value.to_owned() }
    }

    /// The field that carries an enumerated value.
    pub fn from_field_value(field: &FieldValue) -> (r: Field)
        ensures
            r@ == (field.tag, field.value@),
    {
        Field { tag: field.tag, value: field.value.to_owned() }
    }
}

} // verus!
