//! Definitions of the fields and messages of a protocol version, looked up by tag, name or MsgType.
use vstd::prelude::*;
use vstd::string::*;
use crate::message::{ascii_text, decimal_digits, decimal_text};

verus! {

/// When a definition entered the protocol, and what became of it since.
#[derive(Debug, Clone, Copy, PartialEq, Eq)]
pub struct Pedigree {
    pub added: Option<&'static str>,
    pub added_ep: Option<&'static str>,
    pub updated: Option<&'static str>,
    pub updated_ep: Option<&'static str>,
    pub deprecated: Option<&'static str>,
    pub deprecated_ep: Option<&'static str>,
}

impl Pedigree {
    /// A pedigree with nothing recorded.
    pub fn none() -> (r: Pedigree)
        ensures
            r.added is None && r.added_ep is None && r.updated is None,
            r.updated_ep is None && r.deprecated is None && r.deprecated_ep is None,
    {
        Pedigree {
            added: None,
            added_ep: None,
            updated: None,
            updated_ep: None,
            deprecated: None,
            deprecated_ep: None,
        }
    }

    /// A pedigree that records only the version that added the definition.
    pub fn added_in(version: &'static str) -> (r: Pedigree)
        ensures
            r.added == Some(version),
            r.added_ep is None && r.updated is None,
            r.updated_ep is None && r.deprecated is None && r.deprecated_ep is None,
    {
        Pedigree {
            added: Some(version),
            added_ep: None,
            updated: None,
            updated_ep: None,
            deprecated: None,
            deprecated_ep: None,
        }
    }
}

/// One enumerated value of a field, e.g. `Buy` = `"1"` for Side (54).
#[derive(Debug, Clone, Copy, PartialEq, Eq)]
pub struct FieldValue {
    pub tag: u32,
    pub name: &'static str,
    pub value: &'static str,
}

/// Whether two strings hold the same characters.
pub fn same_text(a: &str, b: &str) -> (r: bool)
    ensures
        r == (a@ == b@),
{
    a.to_owned() == b.to_owned()
}

/// The data types whose values are numbers, in lower case.
pub open spec fn numeric_types() -> Seq<Seq<char>> {
    seq![
        seq!['i', 'n', 't'],
        seq!['l', 'e', 'n', 'g', 't', 'h'],
        seq!['t', 'a', 'g', 'n', 'u', 'm'],
        seq!['s', 'e', 'q', 'n', 'u', 'm'],
        seq!['n', 'u', 'm', 'i', 'n', 'g', 'r', 'o', 'u', 'p'],
        seq!['f', 'l', 'o', 'a', 't'],
        seq!['q', 't', 'y'],
        seq!['p', 'r', 'i', 'c', 'e'],
        seq!['p', 'r', 'i', 'c', 'e', 'o', 'f', 'f', 's', 'e', 't'],
        seq!['a', 'm', 't'],
        seq!['p', 'e', 'r', 'c', 'e', 'n', 't', 'a', 'g', 'e'],
    ]
}

/// A character with ASCII upper case letters taken to lower case.
pub open spec fn ascii_lower(c: char) -> char {
    if 'A' <= c && c <= 'Z' {
        ((c as u32) + 32) as char
    } else {
        c
    }
}

/// Whether `a` and `b` are equal once ASCII letters are taken to lower case.
pub open spec fn equal_ignoring_case(a: Seq<char>, b: Seq<char>) -> bool {
    a.len() == b.len() && forall|i: int| 0 <= i < a.len() ==> ascii_lower(#[trigger] a[i]) == ascii_lower(b[i])
}

/// Whether `data_type` names a numeric type, in any mix of case.
pub open spec fn is_numeric_type(data_type: Seq<char>) -> bool {
    exists|k: int| 0 <= k < numeric_types().len() && equal_ignoring_case(data_type, #[trigger] numeric_types()[k])
}

fn lower_char(c: char) -> (r: char)
    ensures
        r == ascii_lower(c),
{
    if 'A' <= c && c <= 'Z' {
        proof {
            assert((c as u32) + 32 < 0xD800);
        }
        char_from_ascii((c as u32 + 32) as u8)
    } else {
        c
    }
}

fn char_from_ascii(b: u8) -> (r: char)
    requires
        b < 128,
    ensures
        r == b as char,
{
    b as char
}

/// Whether two strings are equal once ASCII letters are taken to lower case.
pub fn same_text_ignoring_case(a: &str, b: &str) -> (r: bool)
    ensures
        r == equal_ignoring_case(a@, b@),
{
    let n = a.unicode_len();
    if n != b.unicode_len() {
        return false;
    }
    let mut i: usize = 0;
    while i < n
        invariant
            n == a@.len(),
            n == b@.len(),
            i <= n,
            forall|j: int| 0 <= j < i ==> ascii_lower(#[trigger] a@[j]) == ascii_lower(b@[j]),
        decreases n - i,
    {
        if lower_char(a.get_char(i)) != lower_char(b.get_char(i)) {
            return false;
        }
        i += 1;
    }
    true
}

/// The definition of one field in a protocol version.
#[derive(Debug, Clone)]
pub struct OrchestrationField {
    pub tag: u32,
    pub is_data: bool,
    pub name: &'static str,
    pub data_type: &'static str,
    pub synopsis: &'static str,
    pub pedigree: Pedigree,
    pub values: Vec<FieldValue>,
}

/// Where the enumerated value `value` stands among `values`.
pub open spec fn value_index(values: Seq<FieldValue>, value: Seq<char>) -> Option<int> {
    if exists|i: int| 0 <= i < values.len() && (#[trigger] values[i]).value@ == value {
        Some(
            choose|i: int|
                0 <= i < values.len() && (#[trigger] values[i]).value@ == value && forall|j: int|
                    0 <= j < i ==> (#[trigger] values[j]).value@ != value,
        )
    } else {
        None
    }
}

/// The name of the first enumerated value among `values` equal to `value`.
pub open spec fn value_name(values: Seq<FieldValue>, value: Seq<char>) -> Option<&'static str> {
    match value_index(values, value) {
        Some(i) => Some(values[i].name),
        None => None,
    }
}

/// The first enumerated value equal to `value` is the one `value_index` names.
pub proof fn lemma_value_index(values: Seq<FieldValue>, value: Seq<char>, i: int)
    requires
        0 <= i < values.len(),
        values[i].value@ == value,
        forall|j: int| 0 <= j < i ==> (#[trigger] values[j]).value@ != value,
    ensures
        value_index(values, value) == Some(i),
{
    let k = choose|k: int|
        0 <= k < values.len() && (#[trigger] values[k]).value@ == value && forall|j: int|
            0 <= j < k ==> (#[trigger] values[j]).value@ != value;
    assert(0 <= k < values.len() && values[k].value@ == value);
    if k < i {
        assert(values[k].value@ != value);
    } else if k > i {
        assert(values[i].value@ != value);
    }
}

/// Finds the name of `value` among `values`.
fn find_value_name(values: &Vec<FieldValue>, value: &str) -> (r: Option<&'static str>)
    ensures
        r == value_name(values@, value@),
{
    let mut i: usize = 0;
    while i < values.len()
        invariant
            i <= values@.len(),
            forall|j: int| 0 <= j < i ==> (#[trigger] values@[j]).value@ != value@,
        decreases values@.len() - i,
    {
        if same_text(values[i].value, value) {
            proof {
                lemma_value_index(values@, value@, i as int);
            }
            return Some(values[i].name);
        }
        i += 1;
    }
    None
}

impl OrchestrationField {
    /// The descriptor that stands for an unknown tag.
    pub fn invalid() -> (r: OrchestrationField)
        ensures
            r.tag == 0,
            !r.is_data,
            r.name@.len() == 0 && r.data_type@.len() == 0 && r.synopsis@.len() == 0,
            r.values@.len() == 0,
    {
        let r = OrchestrationField {
            tag: 0,
            is_data: false,
            name: "",
            data_type: "",
            synopsis: "",
            pedigree: Pedigree::none(),
            values: Vec::new(),
        };
        proof {
            reveal_strlit("");
        }
        r
    }

    pub fn tag(&self) -> (r: u32)
        ensures
            r == self.tag,
    {
        self.tag
    }

    pub fn is_data(&self) -> (r: bool)
        ensures
            r == self.is_data,
    {
        self.is_data
    }

    pub fn name(&self) -> (r: &'static str)
        ensures
            r == self.name,
    {
        self.name
    }

    pub fn data_type(&self) -> (r: &'static str)
        ensures
            r == self.data_type,
    {
        self.data_type
    }

    pub fn synopsis(&self) -> (r: &'static str)
        ensures
            r == self.synopsis,
    {
        self.synopsis
    }

    pub fn pedigree(&self) -> (r: Pedigree)
        ensures
            r == self.pedigree,
    {
        self.pedigree
    }

    pub fn values(&self) -> (r: &Vec<FieldValue>)
        ensures
            r == &self.values,
    {
        &self.values
    }

    /// The text `OrchestrationField { name: "<name>", tag: <tag> }`.
    pub fn debug_text(&self) -> (r: String)
        ensures
            r@ == "OrchestrationField { name: \""@ + self.name@ + "\", tag: "@ + ascii_text(
                decimal_digits(self.tag as nat),
            ) + " }"@,
    {
        let mut text = "OrchestrationField { name: \"".to_owned();
        text.append(self.name);
        text.append("\", tag: ");
        let digits = decimal_text(self.tag as u64);
        text.append(digits.as_str());
        text.append(" }");
        text
    }

    /// A descriptor is valid unless it stands for an unknown tag (tag 0).
    pub fn is_valid(&self) -> (r: bool)
        ensures
            r == (self.tag != 0),
    {
        self.tag != 0
    }

    /// The name of an enumerated value of this field, e.g. `"1"` gives `Buy` for Side.
    pub fn name_of_value(&self, value: &str) -> (r: Option<&'static str>)
        ensures
            r == value_name(self.values@, value@),
    {
        find_value_name(&self.values, value)
    }

    /// The enumerated value of this field that has the name `name`.
    pub fn value_with_name(&self, name: &str) -> (r: Option<FieldValue>)
        ensures
            r matches Some(v) ==> self.values@.contains(v) && v.name@ == name@,
            r is None ==> forall|i: int| 0 <= i < self.values@.len() ==> (#[trigger] self.values@[i]).name@ != name@,
    {
        let mut i: usize = 0;
        while i < self.values.len()
            invariant
                i <= self.values@.len(),
                forall|j: int| 0 <= j < i ==> (#[trigger] self.values@[j]).name@ != name@,
            decreases self.values@.len() - i,
        {
            if same_text(self.values[i].name, name) {
                return Some(self.values[i]);
            }
            i += 1;
        }
        None
    }

    /// Whether the data type is one of the numeric ones, in any mix of case.
    pub fn is_numeric(&self) -> (r: bool)
        ensures
            r == is_numeric_type(self.data_type@),
    {
        let names: [&str; 11] = [
            "int",
            "length",
            "tagnum",
            "seqnum",
            "numingroup",
            "float",
            "qty",
            "price",
            "priceoffset",
            "amt",
            "percentage",
        ];
        proof {
            reveal_strlit("int");
            reveal_strlit("length");
            reveal_strlit("tagnum");
            reveal_strlit("seqnum");
            reveal_strlit("numingroup");
            reveal_strlit("float");
            reveal_strlit("qty");
            reveal_strlit("price");
            reveal_strlit("priceoffset");
            reveal_strlit("amt");
            reveal_strlit("percentage");
            assert(numeric_types().len() == 11);
            assert(names@[0]@ == numeric_types()[0]);
            assert(names@[1]@ == numeric_types()[1]);
            assert(names@[2]@ == numeric_types()[2]);
            assert(names@[3]@ == numeric_types()[3]);
            assert(names@[4]@ == numeric_types()[4]);
            assert(names@[5]@ == numeric_types()[5]);
            assert(names@[6]@ == numeric_types()[6]);
            assert(names@[7]@ == numeric_types()[7]);
            assert(names@[8]@ == numeric_types()[8]);
            assert(names@[9]@ == numeric_types()[9]);
            assert(names@[10]@ == numeric_types()[10]);
        }
        let mut k: usize = 0;
        while k < 11
            invariant
                k <= 11,
                numeric_types().len() == 11,
                forall|m: int| 0 <= m < 11 ==> (#[trigger] names@[m])@ == numeric_types()[m],
                forall|m: int| 0 <= m < k ==> !equal_ignoring_case(self.data_type@, (#[trigger] names@[m])@),
            decreases 11 - k,
        {
            if same_text_ignoring_case(self.data_type, names[k]) {
                assert(equal_ignoring_case(self.data_type@, numeric_types()[k as int]));
                return true;
            }
            k += 1;
        }
        proof {
            if is_numeric_type(self.data_type@) {
                let m = choose|m: int| 0 <= m < numeric_types().len() && equal_ignoring_case(self.data_type@, #[trigger] numeric_types()[m]);
                assert(!equal_ignoring_case(self.data_type@, names@[m]@));
            }
        }
        false
    }
}

/// The field definitions of a protocol version, indexed by tag.
///
/// `offsets[tag]` is the position of the tag's definition in `fields`; position 0 holds the
/// descriptor that stands for unknown tags.
pub struct OrchestrationFieldCollection {
    offsets: Vec<usize>,
    fields: Vec<OrchestrationField>,
}

/// Whether every offset names a definition.
pub open spec fn offsets_in_range(offsets: Seq<usize>, fields: Seq<OrchestrationField>) -> bool {
    forall|t: int| 0 <= t < offsets.len() ==> (#[trigger] offsets[t]) < fields.len()
}

/// The definition that a tag maps to, or `None` for a tag past the table.
pub open spec fn definition_of(
    offsets: Seq<usize>,
    fields: Seq<OrchestrationField>,
    tag: int,
) -> Option<OrchestrationField> {
    if 0 <= tag < offsets.len() && offsets[tag] < fields.len() {
        Some(fields[offsets[tag] as int])
    } else {
        None
    }
}

/// The definition of a tag that the table knows (one with a valid descriptor).
pub open spec fn known_definition(
    offsets: Seq<usize>,
    fields: Seq<OrchestrationField>,
    tag: int,
) -> Option<OrchestrationField> {
    match definition_of(offsets, fields, tag) {
        Some(f) => if f.tag != 0 {
            Some(f)
        } else {
            None
        },
        None => None,
    }
}

/// Whether every tag is positive and no two definitions share one.
pub open spec fn distinct_positive_tags(defs: Seq<OrchestrationField>) -> bool {
    &&& forall|i: int| 0 <= i < defs.len() ==> (#[trigger] defs[i]).tag >= 1
    &&& forall|i: int, j: int|
        0 <= i < defs.len() && 0 <= j < defs.len() && i != j ==> (#[trigger] defs[i]).tag != (#[trigger] defs[j]).tag
}

impl View for OrchestrationFieldCollection {
    type V = (Seq<usize>, Seq<OrchestrationField>);

    closed spec fn view(&self) -> (Seq<usize>, Seq<OrchestrationField>) {
        (self.offsets@, self.fields@)
    }
}

impl OrchestrationFieldCollection {
    #[verifier::type_invariant]
    spec fn inv(&self) -> bool {
        offsets_in_range(self.offsets@, self.fields@)
    }

    /// The definition of `tag`, if the table reaches that far.
    pub open spec fn definition(&self, tag: int) -> Option<OrchestrationField> {
        definition_of(self@.0, self@.1, tag)
    }

    /// The definition of `tag`, if it is a known field.
    pub open spec fn known(&self, tag: int) -> Option<OrchestrationField> {
        known_definition(self@.0, self@.1, tag)
    }

    /// Whether values of `tag` are data: their length is carried by the field before them.
    pub open spec fn data_tag(&self, tag: u32) -> bool {
        self.definition(tag as int) matches Some(f) && f.is_data
    }

    pub fn new(offsets: Vec<usize>, fields: Vec<OrchestrationField>) -> (r: Self)
        requires
            offsets_in_range(offsets@, fields@),
        ensures
            r@ == (offsets@, fields@),
    {
        OrchestrationFieldCollection { offsets, fields }
    }

    /// A table built from definitions: position 0 holds the unknown-tag descriptor and each
    /// definition follows in order; a tag that several definitions share maps to the last.
    pub fn from_definitions(definitions: Vec<OrchestrationField>) -> (r: Self)
        requires
            forall|i: int| 0 <= i < definitions@.len() ==> (#[trigger] definitions@[i]).tag < u32::MAX,
        ensures
            r@.1.len() == definitions@.len() + 1,
            r@.1[0].tag == 0,
            forall|i: int| 0 <= i < definitions@.len() ==> r@.1[i + 1] == #[trigger] definitions@[i],
            forall|i: int| 0 <= i < definitions@.len() ==> (r.definition((#[trigger] definitions@[i]).tag as int) matches Some(f) && f.tag == definitions@[i].tag),
            forall|t: int| 0 < t < r@.0.len() ==> (#[trigger] r.definition(t) matches Some(f) && (f.tag == 0 || f.tag == t)),
            r.definition(0) matches Some(f) && f.tag == 0,
            r@.1[0].name@.len() == 0 && r@.1[0].values@.len() == 0 && !r@.1[0].is_data,
            r@.0.len() == 1 || exists|j: int|
                0 <= j < definitions@.len() && r@.0.len() == (#[trigger] definitions@[j]).tag + 1,
            distinct_positive_tags(definitions@) ==> r.definition(0) == Some(r@.1[0]),
            distinct_positive_tags(definitions@) ==> forall|i: int|
                0 <= i < definitions@.len() ==> r.definition((#[trigger] definitions@[i]).tag as int) == Some(definitions@[i]),
    {
        let mut top: usize = 0;
        let mut i: usize = 0;
        while i < definitions.len()
            invariant
                i <= definitions@.len(),
                top < u32::MAX,
                forall|j: int| 0 <= j < i ==> (#[trigger] definitions@[j]).tag <= top,
                forall|j: int| 0 <= j < definitions@.len() ==> (#[trigger] definitions@[j]).tag < u32::MAX,
                top == 0 || exists|j: int| 0 <= j < i && (#[trigger] definitions@[j]).tag == top,
            decreases definitions@.len() - i,
        {
            if definitions[i].tag as usize > top {
                top = definitions[i].tag as usize;
            }
            i += 1;
        }
        let mut offsets: Vec<usize> = Vec::new();
        while offsets.len() <= top
            invariant
                offsets@.len() <= top + 1,
                forall|t: int| 0 <= t < offsets@.len() ==> (#[trigger] offsets@[t]) == 0,
            decreases top + 1 - offsets@.len(),
        {
            offsets.push(0);
        }
        let ghost defs = definitions@;
        let mut fields = definitions;
        fields.insert(0, OrchestrationField::invalid());
        let mut k: usize = 1;
        while k < fields.len()
            invariant
                1 <= k <= fields@.len(),
                fields@.len() == defs.len() + 1,
                offsets@.len() == top + 1,
                fields@[0].tag == 0,
                forall|j: int| 0 <= j < defs.len() ==> fields@[j + 1] == #[trigger] defs[j],
                forall|j: int| 0 <= j < defs.len() ==> (#[trigger] defs[j]).tag <= top,
                forall|t: int| 0 <= t < offsets@.len() ==> (#[trigger] offsets@[t]) < k,
                forall|t: int| 0 < t < offsets@.len() ==> (#[trigger] fields@[offsets@[t] as int]).tag == 0 || fields@[offsets@[t] as int].tag == t,
                fields@[offsets@[0] as int].tag == 0,
                forall|j: int| 0 <= j < k - 1 ==> fields@[offsets@[(#[trigger] defs[j]).tag as int] as int].tag == defs[j].tag,
                distinct_positive_tags(defs) ==> offsets@[0] == 0,
                fields@[0].name@.len() == 0 && fields@[0].values@.len() == 0 && !fields@[0].is_data,
                top == 0 || exists|j: int| 0 <= j < defs.len() && (#[trigger] defs[j]).tag == top,
            decreases fields@.len() - k,
        {
            let tag = fields[k].tag as usize;
            proof {
                assert(fields@[k as int] == defs[k - 1]);
            }
            offsets.set(tag, k);
            k += 1;
        }
        let r = OrchestrationFieldCollection { offsets, fields };
        proof {
            if distinct_positive_tags(defs) {
                assert forall|i: int| 0 <= i < defs.len() implies r.definition((#[trigger] defs[i]).tag as int) == Some(defs[i]) by {
                    let o = offsets@[defs[i].tag as int] as int;
                    assert(fields@[o].tag == defs[i].tag);
                    assert(o != 0);
                    assert(fields@[o] == defs[o - 1]);
                }
            }
        }
        r
    }

    /// The number of definitions, the unknown-tag descriptor included.
    pub fn len(&self) -> (r: usize)
        ensures
            r == self@.1.len(),
    {
        self.fields.len()
    }

    pub fn is_empty(&self) -> (r: bool)
        ensures
            r == (self@.1.len() == 0),
    {
        self.fields.len() == 0
    }

    /// The number of tags the table covers.
    pub fn tag_count(&self) -> (r: usize)
        ensures
            r == self@.0.len(),
    {
        self.offsets.len()
    }

    /// The definition of `tag`; tag 0 and unknown tags give the invalid descriptor.
    pub fn field(&self, tag: usize) -> (r: &OrchestrationField)
        requires
            tag < self@.0.len(),
        ensures
            self.definition(tag as int) == Some(*r),
    {
        proof {
            use_type_invariant(self);
        }
        &self.fields[self.offsets[tag]]
    }

    /// The definition of `tag`, or `None` past the end of the table.
    pub fn try_field(&self, tag: usize) -> (r: Option<&OrchestrationField>)
        ensures
            r matches Some(f) ==> self.definition(tag as int) == Some(*f),
            r is None ==> self.definition(tag as int) is None,
    {
        proof {
            use_type_invariant(self);
        }
        if tag < self.offsets.len() {
            Some(&self.fields[self.offsets[tag]])
        } else {
            None
        }
    }

    /// Whether `tag` is a known field.
    pub fn is_tag_valid(&self, tag: usize) -> (r: bool)
        ensures
            r == (self.known(tag as int) is Some),
    {
        match self.try_field(tag) {
            Some(f) => f.is_valid(),
            None => false,
        }
    }

    /// The name of a known field.
    pub fn name_of_field(&self, tag: usize) -> (r: Option<&'static str>)
        ensures
            r == (match self.known(tag as int) {
                Some(f) => Some(f.name),
                None => None::<&'static str>,
            }),
    {
        match self.try_field(tag) {
            Some(f) => if f.is_valid() {
                Some(f.name)
            } else {
                None
            },
            None => None,
        }
    }

    /// The name of an enumerated value of a field, e.g. `(18, "G")` gives `AllOrNone`.
    pub fn name_of_value(&self, tag: usize, value: &str) -> (r: Option<&'static str>)
        ensures
            r == (match self.definition(tag as int) {
                Some(f) => value_name(f.values@, value@),
                None => None::<&'static str>,
            }),
    {
        match self.try_field(tag) {
            Some(f) => f.name_of_value(value),
            None => None,
        }
    }

    /// The known field called `name`.
    pub fn field_with_name(&self, name: &str) -> (r: Option<&OrchestrationField>)
        ensures
            r matches Some(f) ==> self@.1.contains(*f) && f.name@ == name@ && f.tag != 0,
            r is None ==> forall|i: int|
                0 <= i < self@.1.len() && (#[trigger] self@.1[i]).tag != 0 ==> self@.1[i].name@ != name@,
    {
        let mut i: usize = 0;
        while i < self.fields.len()
            invariant
                i <= self.fields@.len(),
                forall|j: int|
                    0 <= j < i && (#[trigger] self.fields@[j]).tag != 0 ==> self.fields@[j].name@ != name@,
            decreases self.fields@.len() - i,
        {
            if self.fields[i].tag != 0 && same_text(self.fields[i].name, name) {
                return Some(&self.fields[i]);
            }
            i += 1;
        }
        None
    }

    /// Whether values of `tag` are data fields.
    pub fn is_data_tag(&self, tag: u32) -> (r: bool)
        ensures
            r == self.data_tag(tag),
    {
        match self.try_field(tag as usize) {
            Some(f) => f.is_data,
            None => false,
        }
    }
}

/// Whether a message member must, may or must not appear.
#[derive(Debug, Clone, Copy, PartialEq, Eq, Structural)]
pub enum Presence {
    Required,
    Optional,
    Forbidden,
    Ignored,
    Constant,
}

/// A field as a member of a message definition.
#[derive(Debug, Clone)]
pub struct MessageField {
    field: OrchestrationField,
    field_presence: Presence,
    nesting_depth: u32,
}

impl MessageField {
    pub closed spec fn spec_field(&self) -> OrchestrationField {
        self.field
    }

    pub fn new(field: OrchestrationField, field_presence: Presence, nesting_depth: u32) -> (r: Self)
        ensures
            r.spec_field() == field,
            r.presence_spec() == field_presence,
            r.depth_spec() == nesting_depth,
    {
        MessageField { field, field_presence, nesting_depth }
    }

    pub closed spec fn presence_spec(&self) -> Presence {
        self.field_presence
    }

    pub closed spec fn depth_spec(&self) -> u32 {
        self.nesting_depth
    }

    pub fn tag(&self) -> (r: u32)
        ensures
            r == self.spec_field().tag,
    {
        self.field.tag
    }

    pub fn name(&self) -> (r: &'static str)
        ensures
            r == self.spec_field().name,
    {
        self.field.name
    }

    pub fn data_type(&self) -> (r: &'static str)
        ensures
            r == self.spec_field().data_type,
    {
        self.field.data_type
    }

    pub fn synopsis(&self) -> (r: &'static str)
        ensures
            r == self.spec_field().synopsis,
    {
        self.field.synopsis
    }

    pub fn pedigree(&self) -> (r: Pedigree)
        ensures
            r == self.spec_field().pedigree,
    {
        self.field.pedigree
    }

    pub fn presence(&self) -> (r: Presence)
        ensures
            r == self.presence_spec(),
    {
        self.field_presence
    }

    /// 0 for a top-level member, 1 or more inside repeating groups.
    pub fn depth(&self) -> (r: u32)
        ensures
            r == self.depth_spec(),
    {
        self.nesting_depth
    }
}

/// The definition of one message of a protocol version.
#[derive(Debug, Clone)]
pub struct Message {
    pub name: &'static str,
    pub msg_type: &'static str,
    pub category: &'static str,
    pub synopsis: &'static str,
    pub pedigree: Pedigree,
    pub fields: Vec<MessageField>,
}

impl Message {
    pub fn name(&self) -> (r: &'static str)
        ensures
            r == self.name,
    {
        self.name
    }

    pub fn msg_type(&self) -> (r: &'static str)
        ensures
            r == self.msg_type,
    {
        self.msg_type
    }

    pub fn category(&self) -> (r: &'static str)
        ensures
            r == self.category,
    {
        self.category
    }

    pub fn synopsis(&self) -> (r: &'static str)
        ensures
            r == self.synopsis,
    {
        self.synopsis
    }

    pub fn pedigree(&self) -> (r: Pedigree)
        ensures
            r == self.pedigree,
    {
        self.pedigree
    }

    pub fn fields(&self) -> (r: &Vec<MessageField>)
        ensures
            r == &self.fields,
    {
        &self.fields
    }
}

/// The message definitions of a protocol version, in display order.
pub struct MessageCollection {
    messages: Vec<Message>,
}

impl View for MessageCollection {
    type V = Seq<Message>;

    closed spec fn view(&self) -> Seq<Message> {
        self.messages@
    }
}

/// Where the first message of type `msg_type` stands.
pub open spec fn message_index(messages: Seq<Message>, msg_type: Seq<char>) -> Option<int> {
    if exists|i: int| 0 <= i < messages.len() && (#[trigger] messages[i]).msg_type@ == msg_type {
        Some(
            choose|i: int|
                0 <= i < messages.len() && (#[trigger] messages[i]).msg_type@ == msg_type && forall|j: int|
                    0 <= j < i ==> (#[trigger] messages[j]).msg_type@ != msg_type,
        )
    } else {
        None
    }
}

proof fn lemma_message_index(messages: Seq<Message>, msg_type: Seq<char>, i: int)
    requires
        0 <= i < messages.len(),
        messages[i].msg_type@ == msg_type,
        forall|j: int| 0 <= j < i ==> (#[trigger] messages[j]).msg_type@ != msg_type,
    ensures
        message_index(messages, msg_type) == Some(i),
{
    let k = choose|k: int|
        0 <= k < messages.len() && (#[trigger] messages[k]).msg_type@ == msg_type && forall|j: int|
            0 <= j < k ==> (#[trigger] messages[j]).msg_type@ != msg_type;
    assert(0 <= k < messages.len() && messages[k].msg_type@ == msg_type);
    if k < i {
        assert(messages[k].msg_type@ != msg_type);
    } else if k > i {
        assert(messages[i].msg_type@ != msg_type);
    }
}

impl MessageCollection {
    pub fn new(messages: Vec<Message>) -> (r: Self)
        ensures
            r@ == messages@,
    {
        MessageCollection { messages }
    }

    pub fn len(&self) -> (r: usize)
        ensures
            r == self@.len(),
    {
        self.messages.len()
    }

    pub fn is_empty(&self) -> (r: bool)
        ensures
            r == (self@.len() == 0),
    {
        self.messages.len() == 0
    }

    /// The message definition at a position.
    pub fn message(&self, index: usize) -> (r: &Message)
        requires
            index < self@.len(),
        ensures
            *r == self@[index as int],
    {
        &self.messages[index]
    }

    /// The name of the message with this MsgType, e.g. `"A"` gives `Logon`.
    pub fn name_of_message(&self, msg_type: &str) -> (r: Option<&'static str>)
        ensures
            r == (match message_index(self@, msg_type@) {
                Some(i) => Some(self@[i].name),
                None => None::<&'static str>,
            }),
    {
        let mut i: usize = 0;
        while i < self.messages.len()
            invariant
                i <= self.messages@.len(),
                forall|j: int| 0 <= j < i ==> (#[trigger] self.messages@[j]).msg_type@ != msg_type@,
            decreases self.messages@.len() - i,
        {
            if same_text(self.messages[i].msg_type, msg_type) {
                proof {
                    lemma_message_index(self.messages@, msg_type@, i as int);
                }
                return Some(self.messages[i].name);
            }
            i += 1;
        }
        None
    }
}

/// A protocol version: its name, its fields and its messages.
pub struct Orchestration {
    name: &'static str,
    fields: OrchestrationFieldCollection,
    messages: MessageCollection,
}

impl Orchestration {
    pub closed spec fn spec_name(&self) -> &'static str {
        self.name
    }

    pub closed spec fn spec_fields(&self) -> OrchestrationFieldCollection {
        self.fields
    }

    pub closed spec fn spec_messages(&self) -> MessageCollection {
        self.messages
    }

    pub fn new(name: &'static str, fields: OrchestrationFieldCollection, messages: MessageCollection) -> (r: Self)
        ensures
            r.spec_name() == name,
            r.spec_fields() == fields,
            r.spec_messages() == messages,
    {
        Orchestration { name, fields, messages }
    }

    pub fn name(&self) -> (r: &'static str)
        ensures
            r == self.spec_name(),
    {
        self.name
    }

    pub fn fields(&self) -> (r: &OrchestrationFieldCollection)
        ensures
            *r == self.spec_fields(),
    {
        &self.fields
    }

    pub fn messages(&self) -> (r: &MessageCollection)
        ensures
            *r == self.spec_messages(),
    {
        &self.messages
    }
}

} // verus!
