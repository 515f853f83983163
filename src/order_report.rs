//! The text of an order report's cells.
use vstd::prelude::*;
use vstd::string::*;
use crate::dictionary::{OrchestrationFieldCollection, value_name};
use crate::message::{bounded_decimal, parse_decimal};
use crate::field_collection::value_of;
use crate::order::{Order, is_identity};
use crate::tags;

verus! {

/// How a value of `tag` is shown: the name of the enumerated value, else the value itself.
pub open spec fn label(dictionary: OrchestrationFieldCollection, tag: u32, value: Seq<char>) -> Seq<char> {
    match dictionary.definition(tag as int) {
        Some(f) => match value_name(f.values@, value) {
            Some(name) => name@,
            None => value,
        },
        None => value,
    }
}

/// The text of an order's cell for `tag`: the label of the committed value, followed by the
/// label of a differing pending value in parentheses; nothing when the order lacks the field.
/// Identity fields never show a pending value.
pub open spec fn cell(order: Order, tag: u32, dictionary: OrchestrationFieldCollection) -> Option<Seq<char>> {
    match value_of(order.fields@, tag) {
        None => None,
        Some(v) => {
            let shown = label(dictionary, tag, v);
            match value_of(order.pending_fields@, tag) {
                Some(p) => if !is_identity(tag) && p != v {
                    Some(shown + seq![' ', '('] + label(dictionary, tag, p) + seq![')'])
                } else {
                    Some(shown)
                },
                None => Some(shown),
            }
        },
    }
}

/// The columns of an order report.
#[derive(Debug, Default)]
pub struct OrderReport {
    fields: Vec<u32>,
}

fn label_of(dictionary: &OrchestrationFieldCollection, tag: u32, value: &String) -> (r: String)
    ensures
        r@ == label(*dictionary, tag, value@),
{
    match dictionary.name_of_value(tag as usize, value.as_str()) {
        Some(name) => name.to_owned(),
        None => value.clone(),
    }
}

impl OrderReport {
    pub fn with_fields(fields: Vec<u32>) -> (r: Self)
        ensures
            r.columns() == fields@,
    {
        OrderReport { fields }
    }

    pub closed spec fn columns(&self) -> Seq<u32> {
        self.fields@
    }

    /// The columns shown when none are chosen.
    pub fn default_fields() -> (r: Vec<u32>)
        ensures
            r@ == seq![
                tags::SENDER_COMP_ID, tags::TARGET_COMP_ID, tags::CL_ORD_ID, tags::ORIG_CL_ORD_ID,
                tags::SYMBOL, tags::ORD_STATUS, tags::ORD_TYPE, tags::TIME_IN_FORCE, tags::SIDE,
                tags::ORDER_QTY, tags::PRICE, tags::CUM_QTY, tags::AVG_PX,
            ],
    {
        let r = vec![
            tags::SENDER_COMP_ID,
            tags::TARGET_COMP_ID,
            tags::CL_ORD_ID,
            tags::ORIG_CL_ORD_ID,
            tags::SYMBOL,
            tags::ORD_STATUS,
            tags::ORD_TYPE,
            tags::TIME_IN_FORCE,
            tags::SIDE,
            tags::ORDER_QTY,
            tags::PRICE,
            tags::CUM_QTY,
            tags::AVG_PX,
        ];
        assert(r@ =~= seq![
            tags::SENDER_COMP_ID, tags::TARGET_COMP_ID, tags::CL_ORD_ID, tags::ORIG_CL_ORD_ID,
            tags::SYMBOL, tags::ORD_STATUS, tags::ORD_TYPE, tags::TIME_IN_FORCE, tags::SIDE,
            tags::ORDER_QTY, tags::PRICE, tags::CUM_QTY, tags::AVG_PX,
        ]);
        r
    }

    /// The columns, as tags.
    pub fn fields(&self) -> (r: &Vec<u32>)
        ensures
            r@ == self.columns(),
    {
        &self.fields
    }

    /// The text of an order's cell for `tag`.
    pub fn cell_text(order: &Order, tag: u32, dictionary: &OrchestrationFieldCollection) -> (r: Option<String>)
        ensures
            match cell(*order, tag, *dictionary) {
                Some(c) => r matches Some(s) && s@ == c,
                None => r is None,
            },
    {
        let field = match order.fields.try_get(tag) {
            Some(f) => f,
            None => {
                return None;
            },
        };
        proof {
            crate::field_collection::lemma_index_of(order.fields@, tag);
        }
        let mut text = label_of(dictionary, tag, &field.value);
        if !Order::is_identity_field(tag) {
            match order.pending_fields.try_get(tag) {
                Some(pending) => {
                    if pending.value != field.value {
                        let shown = label_of(dictionary, tag, &pending.value);
                        text.append(" (");
                        text.append(shown.as_str());
                        text.append(")");
                        proof {
                            reveal_strlit(" (");
                            reveal_strlit(")");
                            assert(text@ =~= cell(*order, tag, *dictionary)->Some_0);
                        }
                    }
                },
                None => {},
            }
        }
        Some(text)
    }
}

/// The tag a report column names: a decimal tag that the dictionary knows, or the name of a
/// known field.
pub fn validate_field(dictionary: &OrchestrationFieldCollection, tag_or_name: &str) -> (r: Option<u32>)
    ensures
        match bounded_decimal(tag_or_name@, u32::MAX as nat) {
            Some(t) => r == (if dictionary.known(t as int) is Some {
                Some(t as u32)
            } else {
                None::<u32>
            }),
            None => match r {
                Some(t) => exists|i: int|
                    0 <= i < dictionary@.1.len() && (#[trigger] dictionary@.1[i]).tag == t
                        && dictionary@.1[i].tag != 0 && dictionary@.1[i].name@ == tag_or_name@,
                None => forall|i: int|
                    0 <= i < dictionary@.1.len() && (#[trigger] dictionary@.1[i]).tag != 0
                        ==> dictionary@.1[i].name@ != tag_or_name@,
            },
        },
{
    match parse_decimal(tag_or_name, u32::MAX as u64) {
        Some(t) => {
            if dictionary.is_tag_valid(t as usize) {
                Some(t as u32)
            } else {
                None
            }
        },
        None => match dictionary.field_with_name(tag_or_name) {
            Some(f) => Some(f.tag),
            None => None,
        },
    }
}

} // verus!
