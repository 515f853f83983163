//! The FIX.4.2 dictionary.
use vstd::prelude::*;
use crate::catalog::{Version, field_collection, message_definitions, message_entries, message_table, version_fields};
use crate::dictionary::{MessageCollection, Orchestration, OrchestrationFieldCollection};

verus! {

/// The FIX.4.2 field definitions, indexed by tag.
pub fn fields() -> (r: OrchestrationFieldCollection)
    ensures
        version_fields(r, Version::Fix42),
{
    field_collection(Version::Fix42)
}

/// The FIX.4.2 message definitions, in display order.
pub fn messages() -> (r: MessageCollection)
    ensures
        message_entries(r@) == message_table(),
{
    message_definitions(Version::Fix42, &fields())
}

/// The FIX.4.2 protocol version: its name, its fields and its messages.
pub fn orchestration() -> (r: Orchestration)
    ensures
        r.spec_name() == "FIX.4.2",
        version_fields(r.spec_fields(), Version::Fix42),
        message_entries(r.spec_messages()@) == message_table(),
{
    let fields = fields();
    let messages = message_definitions(Version::Fix42, &fields);
    Orchestration::new("FIX.4.2", fields, messages)
}

} // verus!
