//! The FIX.4.4 dictionary.
use vstd::prelude::*;
use crate::catalog::{Version, field_collection, message_definitions, message_entries, message_table, version_fields};
use crate::dictionary::{MessageCollection, Orchestration, OrchestrationFieldCollection};

verus! {

/// The FIX.4.4 field definitions, indexed by tag.
pub fn fields() -> (r: OrchestrationFieldCollection)
    ensures
        version_fields(r, Version::Fix44),
{
    field_collection(Version::Fix44)
}

/// The FIX.4.4 message definitions, in display order.
pub fn messages() -> (r: MessageCollection)
    ensures
        message_entries(r@) == message_table(),
{
    message_definitions(Version::Fix44, &fields())
}

/// The FIX.4.4 protocol version: its name, its fields and its messages.
pub fn orchestration() -> (r: Orchestration)
    ensures
        r.spec_name() == "FIX.4.4",
        version_fields(r.spec_fields(), Version::Fix44),
        message_entries(r.spec_messages()@) == message_table(),
{
    let fields = fields();
    let messages = message_definitions(Version::Fix44, &fields);
    Orchestration::new("FIX.4.4", fields, messages)
}

} // verus!
