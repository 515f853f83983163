//! The FIX.5.0SP2 dictionary.
use vstd::prelude::*;
use crate::catalog::{Version, field_collection, message_definitions, message_entries, message_table, version_fields};
use crate::dictionary::{MessageCollection, Orchestration, OrchestrationFieldCollection};

verus! {

/// The FIX.5.0SP2 field definitions, indexed by tag.
pub fn fields() -> (r: OrchestrationFieldCollection)
    ensures
        version_fields(r, Version::Fix50Sp2),
{
    field_collection(Version::Fix50Sp2)
}

/// The FIX.5.0SP2 message definitions, in display order.
pub fn messages() -> (r: MessageCollection)
    ensures
        message_entries(r@) == message_table(),
{
    message_definitions(Version::Fix50Sp2, &fields())
}

/// The FIX.5.0SP2 protocol version: its name, its fields and its messages.
pub fn orchestration() -> (r: Orchestration)
    ensures
        r.spec_name() == "FIX.5.0SP2",
        version_fields(r.spec_fields(), Version::Fix50Sp2),
        message_entries(r.spec_messages()@) == message_table(),
{
    let fields = fields();
    let messages = message_definitions(Version::Fix50Sp2, &fields);
    Orchestration::new("FIX.5.0SP2", fields, messages)
}

} // verus!
