//! The state of one order, rebuilt from the messages that concern it.
use vstd::prelude::*;
use vstd::string::*;
use crate::dictionary::same_text;
use crate::error::Error;
use crate::field::Field;
use crate::field_collection::{FieldCollection, SetOperation, lemma_set_value, set_spec, value_of};
use crate::message::Message;
use crate::tags;

verus! {

/// The fields of a sequence of fields, as a sequence of views.
pub type FieldSeq = Seq<(u32, Seq<char>)>;

/// The part of an order that messages change: committed fields, pending fields, the OrdStatus
/// saved before a cancel or replace request, and the ClOrdID a replace request asked for.
pub type OrderState = (FieldSeq, FieldSeq, Option<(u32, Seq<char>)>, Option<(u32, Seq<char>)>);

pub open spec fn text_g() -> Seq<char> {
    seq!['G']
}

pub open spec fn text_f() -> Seq<char> {
    seq!['F']
}

/// OrdStatus values the engine writes.
pub open spec fn status_new() -> Seq<char> {
    seq!['0']
}

pub open spec fn status_replaced() -> Seq<char> {
    seq!['5']
}

pub open spec fn status_pending_cancel() -> Seq<char> {
    seq!['6']
}

pub open spec fn status_pending_replace() -> Seq<char> {
    seq!['E']
}

/// The tags that identify an order and are never merged from later messages.
pub open spec fn is_identity(tag: u32) -> bool {
    tag == tags::BEGIN_STRING || tag == tags::SENDER_COMP_ID || tag == tags::TARGET_COMP_ID
        || tag == tags::CL_ORD_ID || tag == tags::ORIG_CL_ORD_ID
}

/// `s` with the non-identity fields of `m` set in order, replacing the first field with the
/// same tag or appending.
pub open spec fn merge(s: FieldSeq, m: FieldSeq) -> FieldSeq
    decreases m.len(),
{
    if m.len() == 0 {
        s
    } else {
        let r = merge(s, m.drop_last());
        if is_identity(m.last().0) {
            r
        } else {
            set_spec(r, m.last(), SetOperation::ReplaceFirstOrAppend)
        }
    }
}

/// The order book key `sender-target-clordid`.
pub open spec fn key_of(sender: Seq<char>, target: Seq<char>, cl_ord_id: Seq<char>) -> Seq<char> {
    sender + seq!['-'] + target + seq!['-'] + cl_ord_id
}

/// The key of the order a message belongs to, or the tag it lacks. The OrigClOrdID is
/// preferred to the ClOrdID; `reverse` swaps the comp ids, for messages from the broker.
pub open spec fn message_key(m: FieldSeq, reverse: bool) -> Result<Seq<char>, u32> {
    match value_of(m, tags::SENDER_COMP_ID) {
        None => Err(tags::SENDER_COMP_ID),
        Some(sender) => match value_of(m, tags::TARGET_COMP_ID) {
            None => Err(tags::TARGET_COMP_ID),
            Some(target) => {
                let id = match value_of(m, tags::ORIG_CL_ORD_ID) {
                    Some(v) => Some(v),
                    None => value_of(m, tags::CL_ORD_ID),
                };
                match id {
                    None => Err(tags::CL_ORD_ID),
                    Some(c) => if reverse {
                        Ok(key_of(target, sender, c))
                    } else {
                        Ok(key_of(sender, target, c))
                    },
                }
            },
        },
    }
}

/// The OrdStatus field of `fields`, if any.
pub open spec fn status_field(fields: FieldSeq) -> Option<(u32, Seq<char>)> {
    match value_of(fields, tags::ORD_STATUS) {
        Some(v) => Some((tags::ORD_STATUS, v)),
        None => None,
    }
}

/// The error that applying `m` to an order reports, if any.
pub open spec fn update_failure(m: FieldSeq) -> Option<Error> {
    match value_of(m, tags::MSG_TYPE) {
        None => Some(Error::MessageDoesNotContainMsgType),
        Some(t) => if t == text_g() && value_of(m, tags::CL_ORD_ID) is None {
            Some(Error::MessageDoesNotContainFieldWithTag(tags::CL_ORD_ID))
        } else {
            None
        },
    }
}

/// The state after applying a message that `update_failure` does not refuse.
pub open spec fn updated(st: OrderState, m: FieldSeq) -> OrderState {
    if value_of(m, tags::MSG_TYPE) == Some(text_g()) {
        (
            set_spec(st.0, (tags::ORD_STATUS, status_pending_replace()), SetOperation::ReplaceFirst),
            merge(st.1, m),
            status_field(st.0),
            Some((tags::CL_ORD_ID, value_of(m, tags::CL_ORD_ID)->Some_0)),
        )
    } else if value_of(m, tags::MSG_TYPE) == Some(text_f()) {
        (
            set_spec(st.0, (tags::ORD_STATUS, status_pending_cancel()), SetOperation::ReplaceFirst),
            merge(st.1, m),
            status_field(st.0),
            st.3,
        )
    } else {
        (merge(st.0, m), st.1, st.2, st.3)
    }
}

/// The state after a rollback: pending fields dropped, the saved OrdStatus restored.
pub open spec fn rolled_back(st: OrderState) -> OrderState {
    (
        match st.2 {
            Some(p) => set_spec(st.0, p, SetOperation::ReplaceFirst),
            None => st.0,
        },
        Seq::empty(),
        None,
        st.3,
    )
}

/// The state after a commit: pending fields merged into the committed ones.
pub open spec fn committed(st: OrderState) -> OrderState {
    (merge(st.0, st.1), Seq::empty(), st.2, st.3)
}

pub open spec fn field_view(f: Option<Field>) -> Option<(u32, Seq<char>)> {
    match f {
        Some(x) => Some(x@),
        None => None,
    }
}

/// The error `Order::new` reports for a message, if any.
pub open spec fn new_failure(m: FieldSeq) -> Option<u32> {
    match message_key(m, false) {
        Err(t) => Some(t),
        Ok(_) => if value_of(m, tags::BEGIN_STRING) is None {
            Some(tags::BEGIN_STRING)
        } else if value_of(m, tags::CL_ORD_ID) is None {
            Some(tags::CL_ORD_ID)
        } else {
            None
        },
    }
}

/// The ClOrdID a replacement order takes: the one the replace request asked for, else the
/// execution report's.
pub open spec fn replacement_id(st: OrderState, report: FieldSeq) -> Option<(u32, Seq<char>)> {
    match st.3 {
        Some(n) => Some(n),
        None => match value_of(report, tags::CL_ORD_ID) {
            Some(v) => Some((tags::CL_ORD_ID, v)),
            None => None,
        },
    }
}

/// The replacement's fields: the new ClOrdID, the old one as OrigClOrdID, OrdStatus New.
pub open spec fn replacement_fields(fields: FieldSeq, id: Option<(u32, Seq<char>)>, old_id: Seq<char>) -> FieldSeq {
    let renamed = match id {
        Some(n) => set_spec(
            set_spec(fields, n, SetOperation::ReplaceFirstOrAppend),
            (tags::ORIG_CL_ORD_ID, old_id),
            SetOperation::ReplaceFirstOrAppend,
        ),
        None => fields,
    };
    set_spec(renamed, (tags::ORD_STATUS, status_new()), SetOperation::ReplaceFirstOrAppend)
}

/// The lifecycle of one order, rebuilt from the messages that concern it.
#[derive(Debug)]
pub struct Order {
    /// Every message applied to the order, in order.
    pub messages: Vec<Message>,
    /// The committed state: the merged fields of every message applied.
    pub fields: FieldCollection,
    /// Changes asked for by a cancel or cancel/replace request that is not yet answered.
    pub pending_fields: FieldCollection,
    /// `SenderCompID-TargetCompID-ClOrdID`, as seen on the client side.
    pub key: String,
    pub begin_string: String,
    pub sender_comp_id: String,
    pub target_comp_id: String,
    pub cl_ord_id: Field,
    pub orig_cl_ord_id: Option<Field>,
    /// The OrdStatus saved before a cancel or replace request, restored if it is rejected.
    pub previous_ord_status: Option<Field>,
    /// The ClOrdID of a pending replace, given to the replacement order.
    pub new_cl_ord_id: Option<Field>,
}

impl Order {
    /// The part of the order that messages change.
    pub open spec fn state(&self) -> OrderState {
        (self.fields@, self.pending_fields@, field_view(self.previous_ord_status), field_view(self.new_cl_ord_id))
    }

    /// The fields that identify the order.
    pub open spec fn identity(&self) -> (Seq<char>, Seq<char>, Seq<char>, Seq<char>, (u32, Seq<char>), Option<(u32, Seq<char>)>) {
        (self.key@, self.begin_string@, self.sender_comp_id@, self.target_comp_id@, self.cl_ord_id@, field_view(self.orig_cl_ord_id))
    }

    /// The views of the messages applied so far.
    pub open spec fn history(&self) -> Seq<FieldSeq> {
        self.messages@.map_values(|m: Message| m@)
    }
}

fn copy_field(f: &Option<Field>) -> (r: Option<Field>)
    ensures
        field_view(r) == field_view(*f),
{
    match f {
        Some(x) => Some(x.clone()),
        None => None,
    }
}

fn copy_messages(v: &Vec<Message>) -> (r: Vec<Message>)
    ensures
        r@.map_values(|m: Message| m@) == v@.map_values(|m: Message| m@),
{
    let mut r: Vec<Message> = Vec::new();
    let mut i: usize = 0;
    while i < v.len()
        invariant
            i <= v@.len(),
            r@.len() == i,
            forall|j: int| 0 <= j < i ==> (#[trigger] r@[j])@ == v@[j]@,
        decreases v@.len() - i,
    {
        r.push(v[i].clone());
        i += 1;
    }
    assert(r@.map_values(|m: Message| m@) =~= v@.map_values(|m: Message| m@));
    r
}

impl Clone for Order {
    fn clone(&self) -> (r: Self)
        ensures
            r.state() == self.state(),
            r.identity() == self.identity(),
            r.history() == self.history(),
    {
        Order {
            messages: copy_messages(&self.messages),
            fields: self.fields.clone(),
            pending_fields: self.pending_fields.clone(),
            key: self.key.clone(),
            begin_string: self.begin_string.clone(),
            sender_comp_id: self.sender_comp_id.clone(),
            target_comp_id: self.target_comp_id.clone(),
            cl_ord_id: self.cl_ord_id.clone(),
            orig_cl_ord_id: copy_field(&self.orig_cl_ord_id),
            previous_ord_status: copy_field(&self.previous_ord_status),
            new_cl_ord_id: copy_field(&self.new_cl_ord_id),
        }
    }
}

/// Sets the non-identity fields of `source` into `target`, in order.
fn merge_into(target: &mut FieldCollection, source: &FieldCollection)
    ensures
        final(target)@ == merge(old(target)@, source@),
{
    let mut i: usize = 0;
    while i < source.len()
        invariant
            i <= source@.len(),
            target@ == merge(old(target)@, source@.subrange(0, i as int)),
        decreases source@.len() - i,
    {
        let f = source.field_at(i);
        proof {
            assert(source@.subrange(0, i + 1).drop_last() =~= source@.subrange(0, i as int));
        }
        if !Order::is_identity_field(f.tag) {
            target.set(f, SetOperation::ReplaceFirstOrAppend);
        }
        i += 1;
    }
    assert(source@.subrange(0, source@.len() as int) =~= source@);
}

/// The value of the first field with `tag`, or the error naming the tag.
fn value_or_missing(fields: &FieldCollection, tag: u32) -> (r: Result<&String, Error>)
    ensures
        match value_of(fields@, tag) {
            Some(v) => r matches Ok(s) && s@ == v,
            None => r == Err::<&String, Error>(Error::MessageDoesNotContainFieldWithTag(tag)),
        },
{
    match fields.get(tag) {
        Ok(f) => Ok(&f.value),
        Err(e) => Err(e),
    }
}

impl Order {
    /// The key `sender-target-clordid`.
    pub fn create_key(sender_comp_id: &str, target_comp_id: &str, cl_ord_id: &str) -> (r: String)
        ensures
            r@ == key_of(sender_comp_id@, target_comp_id@, cl_ord_id@),
    {
        let mut key = sender_comp_id.to_owned();
        key.append("-");
        key.append(target_comp_id);
        key.append("-");
        key.append(cl_ord_id);
        proof {
            reveal_strlit("-");
            assert(key@ =~= key_of(sender_comp_id@, target_comp_id@, cl_ord_id@));
        }
        key
    }

    /// The key of the order a message belongs to. The OrigClOrdID is preferred to the
    /// ClOrdID; `reverse_comp_ids` swaps sender and target, for messages from the broker.
    pub fn key_for_message(message: &Message, reverse_comp_ids: bool) -> (r: Result<String, Error>)
        ensures
            match message_key(message@, reverse_comp_ids) {
                Ok(k) => r matches Ok(s) && s@ == k,
                Err(t) => r == Err::<String, Error>(Error::MessageDoesNotContainFieldWithTag(t)),
            },
    {
        let sender = match value_or_missing(message.fields(), tags::SENDER_COMP_ID) {
            Ok(v) => v,
            Err(e) => {
                return Err(e);
            },
        };
        let target = match value_or_missing(message.fields(), tags::TARGET_COMP_ID) {
            Ok(v) => v,
            Err(e) => {
                return Err(e);
            },
        };
        let id = match message.fields().try_get(tags::ORIG_CL_ORD_ID) {
            Some(f) => &f.value,
            None => match value_or_missing(message.fields(), tags::CL_ORD_ID) {
                Ok(v) => v,
                Err(e) => {
                    return Err(e);
                },
            },
        };
        if reverse_comp_ids {
            Ok(Order::create_key(target.as_str(), sender.as_str(), id.as_str()))
        } else {
            Ok(Order::create_key(sender.as_str(), target.as_str(), id.as_str()))
        }
    }

    /// Whether `tag` is one of the fields that identify an order.
    pub fn is_identity_field(tag: u32) -> (r: bool)
        ensures
            r == is_identity(tag),
    {
        tag == tags::BEGIN_STRING || tag == tags::SENDER_COMP_ID || tag == tags::TARGET_COMP_ID
            || tag == tags::CL_ORD_ID || tag == tags::ORIG_CL_ORD_ID
    }
}

fn message_type_is(message: &Message, text: &str) -> (r: bool)
    ensures
        r == (value_of(message@, tags::MSG_TYPE) == Some(text@)),
{
    match message.msg_type() {
        Some(t) => same_text(t.as_str(), text),
        None => false,
    }
}

impl Order {
    /// An order from the message that opens it. The message must carry BeginString,
    /// SenderCompID, TargetCompID and ClOrdID; its fields become the committed state.
    pub fn new(message: &Message) -> (r: Result<Order, Error>)
        ensures
            match new_failure(message@) {
                Some(t) => r == Err::<Order, Error>(Error::MessageDoesNotContainFieldWithTag(t)),
                None => r matches Ok(o) && {
                    &&& o.state() == (message@, Seq::<(u32, Seq<char>)>::empty(), None::<(u32, Seq<char>)>, None::<(u32, Seq<char>)>)
                    &&& message_key(message@, false) == Ok::<Seq<char>, u32>(o.key@)
                    &&& Some(o.begin_string@) == value_of(message@, tags::BEGIN_STRING)
                    &&& Some(o.sender_comp_id@) == value_of(message@, tags::SENDER_COMP_ID)
                    &&& Some(o.target_comp_id@) == value_of(message@, tags::TARGET_COMP_ID)
                    &&& Some(o.cl_ord_id@.1) == value_of(message@, tags::CL_ORD_ID) && o.cl_ord_id.tag == tags::CL_ORD_ID
                    &&& field_view(o.orig_cl_ord_id) == match value_of(message@, tags::ORIG_CL_ORD_ID) {
                        Some(v) => Some((tags::ORIG_CL_ORD_ID, v)),
                        None => None,
                    }
                    &&& o.history() == seq![message@]
                },
            },
    {
        let key = match Order::key_for_message(message, false) {
            Ok(k) => k,
            Err(e) => {
                return Err(e);
            },
        };
        let fields = message.fields();
        let begin_string = match value_or_missing(fields, tags::BEGIN_STRING) {
            Ok(v) => v.clone(),
            Err(e) => {
                return Err(e);
            },
        };
        let sender_comp_id = match value_or_missing(fields, tags::SENDER_COMP_ID) {
            Ok(v) => v.clone(),
            Err(e) => {
                return Err(e);
            },
        };
        let target_comp_id = match value_or_missing(fields, tags::TARGET_COMP_ID) {
            Ok(v) => v.clone(),
            Err(e) => {
                return Err(e);
            },
        };
        let cl_ord_id = match fields.get(tags::CL_ORD_ID) {
            Ok(f) => f.clone(),
            Err(e) => {
                return Err(e);
            },
        };
        proof {
            crate::field_collection::lemma_index_of(message@, tags::CL_ORD_ID);
            crate::field_collection::lemma_index_of(message@, tags::ORIG_CL_ORD_ID);
        }
        let orig_cl_ord_id = match fields.try_get(tags::ORIG_CL_ORD_ID) {
            Some(f) => Some(f.clone()),
            None => None,
        };
        let mut messages: Vec<Message> = Vec::new();
        messages.push(message.clone());
        let order = Order {
            messages,
            fields: fields.clone(),
            pending_fields: FieldCollection::default(),
            key,
            begin_string,
            sender_comp_id,
            target_comp_id,
            cl_ord_id,
            orig_cl_ord_id,
            previous_ord_status: None,
            new_cl_ord_id: None,
        };
        assert(order.history() =~= seq![message@]);
        Ok(order)
    }

    /// Applies a message: it joins the audit log, then a cancel/replace request saves the
    /// OrdStatus, records the new ClOrdID, puts its fields in the pending set and sets OrdStatus
    /// to PendingReplace; a cancel request does the same with PendingCancel; any other message
    /// is merged into the committed fields.
    /// A request only replaces an OrdStatus the order already has: an order with none yet
    /// keeps none, since a rollback could not restore an absent status.
    pub fn update(&mut self, message: &Message) -> (r: Result<(), Error>)
        ensures
            final(self).history() == old(self).history().push(message@),
            final(self).identity() == old(self).identity(),
            match update_failure(message@) {
                Some(e) => r == Err::<(), Error>(e) && final(self).state() == old(self).state(),
                None => r is Ok && final(self).state() == updated(old(self).state(), message@),
            },
    {
        self.messages.push(message.clone());
        proof {
            assert(self.history() =~= old(self).history().push(message@));
            reveal_strlit("G");
            reveal_strlit("F");
            assert("G"@ =~= text_g());
            assert("F"@ =~= text_f());
            reveal_strlit("E");
            reveal_strlit("6");
            crate::field_collection::lemma_index_of(self.fields@, tags::ORD_STATUS);
        }
        if message.msg_type().is_none() {
            return Err(Error::MessageDoesNotContainMsgType);
        }
        if message_type_is(message, "G") {
            let new_id = match message.fields().get(tags::CL_ORD_ID) {
                Ok(f) => f.clone(),
                Err(e) => {
                    return Err(e);
                },
            };
            proof {
                crate::field_collection::lemma_index_of(message@, tags::CL_ORD_ID);
            }
            self.previous_ord_status = match self.fields.try_get(tags::ORD_STATUS) {
                Some(f) => Some(f.clone()),
                None => None,
            };
            self.new_cl_ord_id = Some(new_id);
            merge_into(&mut self.pending_fields, message.fields());
            let status = Field::from_str(tags::ORD_STATUS, "E");
            proof {
                assert(status@ =~= (tags::ORD_STATUS, status_pending_replace()));
            }
            self.fields.set(&status, SetOperation::ReplaceFirst);
            return Ok(());
        }
        if message_type_is(message, "F") {
            self.previous_ord_status = match self.fields.try_get(tags::ORD_STATUS) {
                Some(f) => Some(f.clone()),
                None => None,
            };
            merge_into(&mut self.pending_fields, message.fields());
            let status = Field::from_str(tags::ORD_STATUS, "6");
            proof {
                assert(status@ =~= (tags::ORD_STATUS, status_pending_cancel()));
            }
            self.fields.set(&status, SetOperation::ReplaceFirst);
            return Ok(());
        }
        merge_into(&mut self.fields, message.fields());
        Ok(())
    }

    /// Drops the pending fields and restores the OrdStatus saved by a request, if any.
    pub fn rollback(&mut self)
        ensures
            final(self).state() == rolled_back(old(self).state()),
            final(self).identity() == old(self).identity(),
            final(self).history() == old(self).history(),
    {
        self.pending_fields.clear();
        match &self.previous_ord_status {
            Some(previous) => {
                self.fields.set(previous, SetOperation::ReplaceFirst);
            },
            None => {},
        }
        self.previous_ord_status = None;
    }

    /// Merges the pending fields into the committed ones and clears them.
    pub fn commit(&mut self)
        ensures
            final(self).state() == committed(old(self).state()),
            final(self).identity() == old(self).identity(),
            final(self).history() == old(self).history(),
    {
        let pending = self.pending_fields.clone();
        merge_into(&mut self.fields, &pending);
        self.pending_fields.clear();
    }
}

impl Order {
    /// Forks the order on an execution report that says it was replaced. The replacement is a
    /// copy that takes the report and commits its pending fields, and is renamed: its ClOrdID
    /// becomes the one the replace request asked for (else the report's), its OrigClOrdID the
    /// replaced order's ClOrdID, and its OrdStatus New. The replaced order rolls back its pending state,
    /// becomes Replaced and keeps the report in its audit log.
    pub fn replace(&mut self, execution_report: &Message) -> (r: Result<Order, Error>)
        ensures
            match update_failure(execution_report@) {
                Some(e) => {
                    &&& r == Err::<Order, Error>(e)
                    &&& final(self).state() == old(self).state()
                    &&& final(self).identity() == old(self).identity()
                    &&& final(self).history() == old(self).history()
                },
                None => r matches Ok(rep) && {
                    let st = committed(updated(old(self).state(), execution_report@));
                    let id = replacement_id(old(self).state(), execution_report@);
                    let rb = rolled_back(old(self).state());
                    &&& rep.fields@ == replacement_fields(st.0, id, old(self).cl_ord_id@.1)
                    &&& rep.pending_fields@ == st.1
                    &&& field_view(rep.previous_ord_status) == st.2
                    &&& field_view(rep.new_cl_ord_id) == st.3
                    &&& rep.cl_ord_id@ == (match id {
                        Some(n) => n,
                        None => old(self).cl_ord_id@,
                    })
                    &&& field_view(rep.orig_cl_ord_id) == (match id {
                        Some(_) => Some(old(self).cl_ord_id@),
                        None => field_view(old(self).orig_cl_ord_id),
                    })
                    &&& rep.key@ == key_of(old(self).sender_comp_id@, old(self).target_comp_id@, rep.cl_ord_id@.1)
                    &&& rep.begin_string@ == old(self).begin_string@
                    &&& rep.sender_comp_id@ == old(self).sender_comp_id@
                    &&& rep.target_comp_id@ == old(self).target_comp_id@
                    &&& rep.history() == old(self).history().push(execution_report@)
                    &&& final(self).state() == (
                        set_spec(rb.0, (tags::ORD_STATUS, status_replaced()), SetOperation::ReplaceFirstOrAppend),
                        rb.1,
                        rb.2,
                        rb.3,
                    )
                    &&& final(self).identity() == old(self).identity()
                    &&& final(self).history() == old(self).history().push(execution_report@)
                },
            },
    {
        let mut replacement = self.clone();
        match replacement.update(execution_report) {
            Ok(()) => {},
            Err(e) => {
                return Err(e);
            },
        }
        replacement.commit();
        self.rollback();
        proof {
            crate::field_collection::lemma_index_of(execution_report@, tags::CL_ORD_ID);
        }
        let id: Option<Field> = match &self.new_cl_ord_id {
            Some(n) => Some(n.clone()),
            None => match execution_report.fields().try_get(tags::CL_ORD_ID) {
                Some(c) => Some(c.clone()),
                None => None,
            },
        };
        match id {
            Some(n) => {
                replacement.fields.set(&n, SetOperation::ReplaceFirstOrAppend);
                let orig = Field { tag: tags::ORIG_CL_ORD_ID, value: replacement.cl_ord_id.value.clone() };
                replacement.fields.set(&orig, SetOperation::ReplaceFirstOrAppend);
                replacement.orig_cl_ord_id = Some(replacement.cl_ord_id.clone());
                replacement.cl_ord_id = n;
            },
            None => {},
        }
        replacement.key = Order::create_key(
            replacement.sender_comp_id.as_str(),
            replacement.target_comp_id.as_str(),
            replacement.cl_ord_id.value.as_str(),
        );
        let new_status = Field::from_str(tags::ORD_STATUS, "0");
        let replaced_status = Field::from_str(tags::ORD_STATUS, "5");
        proof {
            reveal_strlit("0");
            reveal_strlit("5");
            assert(new_status@ =~= (tags::ORD_STATUS, status_new()));
            assert(replaced_status@ =~= (tags::ORD_STATUS, status_replaced()));
        }
        replacement.fields.set(&new_status, SetOperation::ReplaceFirstOrAppend);
        self.fields.set(&replaced_status, SetOperation::ReplaceFirstOrAppend);
        self.messages.push(execution_report.clone());
        proof {
            assert(self.history() =~= old(self).history().push(execution_report@));
        }
        Ok(replacement)
    }
}

/// The value of the last field with tag `t` in `m`.
pub open spec fn last_value_of(m: FieldSeq, t: u32) -> Option<Seq<char>>
    decreases m.len(),
{
    if m.len() == 0 {
        None
    } else if m.last().0 == t {
        Some(m.last().1)
    } else {
        last_value_of(m.drop_last(), t)
    }
}

/// Merging a message gives each non-identity tag it carries the last value it carries, and
/// leaves the other tags as they were.
pub proof fn lemma_merge_value(s: FieldSeq, m: FieldSeq, t: u32)
    requires
        !is_identity(t),
    ensures
        value_of(merge(s, m), t) == match last_value_of(m, t) {
            Some(v) => Some(v),
            None => value_of(s, t),
        },
    decreases m.len(),
{
    if m.len() > 0 {
        lemma_merge_value(s, m.drop_last(), t);
        if !is_identity(m.last().0) {
            lemma_set_value(merge(s, m.drop_last()), m.last(), SetOperation::ReplaceFirstOrAppend, t);
        }
    }
}

/// A message that is neither a cancel nor a cancel/replace request, such as an execution
/// report, leaves in the committed fields the values it carries: after a report with
/// OrdStatus New the order is New, after a partial fill its OrdStatus and CumQty are the
/// report's.
pub proof fn lemma_report_sets_fields(st: OrderState, m: FieldSeq, t: u32)
    requires
        update_failure(m) is None,
        value_of(m, tags::MSG_TYPE) != Some(text_g()),
        value_of(m, tags::MSG_TYPE) != Some(text_f()),
        !is_identity(t),
        last_value_of(m, t) is Some,
    ensures
        value_of(updated(st, m).0, t) == last_value_of(m, t),
{
    lemma_merge_value(st.0, m, t);
}

/// A cancel request sets the OrdStatus to PendingCancel and keeps the other committed fields;
/// a cancel reject then restores the OrdStatus the order had, and a Canceled report sets it.
pub proof fn lemma_cancel_request(st: OrderState, m: FieldSeq, previous: Seq<char>, report: FieldSeq)
    requires
        value_of(m, tags::MSG_TYPE) == Some(text_f()),
        value_of(st.0, tags::ORD_STATUS) == Some(previous),
        update_failure(report) is None,
        value_of(report, tags::MSG_TYPE) == Some(seq!['8']),
        last_value_of(report, tags::ORD_STATUS) == Some(seq!['4']),
    ensures
        value_of(updated(st, m).0, tags::ORD_STATUS) == Some(status_pending_cancel()),
        forall|t: u32| t != tags::ORD_STATUS ==> value_of(#[trigger] updated(st, m).0, t) == value_of(st.0, t),
        value_of(rolled_back(updated(st, m)).0, tags::ORD_STATUS) == Some(previous),
        value_of(updated(updated(st, m), report).0, tags::ORD_STATUS) == Some(seq!['4']),
{
    let pending = (tags::ORD_STATUS, status_pending_cancel());
    assert(seq!['8'] != text_g() && seq!['8'] != text_f()) by {
        assert(seq!['8'][0] != text_g()[0]);
        assert(seq!['8'][0] != text_f()[0]);
    }
    assert(value_of(m, tags::MSG_TYPE) != Some(text_g())) by {
        assert(text_f()[0] != text_g()[0]);
    }
    crate::field_collection::lemma_index_of(st.0, tags::ORD_STATUS);
    lemma_set_value(st.0, pending, SetOperation::ReplaceFirst, tags::ORD_STATUS);
    assert forall|t: u32| t != tags::ORD_STATUS implies value_of(#[trigger] updated(st, m).0, t) == value_of(st.0, t) by {
        lemma_set_value(st.0, pending, SetOperation::ReplaceFirst, t);
    }
    let u = updated(st, m);
    crate::field_collection::lemma_index_of(u.0, tags::ORD_STATUS);
    lemma_set_value(u.0, (tags::ORD_STATUS, previous), SetOperation::ReplaceFirst, tags::ORD_STATUS);
    lemma_merge_value(u.0, report, tags::ORD_STATUS);
}

/// A cancel/replace request sets the OrdStatus to PendingReplace, keeps the other committed
/// fields, puts the values it asks for in the pending fields and records its ClOrdID.
pub proof fn lemma_cancel_replace_request(st: OrderState, m: FieldSeq, t: u32)
    requires
        value_of(m, tags::MSG_TYPE) == Some(text_g()),
        update_failure(m) is None,
        value_of(st.0, tags::ORD_STATUS) is Some,
        !is_identity(t),
        t != tags::ORD_STATUS,
    ensures
        value_of(updated(st, m).0, tags::ORD_STATUS) == Some(status_pending_replace()),
        value_of(updated(st, m).0, t) == value_of(st.0, t),
        value_of(updated(st, m).1, t) == match last_value_of(m, t) {
            Some(v) => Some(v),
            None => value_of(st.1, t),
        },
        updated(st, m).3 == Some((tags::CL_ORD_ID, value_of(m, tags::CL_ORD_ID)->Some_0)),
{
    let pending = (tags::ORD_STATUS, status_pending_replace());
    crate::field_collection::lemma_index_of(st.0, tags::ORD_STATUS);
    lemma_set_value(st.0, pending, SetOperation::ReplaceFirst, tags::ORD_STATUS);
    lemma_set_value(st.0, pending, SetOperation::ReplaceFirst, t);
    lemma_merge_value(st.1, m, t);
}

} // verus!
