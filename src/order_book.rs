//! The orders seen in a stream of messages, keyed by sender, target and ClOrdID.
use vstd::prelude::*;
use indexmap::IndexSet;
use crate::dictionary::same_text;
use crate::error::Error;
use crate::field_collection::{SetOperation, lemma_set_value, set_spec, value_of};
use crate::message::Message;
use crate::order::{
    FieldSeq, Order, committed, field_view, key_of, message_key, new_failure, replacement_fields,
    replacement_id, rolled_back, status_replaced, update_failure, updated,
};
use crate::tags;

verus! {

/// The insertion-ordered set of the `indexmap` crate.
#[verifier::external_type_specification]
#[verifier::external_body]
#[verifier::reject_recursive_types(T)]
#[verifier::reject_recursive_types(S)]
pub struct ExIndexSet<T, S>(IndexSet<T, S>);

/// The keys an index set holds, in insertion order.
pub uninterp spec fn key_sequence(s: IndexSet<String>) -> Seq<Seq<char>>;

/// Relies on IndexSet::new: a new set is empty.
#[verifier::external_body]
fn new_key_set() -> (r: IndexSet<String>)
    ensures
        key_sequence(r) == Seq::<Seq<char>>::empty(),
{
    IndexSet::new()
}

/// Relies on IndexSet::insert: a key that is not present is added last and `true` returned;
/// a key that is present leaves the set as it was and `false` is returned.
#[verifier::external_body]
fn insert_key(s: &mut IndexSet<String>, key: String) -> (r: bool)
    ensures
        r == !key_sequence(*old(s)).contains(key@),
        r ==> key_sequence(*final(s)) == key_sequence(*old(s)).push(key@),
        !r ==> key_sequence(*final(s)) == key_sequence(*old(s)),
{
    s.insert(key)
}

/// Relies on IndexSet::get_index_of: the position of the key, or `None` if it is absent.
#[verifier::external_body]
fn key_position(s: &IndexSet<String>, key: &String) -> (r: Option<usize>)
    ensures
        match r {
            Some(i) => i < key_sequence(*s).len() && key_sequence(*s)[i as int] == key@,
            None => !key_sequence(*s).contains(key@),
        },
{
    s.get_index_of(key)
}

/// Relies on IndexSet::clear: the set becomes empty.
#[verifier::external_body]
fn clear_keys(s: &mut IndexSet<String>)
    ensures
        key_sequence(*final(s)) == Seq::<Seq<char>>::empty(),
{
    s.clear()
}

/// The keys of the orders, in order.
pub open spec fn keys(orders: Seq<Order>) -> Seq<Seq<char>> {
    orders.map_values(|o: Order| o.key@)
}

/// Where the order with key `k` stands.
pub open spec fn find_key(orders: Seq<Order>, k: Seq<char>) -> Option<int> {
    if exists|i: int| 0 <= i < orders.len() && (#[trigger] orders[i]).key@ == k {
        Some(choose|i: int| 0 <= i < orders.len() && (#[trigger] orders[i]).key@ == k)
    } else {
        None
    }
}

/// Whether no two orders share a key.
pub open spec fn unique_keys(orders: Seq<Order>) -> bool {
    forall|i: int, j: int|
        0 <= i < orders.len() && 0 <= j < orders.len() && i != j ==> (#[trigger] orders[i]).key@ != (#[trigger] orders[j]).key@
}

/// Whether `after` is `before` with the message `m` applied, as [`Order::update`] does.
pub open spec fn applied(before: Order, after: Order, m: FieldSeq) -> bool {
    &&& after.history() == before.history().push(m)
    &&& after.identity() == before.identity()
    &&& match update_failure(m) {
        Some(_) => after.state() == before.state(),
        None => after.state() == updated(before.state(), m),
    }
}

/// What [`Order::update`] returns for `m`.
pub open spec fn update_result(m: FieldSeq, r: Result<(), Error>) -> bool {
    match update_failure(m) {
        Some(e) => r == Err::<(), Error>(e),
        None => r is Ok,
    }
}

/// Whether `after` is `before` rolled back.
pub open spec fn rolled(before: Order, after: Order) -> bool {
    &&& after.state() == rolled_back(before.state())
    &&& after.identity() == before.identity()
    &&& after.history() == before.history()
}

/// The key the replacement of `o` takes on the replace report `m`.
pub open spec fn replacement_key(o: Order, m: FieldSeq) -> Seq<char> {
    key_of(
        o.sender_comp_id@,
        o.target_comp_id@,
        match replacement_id(o.state(), m) {
            Some(n) => n.1,
            None => o.cl_ord_id@.1,
        },
    )
}

/// Whether `after` and `rep` are the replaced order and the replacement that
/// [`Order::replace`] makes of `before` on the report `m`.
pub open spec fn forked(before: Order, after: Order, rep: Order, m: FieldSeq) -> bool {
    let st = committed(updated(before.state(), m));
    let id = replacement_id(before.state(), m);
    let rb = rolled_back(before.state());
    &&& rep.fields@ == replacement_fields(st.0, id, before.cl_ord_id@.1)
    &&& rep.pending_fields@ == st.1
    &&& field_view(rep.previous_ord_status) == st.2
    &&& field_view(rep.new_cl_ord_id) == st.3
    &&& rep.cl_ord_id@ == (match id {
        Some(n) => n,
        None => before.cl_ord_id@,
    })
    &&& field_view(rep.orig_cl_ord_id) == (match id {
        Some(_) => Some(before.cl_ord_id@),
        None => field_view(before.orig_cl_ord_id),
    })
    &&& rep.key@ == replacement_key(before, m)
    &&& rep.begin_string@ == before.begin_string@
    &&& rep.sender_comp_id@ == before.sender_comp_id@
    &&& rep.target_comp_id@ == before.target_comp_id@
    &&& rep.history() == before.history().push(m)
    &&& after.state() == (
        set_spec(rb.0, (tags::ORD_STATUS, status_replaced()), SetOperation::ReplaceFirstOrAppend),
        rb.1,
        rb.2,
        rb.3,
    )
    &&& after.identity() == before.identity()
    &&& after.history() == before.history().push(m)
}

/// Whether `after` is `before` with only position `i` changed.
pub open spec fn changed_at(before: Seq<Order>, after: Seq<Order>, i: int) -> bool {
    &&& after.len() == before.len()
    &&& forall|j: int| 0 <= j < before.len() && j != i ==> after[j] == before[j]
}

/// Whether `e` reports that no order has key `k`.
pub open spec fn missing_order(e: Result<(), Error>, k: Seq<char>) -> bool {
    e matches Err(Error::OrderBookDoesNotContainOrderWithKey(s)) && s@ == k
}

/// Whether `e` reports that an order with key `k` is already in the book.
pub open spec fn duplicate_order(e: Result<(), Error>, k: Seq<char>) -> bool {
    e matches Err(Error::OrderBookAlreadyContainsOrderWithKey(s)) && s@ == k
}

/// What processing a NewOrderSingle does.
pub open spec fn new_order_effect(before: Seq<Order>, after: Seq<Order>, m: FieldSeq, r: Result<(), Error>) -> bool {
    match new_failure(m) {
        Some(t) => r == Err::<(), Error>(Error::MessageDoesNotContainFieldWithTag(t)) && after == before,
        None => {
            let k = message_key(m, false)->Ok_0;
            if keys(before).contains(k) {
                duplicate_order(r, k) && after == before
            } else {
                &&& r is Ok
                &&& after.len() == before.len() + 1
                &&& after.subrange(0, before.len() as int) == before
                &&& after.last().key@ == k
                &&& after.last().state() == (m, Seq::<(u32, Seq<char>)>::empty(), None::<(u32, Seq<char>)>, None::<(u32, Seq<char>)>)
                &&& after.last().history() == seq![m]
            }
        },
    }
}

/// What processing a message for an existing order does, once the key is found: `request`
/// applies it, otherwise it is a cancel reject that rolls back.
pub open spec fn existing_order_effect(
    before: Seq<Order>,
    after: Seq<Order>,
    m: FieldSeq,
    r: Result<(), Error>,
    reverse: bool,
    request: bool,
) -> bool {
    match message_key(m, reverse) {
        Err(t) => r == Err::<(), Error>(Error::MessageDoesNotContainFieldWithTag(t)) && after == before,
        Ok(k) => match find_key(before, k) {
            None => missing_order(r, k) && after == before,
            Some(i) => changed_at(before, after, i) && if request {
                applied(before[i], after[i], m) && update_result(m, r)
            } else {
                rolled(before[i], after[i]) && r is Ok
            },
        },
    }
}

/// What processing an ExecutionReport does.
pub open spec fn execution_report_effect(before: Seq<Order>, after: Seq<Order>, m: FieldSeq, r: Result<(), Error>) -> bool {
    if value_of(m, tags::EXEC_TYPE) == Some(seq!['5']) {
        match message_key(m, true) {
            Err(t) => r == Err::<(), Error>(Error::MessageDoesNotContainFieldWithTag(t)) && after == before,
            Ok(k) => match find_key(before, k) {
                None => missing_order(r, k) && after == before,
                Some(i) => match update_failure(m) {
                    Some(e) => r == Err::<(), Error>(e) && after == before,
                    None => {
                        let rk = replacement_key(before[i], m);
                        if keys(before).contains(rk) {
                            &&& duplicate_order(r, rk)
                            &&& changed_at(before, after, i)
                            &&& exists|rep: Order| forked(before[i], after[i], rep, m)
                        } else {
                            &&& r is Ok
                            &&& after.len() == before.len() + 1
                            &&& changed_at(before, after.subrange(0, before.len() as int), i)
                            &&& forked(before[i], after[i], after.last(), m)
                        }
                    },
                },
            },
        }
    } else {
        existing_order_effect(before, after, m, r, true, true)
    }
}

/// The orders seen in a stream of messages, in the order they were first seen, by key.
pub struct OrderBook {
    orders: Vec<Order>,
    index: IndexSet<String>,
}

impl OrderBook {
    /// The key index lists the orders' keys in order, and no two orders share a key.
    pub closed spec fn wf(&self) -> bool {
        &&& key_sequence(self.index) == keys(self.orders@)
        &&& unique_keys(self.orders@)
    }

    /// The orders, in the order they were added.
    pub closed spec fn spec_orders(&self) -> Seq<Order> {
        self.orders@
    }

    pub fn new() -> (r: Self)
        ensures
            r.wf(),
            r.spec_orders() == Seq::<Order>::empty(),
    {
        let r = OrderBook { orders: Vec::new(), index: new_key_set() };
        assert(keys(r.orders@) =~= Seq::<Seq<char>>::empty());
        r
    }

    /// The orders, in the order they were added.
    pub fn orders(&self) -> (r: &Vec<Order>)
        ensures
            r@ == self.spec_orders(),
    {
        &self.orders
    }

    /// Removes every order.
    pub fn clear(&mut self)
        ensures
            final(self).wf(),
            final(self).spec_orders() == Seq::<Order>::empty(),
    {
        self.orders = Vec::new();
        clear_keys(&mut self.index);
        assert(keys(self.orders@) =~= Seq::<Seq<char>>::empty());
    }
}

proof fn lemma_find_key(orders: Seq<Order>, k: Seq<char>, i: int)
    requires
        unique_keys(orders),
        0 <= i < orders.len(),
        orders[i].key@ == k,
    ensures
        find_key(orders, k) == Some(i),
{
    let j = choose|j: int| 0 <= j < orders.len() && (#[trigger] orders[j]).key@ == k;
    assert(orders[j].key@ == k);
    if j != i {
        assert(orders[i].key@ != orders[j].key@);
    }
}

proof fn lemma_keys_set(orders: Seq<Order>, i: int, o: Order)
    requires
        0 <= i < orders.len(),
        o.key@ == orders[i].key@,
        unique_keys(orders),
    ensures
        keys(orders.update(i, o)) == keys(orders),
        unique_keys(orders.update(i, o)),
{
    assert(keys(orders.update(i, o)) =~= keys(orders));
    let n = orders.update(i, o);
    assert forall|a: int, b: int|
        0 <= a < n.len() && 0 <= b < n.len() && a != b implies (#[trigger] n[a]).key@ != (#[trigger] n[b]).key@ by {
        assert(n[a].key@ == orders[a].key@);
        assert(n[b].key@ == orders[b].key@);
    }
}

impl OrderBook {
    /// The position of the order with key `key`.
    fn find(&self, key: &String) -> (r: Option<usize>)
        requires
            self.wf(),
        ensures
            r matches Some(i) ==> find_key(self.spec_orders(), key@) == Some(i as int) && i < self.spec_orders().len(),
            r is None ==> find_key(self.spec_orders(), key@) is None && !keys(self.spec_orders()).contains(key@),
    {
        match key_position(&self.index, key) {
            Some(i) => {
                proof {
                    assert(keys(self.orders@)[i as int] == self.orders@[i as int].key@);
                    lemma_find_key(self.orders@, key@, i as int);
                }
                Some(i)
            },
            None => {
                proof {
                    if exists|i: int| 0 <= i < self.orders@.len() && (#[trigger] self.orders@[i]).key@ == key@ {
                        let i = choose|i: int| 0 <= i < self.orders@.len() && (#[trigger] self.orders@[i]).key@ == key@;
                        assert(keys(self.orders@)[i] == key@);
                    }
                }
                None
            },
        }
    }

    /// Appends an order whose key is not in the book.
    fn add(&mut self, order: Order)
        requires
            old(self).wf(),
            !keys(old(self).spec_orders()).contains(order.key@),
        ensures
            final(self).wf(),
            final(self).spec_orders() == old(self).spec_orders().push(order),
    {
        let key = order.key.clone();
        insert_key(&mut self.index, key);
        let ghost before = self.orders@;
        self.orders.push(order);
        proof {
            assert(keys(self.orders@) =~= keys(before).push(order.key@));
            assert forall|a: int, b: int|
                0 <= a < self.orders@.len() && 0 <= b < self.orders@.len() && a != b implies (#[trigger] self.orders@[a]).key@ != (#[trigger] self.orders@[b]).key@ by {
                if a < before.len() && b < before.len() {
                } else if a < before.len() {
                    assert(keys(before)[a] == before[a].key@);
                } else {
                    assert(keys(before)[b] == before[b].key@);
                }
            }
        }
    }

    fn process_order_single(&mut self, order_single: &Message) -> (r: Result<(), Error>)
        requires
            old(self).wf(),
        ensures
            final(self).wf(),
            new_order_effect(old(self).spec_orders(), final(self).spec_orders(), order_single@, r),
    {
        let order = match Order::new(order_single) {
            Ok(o) => o,
            Err(e) => {
                return Err(e);
            },
        };
        if self.find(&order.key).is_some() {
            proof {
                let i = find_key(self.orders@, order.key@)->Some_0;
                assert(keys(self.orders@)[i] == order.key@);
            }
            return Err(Error::OrderBookAlreadyContainsOrderWithKey(order.key));
        }
        self.add(order);
        proof {
            assert(self.orders@.subrange(0, old(self).orders@.len() as int) =~= old(self).orders@);
        }
        Ok(())
    }

    /// Applies a request, or rolls back on a cancel reject, on the order the message names.
    fn process_existing(&mut self, message: &Message, reverse: bool, request: bool) -> (r: Result<(), Error>)
        requires
            old(self).wf(),
        ensures
            final(self).wf(),
            existing_order_effect(old(self).spec_orders(), final(self).spec_orders(), message@, r, reverse, request),
    {
        let key = match Order::key_for_message(message, reverse) {
            Ok(k) => k,
            Err(e) => {
                return Err(e);
            },
        };
        let i = match self.find(&key) {
            Some(i) => i,
            None => {
                return Err(Error::OrderBookDoesNotContainOrderWithKey(key));
            },
        };
        let mut order = self.orders[i].clone();
        let r = if request {
            order.update(message)
        } else {
            order.rollback();
            Ok(())
        };
        proof {
            lemma_keys_set(self.orders@, i as int, order);
        }
        let ghost o = order;
        let ghost before = self.orders@;
        self.orders.set(i, order);
        proof {
            assert(self.orders@[i as int] == o);
            assert(changed_at(before, self.orders@, i as int));
            assert(find_key(before, key@) == Some(i as int));
            if request {
                assert(applied(before[i as int], o, message@));
            } else {
                assert(rolled(before[i as int], o));
            }
        }
        r
    }

    fn process_execution_report(&mut self, execution_report: &Message) -> (r: Result<(), Error>)
        requires
            old(self).wf(),
        ensures
            final(self).wf(),
            execution_report_effect(old(self).spec_orders(), final(self).spec_orders(), execution_report@, r),
    {
        proof {
            reveal_strlit("5");
            assert("5"@ =~= seq!['5']);
        }
        let replaced = match execution_report.fields().try_get(tags::EXEC_TYPE) {
            Some(f) => same_text(f.value.as_str(), "5"),
            None => false,
        };
        if !replaced {
            return self.process_existing(execution_report, true, true);
        }
        let key = match Order::key_for_message(execution_report, true) {
            Ok(k) => k,
            Err(e) => {
                return Err(e);
            },
        };
        let i = match self.find(&key) {
            Some(i) => i,
            None => {
                return Err(Error::OrderBookDoesNotContainOrderWithKey(key));
            },
        };
        let mut order = self.orders[i].clone();
        let replacement = match order.replace(execution_report) {
            Ok(rep) => rep,
            Err(e) => {
                return Err(e);
            },
        };
        proof {
            lemma_keys_set(self.orders@, i as int, order);
        }
        let ghost before = self.orders@;
        let ghost o = order;
        proof {
            assert(forked(before[i as int], o, replacement, execution_report@));
        }
        self.orders.set(i, order);
        proof {
            assert(self.orders@[i as int] == o);
            assert(changed_at(before, self.orders@, i as int));
        }
        if self.find(&replacement.key).is_some() {
            proof {
                let j = find_key(self.orders@, replacement.key@)->Some_0;
                assert(keys(self.orders@)[j] == replacement.key@);
                assert(keys(before)[j] == replacement.key@);
            }
            return Err(Error::OrderBookAlreadyContainsOrderWithKey(replacement.key));
        }
        proof {
            assert(keys(before) == keys(self.orders@));
        }
        let ghost rep = replacement;
        self.add(replacement);
        proof {
            assert(self.orders@.subrange(0, before.len() as int) =~= before.update(i as int, o));
            assert(self.orders@.last() == rep);
            assert(self.orders@[i as int] == o);
        }
        Ok(())
    }

    /// Applies a message to the book according to its MsgType: a NewOrderSingle adds an
    /// order; an ExecutionReport updates one, or forks it when it reports a replace; a cancel
    /// or cancel/replace request updates one; a cancel reject rolls one back. Reports from the
    /// broker are matched with their comp ids swapped.
    pub fn process(&mut self, message: &Message) -> (r: Result<(), Error>)
        requires
            old(self).wf(),
        ensures
            final(self).wf(),
            match value_of(message@, tags::MSG_TYPE) {
                None => r == Err::<(), Error>(Error::MessageDoesNotContainMsgType)
                    && final(self).spec_orders() == old(self).spec_orders(),
                Some(t) => if t == seq!['D'] {
                    new_order_effect(old(self).spec_orders(), final(self).spec_orders(), message@, r)
                } else if t == seq!['8'] {
                    execution_report_effect(old(self).spec_orders(), final(self).spec_orders(), message@, r)
                } else if t == seq!['F'] || t == seq!['G'] {
                    existing_order_effect(old(self).spec_orders(), final(self).spec_orders(), message@, r, false, true)
                } else if t == seq!['9'] {
                    existing_order_effect(old(self).spec_orders(), final(self).spec_orders(), message@, r, true, false)
                } else {
                    &&& r matches Err(Error::UnsupportedMsgType(s)) && s@ == t
                    &&& final(self).spec_orders() == old(self).spec_orders()
                },
            },
    {
        let msg_type = match message.msg_type() {
            Some(t) => t,
            None => {
                return Err(Error::MessageDoesNotContainMsgType);
            },
        };
        proof {
            reveal_strlit("D");
            reveal_strlit("8");
            reveal_strlit("F");
            reveal_strlit("G");
            reveal_strlit("9");
            assert("D"@ =~= seq!['D']);
            assert("8"@ =~= seq!['8']);
            assert("F"@ =~= seq!['F']);
            assert("G"@ =~= seq!['G']);
            assert("9"@ =~= seq!['9']);
        }
        let t = msg_type.as_str();
        if same_text(t, "D") {
            self.process_order_single(message)
        } else if same_text(t, "8") {
            self.process_execution_report(message)
        } else if same_text(t, "F") || same_text(t, "G") {
            self.process_existing(message, false, true)
        } else if same_text(t, "9") {
            self.process_existing(message, true, false)
        } else {
            Err(Error::UnsupportedMsgType(msg_type.clone()))
        }
    }
}

impl Default for OrderBook {
    fn default() -> (r: Self)
        ensures
            r.wf(),
            r.spec_orders() == Seq::<Order>::empty(),
    {
        OrderBook::new()
    }
}

/// A NewOrderSingle whose key is already in the book is refused with
/// `OrderBookAlreadyContainsOrderWithKey` and leaves the book as it was.
pub proof fn lemma_duplicate_new_order_is_refused(before: Seq<Order>, after: Seq<Order>, m: FieldSeq, r: Result<(), Error>)
    requires
        new_order_effect(before, after, m, r),
        new_failure(m) is None,
        keys(before).contains(message_key(m, false)->Ok_0),
    ensures
        duplicate_order(r, message_key(m, false)->Ok_0),
        after == before,
{
}

/// A cancel request, cancel/replace request, cancel reject or execution report whose key
/// names no order is refused with `OrderBookDoesNotContainOrderWithKey` and leaves the book
/// as it was.
pub proof fn lemma_unknown_order_is_reported(
    before: Seq<Order>,
    after: Seq<Order>,
    m: FieldSeq,
    r: Result<(), Error>,
    reverse: bool,
    request: bool,
)
    requires
        message_key(m, reverse) is Ok,
        find_key(before, message_key(m, reverse)->Ok_0) is None,
        existing_order_effect(before, after, m, r, reverse, request) || (reverse
            && execution_report_effect(before, after, m, r)),
    ensures
        missing_order(r, message_key(m, reverse)->Ok_0),
        after == before,
{
}

/// The fork on a Replaced report names the replacement after the ClOrdID the replace request
/// asked for, points its OrigClOrdID at the replaced order's ClOrdID and makes it New, while the
/// replaced order becomes Replaced.
pub proof fn lemma_fork_names_replacement(before: Order, after: Order, rep: Order, m: FieldSeq, n: (u32, Seq<char>))
    requires
        forked(before, after, rep, m),
        field_view(before.new_cl_ord_id) == Some(n),
        n.0 == tags::CL_ORD_ID,
    ensures
        value_of(rep.fields@, tags::CL_ORD_ID) == Some(n.1),
        value_of(rep.fields@, tags::ORIG_CL_ORD_ID) == Some(before.cl_ord_id@.1),
        value_of(rep.fields@, tags::ORD_STATUS) == Some(crate::order::status_new()),
        value_of(after.fields@, tags::ORD_STATUS) == Some(status_replaced()),
        rep.cl_ord_id@ == n,
        field_view(rep.orig_cl_ord_id) == Some(before.cl_ord_id@),
        rep.key@ == key_of(before.sender_comp_id@, before.target_comp_id@, n.1),
{
    let st = committed(updated(before.state(), m));
    let f1 = set_spec(st.0, n, SetOperation::ReplaceFirstOrAppend);
    let old_id = (tags::ORIG_CL_ORD_ID, before.cl_ord_id@.1);
    let f2 = set_spec(f1, old_id, SetOperation::ReplaceFirstOrAppend);
    let status = (tags::ORD_STATUS, crate::order::status_new());
    lemma_set_value(st.0, n, SetOperation::ReplaceFirstOrAppend, tags::CL_ORD_ID);
    lemma_set_value(f1, old_id, SetOperation::ReplaceFirstOrAppend, tags::CL_ORD_ID);
    lemma_set_value(f1, old_id, SetOperation::ReplaceFirstOrAppend, tags::ORIG_CL_ORD_ID);
    lemma_set_value(f2, status, SetOperation::ReplaceFirstOrAppend, tags::CL_ORD_ID);
    lemma_set_value(f2, status, SetOperation::ReplaceFirstOrAppend, tags::ORIG_CL_ORD_ID);
    lemma_set_value(f2, status, SetOperation::ReplaceFirstOrAppend, tags::ORD_STATUS);
    let rb = rolled_back(before.state());
    lemma_set_value(rb.0, (tags::ORD_STATUS, status_replaced()), SetOperation::ReplaceFirstOrAppend, tags::ORD_STATUS);
}

} // verus!
