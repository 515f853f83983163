//! The field and message definitions the library carries for each protocol version.
use vstd::prelude::*;
use crate::dictionary::{
    distinct_positive_tags, FieldValue, Message, MessageCollection, MessageField, OrchestrationField,
    OrchestrationFieldCollection, Pedigree, Presence,
};

verus! {

/// The protocol versions the library carries definitions for.
#[derive(Debug, Clone, Copy, PartialEq, Eq, Structural)]
pub enum Version {
    Fix42,
    Fix44,
    Fix50Sp2,
}

/// An enumerated value: its tag, its text and its name.
pub type ValueEntry = (u32, Seq<char>, Seq<char>);

/// A field definition: tag, name, data type, synopsis, whether it is data, the version that
/// added it, and its enumerated values.
pub type FieldEntry = (u32, Seq<char>, Seq<char>, Seq<char>, bool, Option<&'static str>, Seq<ValueEntry>);

/// A message definition: name, MsgType, category, synopsis and the version that added it.
pub type MessageEntry = (Seq<char>, Seq<char>, Seq<char>, Seq<char>, Option<&'static str>);

pub open spec fn value_entry(v: FieldValue) -> ValueEntry {
    (v.tag, v.value@, v.name@)
}

pub open spec fn value_entries(s: Seq<FieldValue>) -> Seq<ValueEntry> {
    s.map_values(|v: FieldValue| value_entry(v))
}

pub open spec fn field_entry(f: OrchestrationField) -> FieldEntry {
    (f.tag, f.name@, f.data_type@, f.synopsis@, f.is_data, f.pedigree.added, value_entries(f.values@))
}

pub open spec fn field_entries(s: Seq<OrchestrationField>) -> Seq<FieldEntry> {
    s.map_values(|f: OrchestrationField| field_entry(f))
}

pub open spec fn message_entry(m: Message) -> MessageEntry {
    (m.name@, m.msg_type@, m.category@, m.synopsis@, m.pedigree.added)
}

pub open spec fn message_entries(s: Seq<Message>) -> Seq<MessageEntry> {
    s.map_values(|m: Message| message_entry(m))
}

/// The names of the definitions.
pub open spec fn name_set(s: Seq<OrchestrationField>) -> Set<Seq<char>> {
    Set::new(|n: Seq<char>| exists|i: int| 0 <= i < s.len() && (#[trigger] s[i]).name@ == n)
}

/// Whether no two definitions share a name.
pub open spec fn distinct_names(s: Seq<OrchestrationField>) -> bool {
    forall|i: int, j: int|
        0 <= i < s.len() && 0 <= j < s.len() && i != j ==> (#[trigger] s[i]).name@ != (#[trigger] s[j]).name@
}

/// Whether the tags are positive and strictly increasing.
pub open spec fn increasing_tags(s: Seq<OrchestrationField>) -> bool {
    &&& forall|i: int| 0 <= i < s.len() ==> (#[trigger] s[i]).tag >= 1
    &&& forall|i: int, j: int| 0 <= i < j < s.len() ==> (#[trigger] s[i]).tag < (#[trigger] s[j]).tag
}

/// The field definitions of a version, in tag order.
pub open spec fn field_table(version: Version) -> Seq<FieldEntry> {
    let v42 = version == Version::Fix42;
    let common = Seq::<FieldEntry>::empty()
        .push((1, "Account"@, "String"@, "Account mnemonic as agreed between buy and sell sides, e.g. broker and institution or investor/intermediary and fund manager."@, false, Some("FIX.2.7"), Seq::<ValueEntry>::empty()))
        .push((6, "AvgPx"@, "Price"@, "Calculated average price of all fills on this order."@, false, Some("FIX.2.7"), Seq::<ValueEntry>::empty()))
        .push((7, "BeginSeqNo"@, "SeqNum"@, "Message sequence number of first message in range to be resent"@, false, Some("FIX.2.7"), Seq::<ValueEntry>::empty()))
        .push((8, "BeginString"@, "String"@, "Identifies beginning of new message and protocol version. ALWAYS FIRST FIELD IN MESSAGE. (Always unencrypted)"@, false, Some("FIX.2.7"), Seq::<ValueEntry>::empty()))
        .push((9, "BodyLength"@, "Length"@, "Message length, in bytes, forward to the CheckSum field. ALWAYS SECOND FIELD IN MESSAGE. (Always unencrypted)"@, false, Some("FIX.2.7"), Seq::<ValueEntry>::empty()))
        .push((10, "CheckSum"@, "String"@, "Three byte, simple checksum. ALWAYS LAST FIELD IN MESSAGE; i.e. serves, with the trailing <SOH>, as the end-of-message delimiter. Always defined as three characters. (Always unencrypted)"@, false, Some("FIX.2.7"), Seq::<ValueEntry>::empty()))
        .push((11, "ClOrdID"@, "String"@, "Unique identifier for Order as assigned by the buy-side (institution, broker, intermediary etc.)."@, false, Some("FIX.2.7"), Seq::<ValueEntry>::empty()))
        .push((14, "CumQty"@, "Qty"@, "Total quantity filled."@, false, Some("FIX.2.7"), Seq::<ValueEntry>::empty()))
        .push((16, "EndSeqNo"@, "SeqNum"@, "Message sequence number of last message in range to be resent."@, false, Some("FIX.2.7"), Seq::<ValueEntry>::empty()))
        .push((17, "ExecID"@, "String"@, "Unique identifier of execution message as assigned by sell-side (broker, exchange, ECN)."@, false, Some("FIX.2.7"), Seq::<ValueEntry>::empty()))
        .push((18, "ExecInst"@, "MultipleCharValue"@, "Instructions for order handling on exchange trading floor."@, false, Some("FIX.2.7"), Seq::<ValueEntry>::empty().push((18, "1"@, "NotHeld"@)).push((18, "2"@, "Work"@)).push((18, "3"@, "GoAlong"@)).push((18, "4"@, "OverTheDay"@)).push((18, "5"@, "Held"@)).push((18, "6"@, "ParticipateDoNotInitiate"@)).push((18, "7"@, "StrictScale"@)).push((18, "8"@, "TryToScale"@)).push((18, "9"@, "StayOnBidSide"@)).push((18, "0"@, "StayOnOfferSide"@)).push((18, "A"@, "NoCross"@)).push((18, "B"@, "OKToCross"@)).push((18, "C"@, "CallFirst"@)).push((18, "D"@, "PercentOfVolume"@)).push((18, "E"@, "DoNotIncrease"@)).push((18, "F"@, "DoNotReduce"@)).push((18, "G"@, "AllOrNone"@))))
        .push((30, "LastMkt"@, "Exchange"@, "Market of execution for last fill."@, false, Some("FIX.2.7"), Seq::<ValueEntry>::empty()))
        .push((31, "LastPx"@, "Price"@, "Price of this (last) fill."@, false, Some("FIX.2.7"), Seq::<ValueEntry>::empty()))
        .push(if v42 {
            (32, "LastShares"@, "Qty"@, "Quantity of shares bought/sold on this (last) fill."@, false, Some("FIX.2.7"), Seq::<ValueEntry>::empty())
        } else {
            (32, "LastQty"@, "Qty"@, "Quantity (e.g. shares) bought/sold on this (last) fill."@, false, Some("FIX.2.7"), Seq::<ValueEntry>::empty())
        })
        .push((34, "MsgSeqNum"@, "SeqNum"@, "Integer message sequence number."@, false, Some("FIX.2.7"), Seq::<ValueEntry>::empty()))
        .push((35, "MsgType"@, "String"@, "Defines message type. ALWAYS THIRD FIELD IN MESSAGE. (Always unencrypted)"@, false, Some("FIX.2.7"), Seq::<ValueEntry>::empty().push((35, "0"@, "Heartbeat"@)).push((35, "1"@, "TestRequest"@)).push((35, "2"@, "ResendRequest"@)).push((35, "3"@, "Reject"@)).push((35, "4"@, "SequenceReset"@)).push((35, "5"@, "Logout"@)).push((35, "8"@, "ExecutionReport"@)).push((35, "9"@, "OrderCancelReject"@)).push((35, "A"@, "Logon"@)).push((35, "D"@, "NewOrderSingle"@)).push((35, "F"@, "OrderCancelRequest"@)).push((35, "G"@, "OrderCancelReplaceRequest"@))))
        .push((36, "NewSeqNo"@, "SeqNum"@, "New sequence number"@, false, Some("FIX.2.7"), Seq::<ValueEntry>::empty()))
        .push((37, "OrderID"@, "String"@, "Unique identifier for Order as assigned by sell-side (broker, exchange, ECN)."@, false, Some("FIX.2.7"), Seq::<ValueEntry>::empty()))
        .push((38, "OrderQty"@, "Qty"@, "Quantity ordered."@, false, Some("FIX.2.7"), Seq::<ValueEntry>::empty()))
        .push((39, "OrdStatus"@, "char"@, "Identifies current status of order."@, false, Some("FIX.2.7"), Seq::<ValueEntry>::empty().push((39, "0"@, "New"@)).push((39, "1"@, "PartiallyFilled"@)).push((39, "2"@, "Filled"@)).push((39, "3"@, "DoneForDay"@)).push((39, "4"@, "Canceled"@)).push((39, "5"@, "Replaced"@)).push((39, "6"@, "PendingCancel"@)).push((39, "7"@, "Stopped"@)).push((39, "8"@, "Rejected"@)).push((39, "9"@, "Suspended"@)).push((39, "A"@, "PendingNew"@)).push((39, "B"@, "Calculated"@)).push((39, "C"@, "Expired"@)).push((39, "D"@, "AcceptedForBidding"@)).push((39, "E"@, "PendingReplace"@))))
        .push((40, "OrdType"@, "char"@, "Order type."@, false, Some("FIX.2.7"), Seq::<ValueEntry>::empty().push((40, "1"@, "Market"@)).push((40, "2"@, "Limit"@)).push((40, "3"@, "Stop"@)).push((40, "4"@, "StopLimit"@))))
        .push((41, "OrigClOrdID"@, "String"@, "ClOrdID of the previous order (NOT the initial order of the day) as assigned by the institution, used to identify the previous order in cancel and cancel/replace requests."@, false, Some("FIX.2.7"), Seq::<ValueEntry>::empty()))
        .push((43, "PossDupFlag"@, "Boolean"@, "Indicates possible retransmission of message with this sequence number"@, false, Some("FIX.2.7"), Seq::<ValueEntry>::empty().push((43, "Y"@, "PossibleDuplicate"@)).push((43, "N"@, "OriginalTransmission"@))))
        .push((44, "Price"@, "Price"@, "Price per unit of quantity (e.g. per share)"@, false, Some("FIX.2.7"), Seq::<ValueEntry>::empty()))
        .push((45, "RefSeqNum"@, "SeqNum"@, "Reference message sequence number"@, false, Some("FIX.2.7"), Seq::<ValueEntry>::empty()))
        .push((49, "SenderCompID"@, "String"@, "Assigned value used to identify firm sending message."@, false, Some("FIX.2.7"), Seq::<ValueEntry>::empty()))
        .push((50, "SenderSubID"@, "String"@, "Assigned value used to identify specific message originator (desk, trader, etc.)"@, false, Some("FIX.2.7"), Seq::<ValueEntry>::empty()))
        .push((52, "SendingTime"@, "UTCTimestamp"@, "Time of message transmission (always expressed in UTC (Universal Time Coordinated, also known as \"GMT\"))"@, false, Some("FIX.2.7"), Seq::<ValueEntry>::empty()))
        .push((54, "Side"@, "char"@, "Side of order"@, false, Some("FIX.2.7"), Seq::<ValueEntry>::empty().push((54, "1"@, "Buy"@)).push((54, "2"@, "Sell"@)).push((54, "3"@, "BuyMinus"@)).push((54, "4"@, "SellPlus"@)).push((54, "5"@, "SellShort"@)).push((54, "6"@, "SellShortExempt"@)).push((54, "7"@, "Undisclosed"@)).push((54, "8"@, "Cross"@)).push((54, "9"@, "CrossShort"@))))
        .push((55, "Symbol"@, "String"@, "Ticker symbol."@, false, Some("FIX.2.7"), Seq::<ValueEntry>::empty()))
        .push((56, "TargetCompID"@, "String"@, "Assigned value used to identify receiving firm."@, false, Some("FIX.2.7"), Seq::<ValueEntry>::empty()))
        .push((57, "TargetSubID"@, "String"@, "Assigned value used to identify specific individual or unit intended to receive message."@, false, Some("FIX.2.7"), Seq::<ValueEntry>::empty()))
        .push((58, "Text"@, "String"@, "Free format text string"@, false, Some("FIX.2.7"), Seq::<ValueEntry>::empty()))
        .push((59, "TimeInForce"@, "char"@, "Specifies how long the order remains in effect."@, false, Some("FIX.2.7"), Seq::<ValueEntry>::empty().push((59, "0"@, "Day"@)).push((59, "1"@, "GoodTillCancel"@)).push((59, "2"@, "AtTheOpening"@)).push((59, "3"@, "ImmediateOrCancel"@)).push((59, "4"@, "FillOrKill"@)).push((59, "5"@, "GoodTillCrossing"@)).push((59, "6"@, "GoodTillDate"@))))
        .push((60, "TransactTime"@, "UTCTimestamp"@, "Time of execution/order creation (expressed in UTC (Universal Time Coordinated, also known as \"GMT\"))"@, false, None, Seq::<ValueEntry>::empty()))
        .push((70, "AllocID"@, "String"@, "Unique identifier for allocation message."@, false, None, Seq::<ValueEntry>::empty()))
        .push((89, "Signature"@, "data"@, "Electronic signature"@, true, None, Seq::<ValueEntry>::empty()))
        .push((90, "SecureDataLen"@, "Length"@, "Length of encrypted message"@, false, None, Seq::<ValueEntry>::empty()))
        .push((91, "SecureData"@, "data"@, "Actual encrypted data stream"@, true, None, Seq::<ValueEntry>::empty()))
        .push((93, "SignatureLength"@, "Length"@, "Number of bytes in signature field."@, false, None, Seq::<ValueEntry>::empty()))
        .push((95, "RawDataLength"@, "Length"@, "Number of bytes in raw data field."@, false, None, Seq::<ValueEntry>::empty()))
        .push((96, "RawData"@, "data"@, "Unformatted raw data, can include bitmaps, word processor documents, etc."@, true, None, Seq::<ValueEntry>::empty()))
        .push((97, "PossResend"@, "Boolean"@, "Indicates that message may contain information that has been sent under another sequence number."@, false, None, Seq::<ValueEntry>::empty().push((97, "Y"@, "PossibleResend"@)).push((97, "N"@, "OriginalTransmission"@))))
        .push((98, "EncryptMethod"@, "int"@, "Method of encryption."@, false, Some("FIX.2.7"), Seq::<ValueEntry>::empty()))
        .push((100, "ExDestination"@, "Exchange"@, "Execution destination as defined by institution when order is entered."@, false, None, Seq::<ValueEntry>::empty()))
        .push((108, "HeartBtInt"@, "int"@, "Heartbeat interval (seconds)"@, false, Some("FIX.2.7"), Seq::<ValueEntry>::empty()))
        .push((112, "TestReqID"@, "String"@, "Identifier included in Test Request message to be returned in resulting Heartbeat"@, false, None, Seq::<ValueEntry>::empty()))
        .push((115, "OnBehalfOfCompID"@, "String"@, "Assigned value used to identify firm originating message if the message was delivered by a third party."@, false, None, Seq::<ValueEntry>::empty()))
        .push((116, "OnBehalfOfSubID"@, "String"@, "Assigned value used to identify specific message originator if the message was delivered by a third party."@, false, None, Seq::<ValueEntry>::empty()))
        .push((122, "OrigSendingTime"@, "UTCTimestamp"@, "Original time of message transmission when transmitting orders as the result of a resend request."@, false, None, Seq::<ValueEntry>::empty()))
        .push((123, "GapFillFlag"@, "Boolean"@, "Indicates that the Sequence Reset message is replacing administrative or application messages which will not be resent."@, false, Some("FIX.2.7"), Seq::<ValueEntry>::empty()))
        .push((128, "DeliverToCompID"@, "String"@, "Assigned value used to identify the firm targeted to receive the message if the message is delivered by a third party."@, false, None, Seq::<ValueEntry>::empty()))
        .push((129, "DeliverToSubID"@, "String"@, "Assigned value used to identify specific message recipient if the message is delivered by a third party."@, false, None, Seq::<ValueEntry>::empty()))
        .push((142, "SenderLocationID"@, "String"@, "Assigned value used to identify specific message originator's location."@, false, None, Seq::<ValueEntry>::empty()))
        .push((143, "TargetLocationID"@, "String"@, "Assigned value used to identify specific message destination's location."@, false, None, Seq::<ValueEntry>::empty()))
        .push((144, "OnBehalfOfLocationID"@, "String"@, "Assigned value used to identify specific message originator's location if the message was delivered by a third party."@, false, None, Seq::<ValueEntry>::empty()))
        .push((145, "DeliverToLocationID"@, "String"@, "Assigned value used to identify specific message recipient's location if the message was delivered by a third party."@, false, None, Seq::<ValueEntry>::empty()))
        .push((150, "ExecType"@, "char"@, "Describes the specific Execution Report."@, false, None, Seq::<ValueEntry>::empty().push((150, "0"@, "New"@)).push((150, "3"@, "DoneForDay"@)).push((150, "4"@, "Canceled"@)).push((150, "5"@, "Replaced"@)).push((150, "6"@, "PendingCancel"@)).push((150, "7"@, "Stopped"@)).push((150, "8"@, "Rejected"@)).push((150, "9"@, "Suspended"@)).push((150, "A"@, "PendingNew"@)).push((150, "B"@, "Calculated"@)).push((150, "C"@, "Expired"@)).push((150, "D"@, "Restated"@)).push((150, "E"@, "PendingReplace"@)).push((150, "F"@, "Trade"@))))
        .push((151, "LeavesQty"@, "Qty"@, "Quantity open for further execution."@, false, None, Seq::<ValueEntry>::empty()))
        .push((212, "XmlDataLen"@, "Length"@, "Length of the XmlData data block."@, false, None, Seq::<ValueEntry>::empty()))
        .push((213, "XmlData"@, "data"@, "Actual XML data stream."@, true, None, Seq::<ValueEntry>::empty()))
        .push((347, "MessageEncoding"@, "String"@, "Type of message encoding (non-ASCII (non-English) characters) used in a message's \"Encoded\" fields."@, false, None, Seq::<ValueEntry>::empty()))
        .push((369, "LastMsgSeqNumProcessed"@, "SeqNum"@, "The last MsgSeqNum value received by the FIX engine and processed by downstream application."@, false, None, Seq::<ValueEntry>::empty()))
        .push((434, "CxlRejResponseTo"@, "char"@, "Identifies the type of request that a Cancel Reject is in response to."@, false, None, Seq::<ValueEntry>::empty().push((434, "1"@, "OrderCancelRequest"@)).push((434, "2"@, "OrderCancelReplaceRequest"@))));
    if v42 {
        common
    } else {
        common
            .push((627, "NoHops"@, "NumInGroup"@, "Number of HopCompID entries in repeating group."@, false, None, Seq::<ValueEntry>::empty()))
            .push((628, "HopCompID"@, "String"@, "Assigned value used to identify the third party firm which delivered a specific message either from the firm which originated the message or from another third party."@, false, None, Seq::<ValueEntry>::empty()))
            .push((629, "HopSendingTime"@, "UTCTimestamp"@, "Time that HopCompID sent the message."@, false, None, Seq::<ValueEntry>::empty()))
            .push((630, "HopRefID"@, "SeqNum"@, "Reference identifier assigned by HopCompID associated with the message sent."@, false, None, Seq::<ValueEntry>::empty()))
    }
}

/// The message definitions, in display order; the same in every version.
pub open spec fn message_table() -> Seq<MessageEntry> {
    Seq::<MessageEntry>::empty()
        .push(("Heartbeat"@, "0"@, "Session"@, "The Heartbeat monitors the status of the communication link and identifies when the last of a string of messages was not received."@, Some("FIX.2.7")))
        .push(("TestRequest"@, "1"@, "Session"@, "The test request message forces a heartbeat from the opposing application."@, Some("FIX.2.7")))
        .push(("ResendRequest"@, "2"@, "Session"@, "The resend request is sent by the receiving application to initiate the retransmission of messages."@, Some("FIX.2.7")))
        .push(("Reject"@, "3"@, "Session"@, "The reject message should be issued when a message is received but cannot be properly processed due to a session-level rule violation."@, Some("FIX.2.7")))
        .push(("SequenceReset"@, "4"@, "Session"@, "The sequence reset message is used by the sending application to reset the incoming sequence number on the opposing side."@, Some("FIX.2.7")))
        .push(("Logout"@, "5"@, "Session"@, "The logout message initiates or confirms the termination of a FIX session."@, Some("FIX.2.7")))
        .push(("ExecutionReport"@, "8"@, "SingleGeneralOrderHandling"@, "The execution report message is used to confirm the receipt of an order, confirm changes to an existing order, relay order status information, relay fill information on working orders and reject orders."@, Some("FIX.2.7")))
        .push(("OrderCancelReject"@, "9"@, "SingleGeneralOrderHandling"@, "The order cancel reject message is issued by the broker upon receipt of a cancel request or cancel/replace request message which cannot be honored."@, Some("FIX.2.7")))
        .push(("Logon"@, "A"@, "Session"@, "The logon message authenticates a user establishing a connection to a remote system."@, Some("FIX.2.7")))
        .push(("NewOrderSingle"@, "D"@, "SingleGeneralOrderHandling"@, "The new order message type is used by institutions wishing to electronically submit securities and forex orders to a broker for execution."@, Some("FIX.2.7")))
        .push(("OrderCancelRequest"@, "F"@, "SingleGeneralOrderHandling"@, "The order cancel request message requests the cancellation of all of the remaining quantity of an existing order."@, Some("FIX.2.7")))
        .push(("OrderCancelReplaceRequest"@, "G"@, "SingleGeneralOrderHandling"@, "The order cancel/replace request is used to change the parameters of an existing order."@, Some("FIX.2.7")))
}

/// What the field table of a version holds: position 0 is the descriptor of unknown tags,
/// the definitions follow in tag order, each listed tag maps to its definition, every other
/// tag in range maps to the unknown-tag descriptor, the table covers tags below 1000, and no
/// two definitions share a name.
pub open spec fn version_fields(r: OrchestrationFieldCollection, version: Version) -> bool {
    let t = field_table(version);
    &&& r@.1.len() == t.len() + 1
    &&& r@.1[0].tag == 0 && r@.1[0].name@.len() == 0 && r@.1[0].values@.len() == 0 && !r@.1[0].is_data
    &&& r.definition(0) == Some(r@.1[0])
    &&& forall|i: int| 0 <= i < t.len() ==> field_entry(r@.1[i + 1]) == #[trigger] t[i]
    &&& forall|i: int|
        0 <= i < t.len() ==> (r.known((#[trigger] t[i]).0 as int) matches Some(f) && field_entry(f) == t[i])
    &&& forall|tag: int| 0 < tag < r@.0.len() ==> (#[trigger] r.definition(tag) matches Some(f) && (f.tag == 0 || f.tag == tag))
    &&& 1 <= r@.0.len() <= 1000
    &&& forall|i: int, j: int|
        1 <= i < r@.1.len() && 1 <= j < r@.1.len() && i != j ==> (#[trigger] r@.1[i]).name@ != (#[trigger] r@.1[j]).name@
}

/// The field table of a version.
pub fn field_collection(version: Version) -> (r: OrchestrationFieldCollection)
    ensures
        version_fields(r, version),
{
    let definitions = field_definitions(version);
    let ghost defs = definitions@;
    proof {
        assert forall|i: int| 0 <= i < defs.len() implies (#[trigger] defs[i]).tag < 1000 by {
            if i < defs.len() - 1 {
                assert(defs[i].tag < defs[defs.len() - 1].tag);
            }
        }
        assert(distinct_positive_tags(defs)) by {
            assert forall|i: int, j: int|
                0 <= i < defs.len() && 0 <= j < defs.len() && i != j implies (#[trigger] defs[i]).tag != (#[trigger] defs[j]).tag by {
                if i < j {
                    assert(defs[i].tag < defs[j].tag);
                } else {
                    assert(defs[j].tag < defs[i].tag);
                }
            }
        }
    }
    let r = OrchestrationFieldCollection::from_definitions(definitions);
    proof {
        let t = field_table(version);
        assert forall|i: int| 0 <= i < t.len() implies field_entry(r@.1[i + 1]) == #[trigger] t[i] by {
            assert(field_entries(defs)[i] == field_entry(defs[i]));
        }
        assert forall|i: int|
            0 <= i < t.len() implies (r.known((#[trigger] t[i]).0 as int) matches Some(f) && field_entry(f) == t[i]) by {
            assert(field_entries(defs)[i] == field_entry(defs[i]));
            assert(r.definition(defs[i].tag as int) == Some(defs[i]));
        }
        assert forall|i: int, j: int|
            1 <= i < r@.1.len() && 1 <= j < r@.1.len() && i != j implies (#[trigger] r@.1[i]).name@ != (#[trigger] r@.1[j]).name@ by {
            assert(r@.1[i] == defs[i - 1]);
            assert(r@.1[j] == defs[j - 1]);
        }
    }
    r
}

fn no_values() -> (r: Vec<FieldValue>)
    ensures
        value_entries(r@) == Seq::<ValueEntry>::empty(),
{
    let r: Vec<FieldValue> = Vec::new();
    assert(value_entries(r@) =~= Seq::<ValueEntry>::empty());
    r
}

fn push_value(values: &mut Vec<FieldValue>, tag: u32, text: &'static str, name: &'static str)
    ensures
        value_entries(final(values)@) == value_entries(old(values)@).push((tag, text@, name@)),
{
    values.push(FieldValue { tag, name, value: text });
    assert(value_entries(values@) =~= value_entries(old(values)@).push((tag, text@, name@)));
}

fn push_definition(
    d: &mut Vec<OrchestrationField>,
    tag: u32,
    name: &'static str,
    data_type: &'static str,
    synopsis: &'static str,
    added: Option<&'static str>,
    is_data: bool,
    values: Vec<FieldValue>,
)
    requires
        increasing_tags(old(d)@),
        distinct_names(old(d)@),
        !name_set(old(d)@).contains(name@),
        tag >= 1,
        old(d)@.len() > 0 ==> old(d)@.last().tag < tag,
    ensures
        increasing_tags(final(d)@),
        distinct_names(final(d)@),
        name_set(final(d)@) == name_set(old(d)@).insert(name@),
        final(d)@.len() == old(d)@.len() + 1,
        final(d)@.last().tag == tag,
        field_entries(final(d)@) == field_entries(old(d)@).push(
            (tag, name@, data_type@, synopsis@, is_data, added, value_entries(values@)),
        ),
{
    let ghost vs = values@;
    let pedigree = Pedigree {
        added,
        added_ep: None,
        updated: None,
        updated_ep: None,
        deprecated: None,
        deprecated_ep: None,
    };
    let f = OrchestrationField { tag, is_data, name, data_type, synopsis, pedigree, values };
    d.push(f);
    proof {
        assert(field_entries(d@) =~= field_entries(old(d)@).push(
            (tag, name@, data_type@, synopsis@, is_data, added, value_entries(vs)),
        ));
        assert(name_set(d@) =~= name_set(old(d)@).insert(name@)) by {
            assert(d@[d@.len() - 1].name@ == name@);
            assert forall|n: Seq<char>| name_set(old(d)@).contains(n) implies name_set(d@).contains(n) by {
                let i = choose|i: int| 0 <= i < old(d)@.len() && (#[trigger] old(d)@[i]).name@ == n;
                assert(d@[i] == old(d)@[i]);
            }
            assert forall|n: Seq<char>| name_set(d@).contains(n) && n != name@ implies name_set(old(d)@).contains(n) by {
                let i = choose|i: int| 0 <= i < d@.len() && (#[trigger] d@[i]).name@ == n;
                assert(d@[i] == old(d)@[i]);
            }
        }
        assert forall|i: int, j: int|
            0 <= i < d@.len() && 0 <= j < d@.len() && i != j implies (#[trigger] d@[i]).name@ != (#[trigger] d@[j]).name@ by {
            if i == d@.len() - 1 {
                assert(d@[j] == old(d)@[j]);
                assert(name_set(old(d)@).contains(old(d)@[j].name@));
            } else if j == d@.len() - 1 {
                assert(d@[i] == old(d)@[i]);
                assert(name_set(old(d)@).contains(old(d)@[i].name@));
            }
        }
        assert forall|i: int, j: int| 0 <= i < j < d@.len() implies (#[trigger] d@[i]).tag < (#[trigger] d@[j]).tag by {
            if j == d@.len() - 1 && i < old(d)@.len() - 1 {
                assert(old(d)@[i].tag < old(d)@[old(d)@.len() - 1].tag);
            }
        }
    }
}

/// The field definitions of a version, in tag order.
#[verifier::rlimit(100)]
pub fn field_definitions(version: Version) -> (r: Vec<OrchestrationField>)
    ensures
        field_entries(r@) == field_table(version),
        increasing_tags(r@),
        distinct_names(r@),
        r@.len() > 0 && r@.last().tag < 1000,
{
    let v42 = version == Version::Fix42;
    let mut d: Vec<OrchestrationField> = Vec::new();
    assert(field_entries(d@) =~= Seq::<FieldEntry>::empty());
    assert(name_set(d@) =~= Set::<Seq<char>>::empty());
    proof {
        reveal_strlit("Account");
        reveal_strlit("AllocID");
        reveal_strlit("AvgPx");
        reveal_strlit("BeginSeqNo");
        reveal_strlit("BeginString");
        reveal_strlit("BodyLength");
        reveal_strlit("CheckSum");
        reveal_strlit("ClOrdID");
        reveal_strlit("CumQty");
        reveal_strlit("CxlRejResponseTo");
        reveal_strlit("DeliverToCompID");
        reveal_strlit("DeliverToLocationID");
        reveal_strlit("DeliverToSubID");
        reveal_strlit("EncryptMethod");
        reveal_strlit("EndSeqNo");
        reveal_strlit("ExDestination");
        reveal_strlit("ExecID");
        reveal_strlit("ExecInst");
        reveal_strlit("ExecType");
        reveal_strlit("GapFillFlag");
        reveal_strlit("HeartBtInt");
        reveal_strlit("HopCompID");
        reveal_strlit("HopRefID");
        reveal_strlit("HopSendingTime");
        reveal_strlit("LastMkt");
        reveal_strlit("LastMsgSeqNumProcessed");
        reveal_strlit("LastPx");
        reveal_strlit("LastQty");
        reveal_strlit("LastShares");
        reveal_strlit("LeavesQty");
        reveal_strlit("MessageEncoding");
        reveal_strlit("MsgSeqNum");
        reveal_strlit("MsgType");
        reveal_strlit("NewSeqNo");
        reveal_strlit("NoHops");
        reveal_strlit("OnBehalfOfCompID");
        reveal_strlit("OnBehalfOfLocationID");
        reveal_strlit("OnBehalfOfSubID");
        reveal_strlit("OrdStatus");
        reveal_strlit("OrdType");
        reveal_strlit("OrderID");
        reveal_strlit("OrderQty");
        reveal_strlit("OrigClOrdID");
        reveal_strlit("OrigSendingTime");
        reveal_strlit("PossDupFlag");
        reveal_strlit("PossResend");
        reveal_strlit("Price");
        reveal_strlit("RawData");
        reveal_strlit("RawDataLength");
        reveal_strlit("RefSeqNum");
        reveal_strlit("SecureData");
        reveal_strlit("SecureDataLen");
        reveal_strlit("SenderCompID");
        reveal_strlit("SenderLocationID");
        reveal_strlit("SenderSubID");
        reveal_strlit("SendingTime");
        reveal_strlit("Side");
        reveal_strlit("Signature");
        reveal_strlit("SignatureLength");
        reveal_strlit("Symbol");
        reveal_strlit("TargetCompID");
        reveal_strlit("TargetLocationID");
        reveal_strlit("TargetSubID");
        reveal_strlit("TestReqID");
        reveal_strlit("Text");
        reveal_strlit("TimeInForce");
        reveal_strlit("TransactTime");
        reveal_strlit("XmlData");
        reveal_strlit("XmlDataLen");
        assert("Account"@.len() == 7);
        assert("Account"@[0] == 'A');
        assert("Account"@[1] == 'c');
        assert("AllocID"@.len() == 7);
        assert("AllocID"@[0] == 'A');
        assert("AllocID"@[1] == 'l');
        assert("AvgPx"@.len() == 5);
        assert("AvgPx"@[0] == 'A');
        assert("BeginSeqNo"@.len() == 10);
        assert("BeginSeqNo"@[0] == 'B');
        assert("BeginSeqNo"@[1] == 'e');
        assert("BeginString"@.len() == 11);
        assert("BeginString"@[0] == 'B');
        assert("BodyLength"@.len() == 10);
        assert("BodyLength"@[0] == 'B');
        assert("BodyLength"@[1] == 'o');
        assert("CheckSum"@.len() == 8);
        assert("CheckSum"@[0] == 'C');
        assert("ClOrdID"@.len() == 7);
        assert("ClOrdID"@[0] == 'C');
        assert("CumQty"@.len() == 6);
        assert("CumQty"@[0] == 'C');
        assert("CxlRejResponseTo"@.len() == 16);
        assert("CxlRejResponseTo"@[0] == 'C');
        assert("DeliverToCompID"@.len() == 15);
        assert("DeliverToCompID"@[0] == 'D');
        assert("DeliverToLocationID"@.len() == 19);
        assert("DeliverToSubID"@.len() == 14);
        assert("DeliverToSubID"@[0] == 'D');
        assert("EncryptMethod"@.len() == 13);
        assert("EncryptMethod"@[0] == 'E');
        assert("EncryptMethod"@[1] == 'n');
        assert("EndSeqNo"@.len() == 8);
        assert("EndSeqNo"@[0] == 'E');
        assert("EndSeqNo"@[1] == 'n');
        assert("ExDestination"@.len() == 13);
        assert("ExDestination"@[0] == 'E');
        assert("ExDestination"@[1] == 'x');
        assert("ExecID"@.len() == 6);
        assert("ExecID"@[0] == 'E');
        assert("ExecInst"@.len() == 8);
        assert("ExecInst"@[0] == 'E');
        assert("ExecInst"@[1] == 'x');
        assert("ExecInst"@[4] == 'I');
        assert("ExecType"@.len() == 8);
        assert("ExecType"@[0] == 'E');
        assert("ExecType"@[1] == 'x');
        assert("ExecType"@[4] == 'T');
        assert("GapFillFlag"@.len() == 11);
        assert("GapFillFlag"@[0] == 'G');
        assert("HeartBtInt"@.len() == 10);
        assert("HeartBtInt"@[0] == 'H');
        assert("HopCompID"@.len() == 9);
        assert("HopCompID"@[0] == 'H');
        assert("HopRefID"@.len() == 8);
        assert("HopRefID"@[0] == 'H');
        assert("HopSendingTime"@.len() == 14);
        assert("HopSendingTime"@[0] == 'H');
        assert("LastMkt"@.len() == 7);
        assert("LastMkt"@[0] == 'L');
        assert("LastMkt"@[4] == 'M');
        assert("LastMsgSeqNumProcessed"@.len() == 22);
        assert("LastPx"@.len() == 6);
        assert("LastPx"@[0] == 'L');
        assert("LastQty"@.len() == 7);
        assert("LastQty"@[0] == 'L');
        assert("LastQty"@[4] == 'Q');
        assert("LastShares"@.len() == 10);
        assert("LastShares"@[0] == 'L');
        assert("LeavesQty"@.len() == 9);
        assert("LeavesQty"@[0] == 'L');
        assert("MessageEncoding"@.len() == 15);
        assert("MessageEncoding"@[0] == 'M');
        assert("MsgSeqNum"@.len() == 9);
        assert("MsgSeqNum"@[0] == 'M');
        assert("MsgType"@.len() == 7);
        assert("MsgType"@[0] == 'M');
        assert("NewSeqNo"@.len() == 8);
        assert("NewSeqNo"@[0] == 'N');
        assert("NoHops"@.len() == 6);
        assert("NoHops"@[0] == 'N');
        assert("OnBehalfOfCompID"@.len() == 16);
        assert("OnBehalfOfCompID"@[0] == 'O');
        assert("OnBehalfOfLocationID"@.len() == 20);
        assert("OnBehalfOfSubID"@.len() == 15);
        assert("OnBehalfOfSubID"@[0] == 'O');
        assert("OnBehalfOfSubID"@[1] == 'n');
        assert("OrdStatus"@.len() == 9);
        assert("OrdStatus"@[0] == 'O');
        assert("OrdType"@.len() == 7);
        assert("OrdType"@[0] == 'O');
        assert("OrdType"@[3] == 'T');
        assert("OrderID"@.len() == 7);
        assert("OrderID"@[0] == 'O');
        assert("OrderID"@[3] == 'e');
        assert("OrderQty"@.len() == 8);
        assert("OrderQty"@[0] == 'O');
        assert("OrigClOrdID"@.len() == 11);
        assert("OrigClOrdID"@[0] == 'O');
        assert("OrigSendingTime"@.len() == 15);
        assert("OrigSendingTime"@[0] == 'O');
        assert("OrigSendingTime"@[1] == 'r');
        assert("PossDupFlag"@.len() == 11);
        assert("PossDupFlag"@[0] == 'P');
        assert("PossResend"@.len() == 10);
        assert("PossResend"@[0] == 'P');
        assert("Price"@.len() == 5);
        assert("Price"@[0] == 'P');
        assert("RawData"@.len() == 7);
        assert("RawData"@[0] == 'R');
        assert("RawDataLength"@.len() == 13);
        assert("RawDataLength"@[0] == 'R');
        assert("RefSeqNum"@.len() == 9);
        assert("RefSeqNum"@[0] == 'R');
        assert("SecureData"@.len() == 10);
        assert("SecureData"@[0] == 'S');
        assert("SecureDataLen"@.len() == 13);
        assert("SecureDataLen"@[0] == 'S');
        assert("SenderCompID"@.len() == 12);
        assert("SenderCompID"@[0] == 'S');
        assert("SenderLocationID"@.len() == 16);
        assert("SenderLocationID"@[0] == 'S');
        assert("SenderSubID"@.len() == 11);
        assert("SenderSubID"@[0] == 'S');
        assert("SenderSubID"@[4] == 'e');
        assert("SendingTime"@.len() == 11);
        assert("SendingTime"@[0] == 'S');
        assert("SendingTime"@[4] == 'i');
        assert("Side"@.len() == 4);
        assert("Side"@[0] == 'S');
        assert("Signature"@.len() == 9);
        assert("Signature"@[0] == 'S');
        assert("SignatureLength"@.len() == 15);
        assert("SignatureLength"@[0] == 'S');
        assert("Symbol"@.len() == 6);
        assert("Symbol"@[0] == 'S');
        assert("TargetCompID"@.len() == 12);
        assert("TargetCompID"@[0] == 'T');
        assert("TargetCompID"@[1] == 'a');
        assert("TargetLocationID"@.len() == 16);
        assert("TargetLocationID"@[0] == 'T');
        assert("TargetSubID"@.len() == 11);
        assert("TargetSubID"@[0] == 'T');
        assert("TargetSubID"@[1] == 'a');
        assert("TestReqID"@.len() == 9);
        assert("TestReqID"@[0] == 'T');
        assert("Text"@.len() == 4);
        assert("Text"@[0] == 'T');
        assert("TimeInForce"@.len() == 11);
        assert("TimeInForce"@[0] == 'T');
        assert("TimeInForce"@[1] == 'i');
        assert("TransactTime"@.len() == 12);
        assert("TransactTime"@[0] == 'T');
        assert("TransactTime"@[1] == 'r');
        assert("XmlData"@.len() == 7);
        assert("XmlData"@[0] == 'X');
        assert("XmlDataLen"@.len() == 10);
        assert("XmlDataLen"@[0] == 'X');
    }
    push_definition(&mut d, 1, "Account", "String", "Account mnemonic as agreed between buy and sell sides, e.g. broker and institution or investor/intermediary and fund manager.", Some("FIX.2.7"), false, no_values());
    push_definition(&mut d, 6, "AvgPx", "Price", "Calculated average price of all fills on this order.", Some("FIX.2.7"), false, no_values());
    push_definition(&mut d, 7, "BeginSeqNo", "SeqNum", "Message sequence number of first message in range to be resent", Some("FIX.2.7"), false, no_values());
    push_definition(&mut d, 8, "BeginString", "String", "Identifies beginning of new message and protocol version. ALWAYS FIRST FIELD IN MESSAGE. (Always unencrypted)", Some("FIX.2.7"), false, no_values());
    push_definition(&mut d, 9, "BodyLength", "Length", "Message length, in bytes, forward to the CheckSum field. ALWAYS SECOND FIELD IN MESSAGE. (Always unencrypted)", Some("FIX.2.7"), false, no_values());
    push_definition(&mut d, 10, "CheckSum", "String", "Three byte, simple checksum. ALWAYS LAST FIELD IN MESSAGE; i.e. serves, with the trailing <SOH>, as the end-of-message delimiter. Always defined as three characters. (Always unencrypted)", Some("FIX.2.7"), false, no_values());
    push_definition(&mut d, 11, "ClOrdID", "String", "Unique identifier for Order as assigned by the buy-side (institution, broker, intermediary etc.).", Some("FIX.2.7"), false, no_values());
    push_definition(&mut d, 14, "CumQty", "Qty", "Total quantity filled.", Some("FIX.2.7"), false, no_values());
    push_definition(&mut d, 16, "EndSeqNo", "SeqNum", "Message sequence number of last message in range to be resent.", Some("FIX.2.7"), false, no_values());
    push_definition(&mut d, 17, "ExecID", "String", "Unique identifier of execution message as assigned by sell-side (broker, exchange, ECN).", Some("FIX.2.7"), false, no_values());
    let mut values = no_values();
    push_value(&mut values, 18, "1", "NotHeld");
    push_value(&mut values, 18, "2", "Work");
    push_value(&mut values, 18, "3", "GoAlong");
    push_value(&mut values, 18, "4", "OverTheDay");
    push_value(&mut values, 18, "5", "Held");
    push_value(&mut values, 18, "6", "ParticipateDoNotInitiate");
    push_value(&mut values, 18, "7", "StrictScale");
    push_value(&mut values, 18, "8", "TryToScale");
    push_value(&mut values, 18, "9", "StayOnBidSide");
    push_value(&mut values, 18, "0", "StayOnOfferSide");
    push_value(&mut values, 18, "A", "NoCross");
    push_value(&mut values, 18, "B", "OKToCross");
    push_value(&mut values, 18, "C", "CallFirst");
    push_value(&mut values, 18, "D", "PercentOfVolume");
    push_value(&mut values, 18, "E", "DoNotIncrease");
    push_value(&mut values, 18, "F", "DoNotReduce");
    push_value(&mut values, 18, "G", "AllOrNone");
    push_definition(&mut d, 18, "ExecInst", "MultipleCharValue", "Instructions for order handling on exchange trading floor.", Some("FIX.2.7"), false, values);
    push_definition(&mut d, 30, "LastMkt", "Exchange", "Market of execution for last fill.", Some("FIX.2.7"), false, no_values());
    push_definition(&mut d, 31, "LastPx", "Price", "Price of this (last) fill.", Some("FIX.2.7"), false, no_values());
    if v42 {
        push_definition(&mut d, 32, "LastShares", "Qty", "Quantity of shares bought/sold on this (last) fill.", Some("FIX.2.7"), false, no_values());
    } else {
        push_definition(&mut d, 32, "LastQty", "Qty", "Quantity (e.g. shares) bought/sold on this (last) fill.", Some("FIX.2.7"), false, no_values());
    }
    push_definition(&mut d, 34, "MsgSeqNum", "SeqNum", "Integer message sequence number.", Some("FIX.2.7"), false, no_values());
    let mut values = no_values();
    push_value(&mut values, 35, "0", "Heartbeat");
    push_value(&mut values, 35, "1", "TestRequest");
    push_value(&mut values, 35, "2", "ResendRequest");
    push_value(&mut values, 35, "3", "Reject");
    push_value(&mut values, 35, "4", "SequenceReset");
    push_value(&mut values, 35, "5", "Logout");
    push_value(&mut values, 35, "8", "ExecutionReport");
    push_value(&mut values, 35, "9", "OrderCancelReject");
    push_value(&mut values, 35, "A", "Logon");
    push_value(&mut values, 35, "D", "NewOrderSingle");
    push_value(&mut values, 35, "F", "OrderCancelRequest");
    push_value(&mut values, 35, "G", "OrderCancelReplaceRequest");
    push_definition(&mut d, 35, "MsgType", "String", "Defines message type. ALWAYS THIRD FIELD IN MESSAGE. (Always unencrypted)", Some("FIX.2.7"), false, values);
    push_definition(&mut d, 36, "NewSeqNo", "SeqNum", "New sequence number", Some("FIX.2.7"), false, no_values());
    push_definition(&mut d, 37, "OrderID", "String", "Unique identifier for Order as assigned by sell-side (broker, exchange, ECN).", Some("FIX.2.7"), false, no_values());
    push_definition(&mut d, 38, "OrderQty", "Qty", "Quantity ordered.", Some("FIX.2.7"), false, no_values());
    let mut values = no_values();
    push_value(&mut values, 39, "0", "New");
    push_value(&mut values, 39, "1", "PartiallyFilled");
    push_value(&mut values, 39, "2", "Filled");
    push_value(&mut values, 39, "3", "DoneForDay");
    push_value(&mut values, 39, "4", "Canceled");
    push_value(&mut values, 39, "5", "Replaced");
    push_value(&mut values, 39, "6", "PendingCancel");
    push_value(&mut values, 39, "7", "Stopped");
    push_value(&mut values, 39, "8", "Rejected");
    push_value(&mut values, 39, "9", "Suspended");
    push_value(&mut values, 39, "A", "PendingNew");
    push_value(&mut values, 39, "B", "Calculated");
    push_value(&mut values, 39, "C", "Expired");
    push_value(&mut values, 39, "D", "AcceptedForBidding");
    push_value(&mut values, 39, "E", "PendingReplace");
    push_definition(&mut d, 39, "OrdStatus", "char", "Identifies current status of order.", Some("FIX.2.7"), false, values);
    let mut values = no_values();
    push_value(&mut values, 40, "1", "Market");
    push_value(&mut values, 40, "2", "Limit");
    push_value(&mut values, 40, "3", "Stop");
    push_value(&mut values, 40, "4", "StopLimit");
    push_definition(&mut d, 40, "OrdType", "char", "Order type.", Some("FIX.2.7"), false, values);
    push_definition(&mut d, 41, "OrigClOrdID", "String", "ClOrdID of the previous order (NOT the initial order of the day) as assigned by the institution, used to identify the previous order in cancel and cancel/replace requests.", Some("FIX.2.7"), false, no_values());
    let mut values = no_values();
    push_value(&mut values, 43, "Y", "PossibleDuplicate");
    push_value(&mut values, 43, "N", "OriginalTransmission");
    push_definition(&mut d, 43, "PossDupFlag", "Boolean", "Indicates possible retransmission of message with this sequence number", Some("FIX.2.7"), false, values);
    push_definition(&mut d, 44, "Price", "Price", "Price per unit of quantity (e.g. per share)", Some("FIX.2.7"), false, no_values());
    push_definition(&mut d, 45, "RefSeqNum", "SeqNum", "Reference message sequence number", Some("FIX.2.7"), false, no_values());
    push_definition(&mut d, 49, "SenderCompID", "String", "Assigned value used to identify firm sending message.", Some("FIX.2.7"), false, no_values());
    push_definition(&mut d, 50, "SenderSubID", "String", "Assigned value used to identify specific message originator (desk, trader, etc.)", Some("FIX.2.7"), false, no_values());
    push_definition(&mut d, 52, "SendingTime", "UTCTimestamp", "Time of message transmission (always expressed in UTC (Universal Time Coordinated, also known as \"GMT\"))", Some("FIX.2.7"), false, no_values());
    let mut values = no_values();
    push_value(&mut values, 54, "1", "Buy");
    push_value(&mut values, 54, "2", "Sell");
    push_value(&mut values, 54, "3", "BuyMinus");
    push_value(&mut values, 54, "4", "SellPlus");
    push_value(&mut values, 54, "5", "SellShort");
    push_value(&mut values, 54, "6", "SellShortExempt");
    push_value(&mut values, 54, "7", "Undisclosed");
    push_value(&mut values, 54, "8", "Cross");
    push_value(&mut values, 54, "9", "CrossShort");
    push_definition(&mut d, 54, "Side", "char", "Side of order", Some("FIX.2.7"), false, values);
    push_definition(&mut d, 55, "Symbol", "String", "Ticker symbol.", Some("FIX.2.7"), false, no_values());
    push_definition(&mut d, 56, "TargetCompID", "String", "Assigned value used to identify receiving firm.", Some("FIX.2.7"), false, no_values());
    push_definition(&mut d, 57, "TargetSubID", "String", "Assigned value used to identify specific individual or unit intended to receive message.", Some("FIX.2.7"), false, no_values());
    push_definition(&mut d, 58, "Text", "String", "Free format text string", Some("FIX.2.7"), false, no_values());
    let mut values = no_values();
    push_value(&mut values, 59, "0", "Day");
    push_value(&mut values, 59, "1", "GoodTillCancel");
    push_value(&mut values, 59, "2", "AtTheOpening");
    push_value(&mut values, 59, "3", "ImmediateOrCancel");
    push_value(&mut values, 59, "4", "FillOrKill");
    push_value(&mut values, 59, "5", "GoodTillCrossing");
    push_value(&mut values, 59, "6", "GoodTillDate");
    push_definition(&mut d, 59, "TimeInForce", "char", "Specifies how long the order remains in effect.", Some("FIX.2.7"), false, values);
    push_definition(&mut d, 60, "TransactTime", "UTCTimestamp", "Time of execution/order creation (expressed in UTC (Universal Time Coordinated, also known as \"GMT\"))", None, false, no_values());
    push_definition(&mut d, 70, "AllocID", "String", "Unique identifier for allocation message.", None, false, no_values());
    push_definition(&mut d, 89, "Signature", "data", "Electronic signature", None, true, no_values());
    push_definition(&mut d, 90, "SecureDataLen", "Length", "Length of encrypted message", None, false, no_values());
    push_definition(&mut d, 91, "SecureData", "data", "Actual encrypted data stream", None, true, no_values());
    push_definition(&mut d, 93, "SignatureLength", "Length", "Number of bytes in signature field.", None, false, no_values());
    push_definition(&mut d, 95, "RawDataLength", "Length", "Number of bytes in raw data field.", None, false, no_values());
    push_definition(&mut d, 96, "RawData", "data", "Unformatted raw data, can include bitmaps, word processor documents, etc.", None, true, no_values());
    let mut values = no_values();
    push_value(&mut values, 97, "Y", "PossibleResend");
    push_value(&mut values, 97, "N", "OriginalTransmission");
    push_definition(&mut d, 97, "PossResend", "Boolean", "Indicates that message may contain information that has been sent under another sequence number.", None, false, values);
    push_definition(&mut d, 98, "EncryptMethod", "int", "Method of encryption.", Some("FIX.2.7"), false, no_values());
    push_definition(&mut d, 100, "ExDestination", "Exchange", "Execution destination as defined by institution when order is entered.", None, false, no_values());
    push_definition(&mut d, 108, "HeartBtInt", "int", "Heartbeat interval (seconds)", Some("FIX.2.7"), false, no_values());
    push_definition(&mut d, 112, "TestReqID", "String", "Identifier included in Test Request message to be returned in resulting Heartbeat", None, false, no_values());
    push_definition(&mut d, 115, "OnBehalfOfCompID", "String", "Assigned value used to identify firm originating message if the message was delivered by a third party.", None, false, no_values());
    push_definition(&mut d, 116, "OnBehalfOfSubID", "String", "Assigned value used to identify specific message originator if the message was delivered by a third party.", None, false, no_values());
    push_definition(&mut d, 122, "OrigSendingTime", "UTCTimestamp", "Original time of message transmission when transmitting orders as the result of a resend request.", None, false, no_values());
    push_definition(&mut d, 123, "GapFillFlag", "Boolean", "Indicates that the Sequence Reset message is replacing administrative or application messages which will not be resent.", Some("FIX.2.7"), false, no_values());
    push_definition(&mut d, 128, "DeliverToCompID", "String", "Assigned value used to identify the firm targeted to receive the message if the message is delivered by a third party.", None, false, no_values());
    push_definition(&mut d, 129, "DeliverToSubID", "String", "Assigned value used to identify specific message recipient if the message is delivered by a third party.", None, false, no_values());
    push_definition(&mut d, 142, "SenderLocationID", "String", "Assigned value used to identify specific message originator's location.", None, false, no_values());
    push_definition(&mut d, 143, "TargetLocationID", "String", "Assigned value used to identify specific message destination's location.", None, false, no_values());
    push_definition(&mut d, 144, "OnBehalfOfLocationID", "String", "Assigned value used to identify specific message originator's location if the message was delivered by a third party.", None, false, no_values());
    push_definition(&mut d, 145, "DeliverToLocationID", "String", "Assigned value used to identify specific message recipient's location if the message was delivered by a third party.", None, false, no_values());
    let mut values = no_values();
    push_value(&mut values, 150, "0", "New");
    push_value(&mut values, 150, "3", "DoneForDay");
    push_value(&mut values, 150, "4", "Canceled");
    push_value(&mut values, 150, "5", "Replaced");
    push_value(&mut values, 150, "6", "PendingCancel");
    push_value(&mut values, 150, "7", "Stopped");
    push_value(&mut values, 150, "8", "Rejected");
    push_value(&mut values, 150, "9", "Suspended");
    push_value(&mut values, 150, "A", "PendingNew");
    push_value(&mut values, 150, "B", "Calculated");
    push_value(&mut values, 150, "C", "Expired");
    push_value(&mut values, 150, "D", "Restated");
    push_value(&mut values, 150, "E", "PendingReplace");
    push_value(&mut values, 150, "F", "Trade");
    push_definition(&mut d, 150, "ExecType", "char", "Describes the specific Execution Report.", None, false, values);
    push_definition(&mut d, 151, "LeavesQty", "Qty", "Quantity open for further execution.", None, false, no_values());
    push_definition(&mut d, 212, "XmlDataLen", "Length", "Length of the XmlData data block.", None, false, no_values());
    push_definition(&mut d, 213, "XmlData", "data", "Actual XML data stream.", None, true, no_values());
    push_definition(&mut d, 347, "MessageEncoding", "String", "Type of message encoding (non-ASCII (non-English) characters) used in a message's \"Encoded\" fields.", None, false, no_values());
    push_definition(&mut d, 369, "LastMsgSeqNumProcessed", "SeqNum", "The last MsgSeqNum value received by the FIX engine and processed by downstream application.", None, false, no_values());
    let mut values = no_values();
    push_value(&mut values, 434, "1", "OrderCancelRequest");
    push_value(&mut values, 434, "2", "OrderCancelReplaceRequest");
    push_definition(&mut d, 434, "CxlRejResponseTo", "char", "Identifies the type of request that a Cancel Reject is in response to.", None, false, values);
    if !v42 {
        push_definition(&mut d, 627, "NoHops", "NumInGroup", "Number of HopCompID entries in repeating group.", None, false, no_values());
        push_definition(&mut d, 628, "HopCompID", "String", "Assigned value used to identify the third party firm which delivered a specific message either from the firm which originated the message or from another third party.", None, false, no_values());
        push_definition(&mut d, 629, "HopSendingTime", "UTCTimestamp", "Time that HopCompID sent the message.", None, false, no_values());
        push_definition(&mut d, 630, "HopRefID", "SeqNum", "Reference identifier assigned by HopCompID associated with the message sent.", None, false, no_values());
    }
    d
}

fn member(fields: &OrchestrationFieldCollection, tag: usize, presence: Presence, depth: u32) -> MessageField {
    let definition = match fields.try_field(tag) {
        Some(f) => f.clone(),
        None => OrchestrationField::invalid(),
    };
    MessageField::new(definition, presence, depth)
}

/// The members of the standard header.
fn header(fields: &OrchestrationFieldCollection, version: Version) -> Vec<MessageField> {
    let mut m: Vec<MessageField> = Vec::new();
    m.push(member(fields, 8, Presence::Required, 0));
    m.push(member(fields, 9, Presence::Required, 0));
    m.push(member(fields, 35, Presence::Required, 0));
    m.push(member(fields, 49, Presence::Required, 0));
    m.push(member(fields, 56, Presence::Required, 0));
    m.push(member(fields, 115, Presence::Optional, 0));
    m.push(member(fields, 128, Presence::Optional, 0));
    m.push(member(fields, 90, Presence::Optional, 0));
    m.push(member(fields, 91, Presence::Optional, 0));
    m.push(member(fields, 34, Presence::Required, 0));
    m.push(member(fields, 50, Presence::Optional, 0));
    m.push(member(fields, 142, Presence::Optional, 0));
    m.push(member(fields, 57, Presence::Optional, 0));
    m.push(member(fields, 143, Presence::Optional, 0));
    m.push(member(fields, 116, Presence::Optional, 0));
    m.push(member(fields, 144, Presence::Optional, 0));
    m.push(member(fields, 129, Presence::Optional, 0));
    m.push(member(fields, 145, Presence::Optional, 0));
    m.push(member(fields, 43, Presence::Optional, 0));
    m.push(member(fields, 97, Presence::Optional, 0));
    m.push(member(fields, 52, Presence::Required, 0));
    m.push(member(fields, 122, Presence::Optional, 0));
    m.push(member(fields, 212, Presence::Optional, 0));
    m.push(member(fields, 213, Presence::Optional, 0));
    m.push(member(fields, 347, Presence::Optional, 0));
    m.push(member(fields, 369, Presence::Optional, 0));
    if version != Version::Fix42 {
        m.push(member(fields, 627, Presence::Optional, 0));
        m.push(member(fields, 628, Presence::Optional, 1));
        m.push(member(fields, 629, Presence::Optional, 1));
        m.push(member(fields, 630, Presence::Optional, 1));
    }
    m
}

/// Appends the members of the standard trailer.
fn trailer(fields: &OrchestrationFieldCollection, m: &mut Vec<MessageField>) {
    m.push(member(fields, 93, Presence::Optional, 0));
    m.push(member(fields, 89, Presence::Optional, 0));
    m.push(member(fields, 10, Presence::Required, 0));
}

fn push_message(
    messages: &mut Vec<Message>,
    name: &'static str,
    msg_type: &'static str,
    category: &'static str,
    synopsis: &'static str,
    added: Option<&'static str>,
    fields: Vec<MessageField>,
)
    ensures
        message_entries(final(messages)@) == message_entries(old(messages)@).push(
            (name@, msg_type@, category@, synopsis@, added),
        ),
{
    let pedigree = Pedigree {
        added,
        added_ep: None,
        updated: None,
        updated_ep: None,
        deprecated: None,
        deprecated_ep: None,
    };
    messages.push(Message { name, msg_type, category, synopsis, pedigree, fields });
    assert(message_entries(messages@) =~= message_entries(old(messages)@).push(
        (name@, msg_type@, category@, synopsis@, added),
    ));
}

/// The message definitions of a version, in display order.
pub fn message_definitions(version: Version, fields: &OrchestrationFieldCollection) -> (r: MessageCollection)
    ensures
        message_entries(r@) == message_table(),
{
    let mut messages: Vec<Message> = Vec::new();
    assert(message_entries(messages@) =~= Seq::<MessageEntry>::empty());
    let mut m = header(fields, version);
    m.push(member(fields, 112, Presence::Optional, 0));
    trailer(fields, &mut m);
    push_message(&mut messages, "Heartbeat", "0", "Session", "The Heartbeat monitors the status of the communication link and identifies when the last of a string of messages was not received.", Some("FIX.2.7"), m);
    let mut m = header(fields, version);
    m.push(member(fields, 112, Presence::Required, 0));
    trailer(fields, &mut m);
    push_message(&mut messages, "TestRequest", "1", "Session", "The test request message forces a heartbeat from the opposing application.", Some("FIX.2.7"), m);
    let mut m = header(fields, version);
    m.push(member(fields, 7, Presence::Required, 0));
    m.push(member(fields, 16, Presence::Required, 0));
    trailer(fields, &mut m);
    push_message(&mut messages, "ResendRequest", "2", "Session", "The resend request is sent by the receiving application to initiate the retransmission of messages.", Some("FIX.2.7"), m);
    let mut m = header(fields, version);
    m.push(member(fields, 45, Presence::Required, 0));
    m.push(member(fields, 58, Presence::Optional, 0));
    trailer(fields, &mut m);
    push_message(&mut messages, "Reject", "3", "Session", "The reject message should be issued when a message is received but cannot be properly processed due to a session-level rule violation.", Some("FIX.2.7"), m);
    let mut m = header(fields, version);
    m.push(member(fields, 123, Presence::Optional, 0));
    m.push(member(fields, 36, Presence::Required, 0));
    trailer(fields, &mut m);
    push_message(&mut messages, "SequenceReset", "4", "Session", "The sequence reset message is used by the sending application to reset the incoming sequence number on the opposing side.", Some("FIX.2.7"), m);
    let mut m = header(fields, version);
    m.push(member(fields, 58, Presence::Optional, 0));
    trailer(fields, &mut m);
    push_message(&mut messages, "Logout", "5", "Session", "The logout message initiates or confirms the termination of a FIX session.", Some("FIX.2.7"), m);
    let mut m = header(fields, version);
    m.push(member(fields, 37, Presence::Required, 0));
    m.push(member(fields, 11, Presence::Optional, 0));
    m.push(member(fields, 41, Presence::Optional, 0));
    m.push(member(fields, 17, Presence::Required, 0));
    m.push(member(fields, 150, Presence::Required, 0));
    m.push(member(fields, 39, Presence::Required, 0));
    m.push(member(fields, 1, Presence::Optional, 0));
    m.push(member(fields, 55, Presence::Required, 0));
    m.push(member(fields, 54, Presence::Required, 0));
    m.push(member(fields, 38, Presence::Optional, 0));
    m.push(member(fields, 40, Presence::Optional, 0));
    m.push(member(fields, 44, Presence::Optional, 0));
    m.push(member(fields, 59, Presence::Optional, 0));
    m.push(member(fields, 32, Presence::Optional, 0));
    m.push(member(fields, 31, Presence::Optional, 0));
    m.push(member(fields, 151, Presence::Required, 0));
    m.push(member(fields, 14, Presence::Required, 0));
    m.push(member(fields, 6, Presence::Required, 0));
    m.push(member(fields, 60, Presence::Optional, 0));
    m.push(member(fields, 58, Presence::Optional, 0));
    trailer(fields, &mut m);
    push_message(&mut messages, "ExecutionReport", "8", "SingleGeneralOrderHandling", "The execution report message is used to confirm the receipt of an order, confirm changes to an existing order, relay order status information, relay fill information on working orders and reject orders.", Some("FIX.2.7"), m);
    let mut m = header(fields, version);
    m.push(member(fields, 37, Presence::Required, 0));
    m.push(member(fields, 11, Presence::Required, 0));
    m.push(member(fields, 41, Presence::Required, 0));
    m.push(member(fields, 39, Presence::Required, 0));
    m.push(member(fields, 434, Presence::Required, 0));
    m.push(member(fields, 58, Presence::Optional, 0));
    trailer(fields, &mut m);
    push_message(&mut messages, "OrderCancelReject", "9", "SingleGeneralOrderHandling", "The order cancel reject message is issued by the broker upon receipt of a cancel request or cancel/replace request message which cannot be honored.", Some("FIX.2.7"), m);
    let mut m = header(fields, version);
    m.push(member(fields, 98, Presence::Required, 0));
    m.push(member(fields, 108, Presence::Required, 0));
    trailer(fields, &mut m);
    push_message(&mut messages, "Logon", "A", "Session", "The logon message authenticates a user establishing a connection to a remote system.", Some("FIX.2.7"), m);
    let mut m = header(fields, version);
    m.push(member(fields, 11, Presence::Required, 0));
    m.push(member(fields, 1, Presence::Optional, 0));
    m.push(member(fields, 18, Presence::Optional, 0));
    m.push(member(fields, 100, Presence::Optional, 0));
    m.push(member(fields, 55, Presence::Required, 0));
    m.push(member(fields, 54, Presence::Required, 0));
    m.push(member(fields, 60, Presence::Required, 0));
    m.push(member(fields, 38, Presence::Optional, 0));
    m.push(member(fields, 40, Presence::Required, 0));
    m.push(member(fields, 44, Presence::Optional, 0));
    m.push(member(fields, 59, Presence::Optional, 0));
    m.push(member(fields, 58, Presence::Optional, 0));
    trailer(fields, &mut m);
    push_message(&mut messages, "NewOrderSingle", "D", "SingleGeneralOrderHandling", "The new order message type is used by institutions wishing to electronically submit securities and forex orders to a broker for execution.", Some("FIX.2.7"), m);
    let mut m = header(fields, version);
    m.push(member(fields, 41, Presence::Required, 0));
    m.push(member(fields, 37, Presence::Optional, 0));
    m.push(member(fields, 11, Presence::Required, 0));
    m.push(member(fields, 55, Presence::Required, 0));
    m.push(member(fields, 54, Presence::Required, 0));
    m.push(member(fields, 60, Presence::Required, 0));
    m.push(member(fields, 38, Presence::Optional, 0));
    m.push(member(fields, 58, Presence::Optional, 0));
    trailer(fields, &mut m);
    push_message(&mut messages, "OrderCancelRequest", "F", "SingleGeneralOrderHandling", "The order cancel request message requests the cancellation of all of the remaining quantity of an existing order.", Some("FIX.2.7"), m);
    let mut m = header(fields, version);
    m.push(member(fields, 37, Presence::Optional, 0));
    m.push(member(fields, 41, Presence::Required, 0));
    m.push(member(fields, 11, Presence::Required, 0));
    m.push(member(fields, 1, Presence::Optional, 0));
    m.push(member(fields, 18, Presence::Optional, 0));
    m.push(member(fields, 100, Presence::Optional, 0));
    m.push(member(fields, 55, Presence::Required, 0));
    m.push(member(fields, 54, Presence::Required, 0));
    m.push(member(fields, 60, Presence::Required, 0));
    m.push(member(fields, 38, Presence::Optional, 0));
    m.push(member(fields, 40, Presence::Required, 0));
    m.push(member(fields, 44, Presence::Optional, 0));
    m.push(member(fields, 59, Presence::Optional, 0));
    m.push(member(fields, 58, Presence::Optional, 0));
    trailer(fields, &mut m);
    push_message(&mut messages, "OrderCancelReplaceRequest", "G", "SingleGeneralOrderHandling", "The order cancel/replace request is used to change the parameters of an existing order.", Some("FIX.2.7"), m);
    MessageCollection::new(messages)
}

} // verus!
