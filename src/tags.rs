//! Tags and enumerated values of the fields that the codec and the order engine read.
use vstd::prelude::*;

verus! {

pub const ACCOUNT: u32 = 1;
pub const AVG_PX: u32 = 6;
pub const BEGIN_STRING: u32 = 8;
pub const BODY_LENGTH: u32 = 9;
pub const CHECK_SUM: u32 = 10;
pub const CL_ORD_ID: u32 = 11;
pub const CUM_QTY: u32 = 14;
pub const EXEC_INST: u32 = 18;
pub const MSG_SEQ_NUM: u32 = 34;
pub const MSG_TYPE: u32 = 35;
pub const ORDER_QTY: u32 = 38;
pub const ORD_STATUS: u32 = 39;
pub const ORD_TYPE: u32 = 40;
pub const ORIG_CL_ORD_ID: u32 = 41;
pub const PRICE: u32 = 44;
pub const SENDER_COMP_ID: u32 = 49;
pub const SIDE: u32 = 54;
pub const SYMBOL: u32 = 55;
pub const TARGET_COMP_ID: u32 = 56;
pub const TIME_IN_FORCE: u32 = 59;
pub const SIGNATURE: u32 = 89;
pub const SIGNATURE_LENGTH: u32 = 93;
pub const EX_DESTINATION: u32 = 100;
pub const EXEC_TYPE: u32 = 150;

} // verus!
