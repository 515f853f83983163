//! The errors the library reports.
use vstd::prelude::*;

verus! {

/// The standard library's description of invalid UTF-8, carried inside [`Error::InvalidUtf8`].
#[verifier::external_type_specification]
#[verifier::external_body]
pub struct ExUtf8Error(std::str::Utf8Error);

/// Every failure that the codec, the order engine and the order book report.
#[derive(Debug, PartialEq)]
pub enum Error {
    IoError,
    DataFieldWithNoPrecedingSizeField,
    DataFieldWithNonNumericPreviousField(String),
    DataFieldWithNoTrailingSeparator,
    InvalidUtf8(std::str::Utf8Error),
    TagParseFailed(String),
    MessageDoesNotContainMsgType,
    UnknownOrder(String),
    MessageDoesNotContainFieldWithTag(u32),
    UnsupportedMsgType(String),
    OrderIndexOutOfRange(usize),
    OrderBookAlreadyContainsOrderWithKey(String),
    OrderBookDoesNotContainOrderWithKey(String),
    InvalidOrderBookFields(String),
}

} // verus!
