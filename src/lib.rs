//! Codec, dictionary and order-state engine for the FIX tag/value protocol.

pub mod error;
pub mod field;
pub mod field_collection;
pub mod dictionary;
pub mod tags;
pub mod catalog;
pub mod fix_4_2;
pub mod fix_4_4;
pub mod fix_5_0sp2;
pub mod message;
pub mod order;
pub mod order_book;
pub mod order_report;
