use crocofix::error::Error;
use crocofix::field::Field;
use crocofix::fix_4_4;
use crocofix::message::{EncodeOptions, Message, parse_decimal};
use crocofix::order_book::OrderBook;

const S1: &str = "8=FIX.4.4\u{0001}9=149\u{0001}35=D\u{0001}49=INITIATOR\u{0001}56=ACCEPTOR\u{0001}34=2752\u{0001}52=20200114-08:13:20.041\u{0001}11=61\u{0001}70=60\u{0001}100=AUTO\u{0001}55=BHP.AX\u{0001}54=1\u{0001}60=20200114-08:12:59.397\u{0001}38=10000\u{0001}40=2\u{0001}44=20\u{0001}59=1\u{0001}10=021\u{0001}";

fn field_list(message: &Message) -> Vec<Field> {
    let fields = message.fields();
    (0..fields.len()).map(|i| fields.field_at(i).clone()).collect()
}

#[test]
fn every_split_decodes_like_the_whole() {
    let bytes = S1.as_bytes();
    let mut whole = Message::default();
    let expected = whole.decode(bytes).unwrap();
    assert!(expected.complete);
    for split in 0..=bytes.len() {
        let mut message = Message::default();
        let first = message.decode(&bytes[..split]).unwrap();
        assert!(!first.complete || split == bytes.len());
        let mut rest = bytes[first.consumed..split].to_vec();
        rest.extend_from_slice(&bytes[split..]);
        let second = message.decode(&rest).unwrap();
        assert_eq!(first.consumed + second.consumed, bytes.len());
        assert!(second.complete || first.complete);
        assert_eq!(field_list(&message), field_list(&whole));
        assert_eq!(message.decoded_checksum(), Some(21));
    }
}

#[test]
fn split_at_108_stops_at_the_last_field_boundary() {
    let bytes = S1.as_bytes();
    let mut message = Message::default();
    let first = message.decode(&bytes[..108]).unwrap();
    assert!(!first.complete);
    assert_eq!(first.consumed, 100);
    assert_eq!(&bytes[first.consumed - 1..first.consumed], &[1u8]);
    let mut rest = bytes[first.consumed..108].to_vec();
    rest.extend_from_slice(&bytes[108..]);
    let second = message.decode(&rest).unwrap();
    assert!(second.complete);
    assert_eq!(message.fields.len(), 18);
}

#[test]
fn bytes_after_the_checksum_are_not_consumed() {
    let text = format!("{}8=FIX.4.4\u{0001}", S1);
    let mut message = Message::default();
    let result = message.decode(text.as_bytes()).unwrap();
    assert!(result.complete);
    assert_eq!(result.consumed, S1.len());
    assert_eq!(message.fields.len(), 18);
}

#[test]
fn a_message_without_checksum_is_incomplete() {
    let text = "8=FIX.4.4\u{0001}35=D\u{0001}";
    let mut message = Message::default();
    let result = message.decode(text.as_bytes()).unwrap();
    assert!(!result.complete);
    assert_eq!(result.consumed, text.len());
    assert_eq!(message.decoded_checksum(), None);
}

#[test]
fn empty_buffer_decodes_nothing() {
    let mut message = Message::default();
    let result = message.decode(&[]).unwrap();
    assert_eq!(result.consumed, 0);
    assert!(!result.complete);
    assert!(message.fields.is_empty());
}

#[test]
fn invalid_utf8_value_is_reported_and_message_kept() {
    let mut message = Message::default();
    message.decode("8=FIX.4.4\u{0001}".as_bytes()).unwrap();
    let bytes = [b'3', b'5', b'=', 0xff, 0x01];
    assert!(matches!(message.decode(&bytes), Err(Error::InvalidUtf8(_))));
    assert_eq!(message.fields.len(), 1);
}

#[test]
fn decoding_with_a_dictionary_reads_data_fields() {
    let text = "8=FIX.4.4\u{0001}95=3\u{0001}96=a\u{0001}b\u{0001}10=000\u{0001}";
    let mut message = Message::default();
    let result = message.decode_with(text.as_bytes(), &fix_4_4::fields()).unwrap();
    assert!(result.complete);
    assert_eq!(message.fields.field_at(2).value, "a\u{0001}b");
}

#[test]
fn encode_of_decode_gives_the_bytes_back() {
    let mut message = Message::default();
    message.decode(S1.as_bytes()).unwrap();
    let mut out = Vec::new();
    let written = message.encode(&mut out, EncodeOptions::default()).unwrap();
    assert_eq!(written, S1.len());
    assert_eq!(out, S1.as_bytes());
}

#[test]
fn encode_recomputes_wrong_length_and_checksum() {
    let wrong = S1.replace("9=149", "9=12").replace("10=021", "10=999");
    let mut message = Message::default();
    message.decode(wrong.as_bytes()).unwrap();
    let mut out = vec![b'x'];
    message.encode(&mut out, EncodeOptions::standard()).unwrap();
    assert_eq!(&out[1..], S1.as_bytes());
    assert_eq!(out[0], b'x');
}

#[test]
fn decimal_parsing() {
    assert_eq!(parse_decimal("0", 10), Some(0));
    assert_eq!(parse_decimal("4294967295", u32::MAX as u64), Some(4294967295));
    assert_eq!(parse_decimal("4294967296", u32::MAX as u64), None);
    assert_eq!(parse_decimal("", 10), None);
    assert_eq!(parse_decimal("1a", 10), None);
    assert_eq!(parse_decimal("+1", 10), None);
}

#[test]
fn duplicate_new_order_is_refused() {
    let mut message = Message::default();
    message.decode(S1.as_bytes()).unwrap();
    let mut book = OrderBook::default();
    book.process(&message).unwrap();
    assert_eq!(
        book.process(&message),
        Err(Error::OrderBookAlreadyContainsOrderWithKey("INITIATOR-ACCEPTOR-61".to_string()))
    );
    assert_eq!(book.orders().len(), 1);
    assert_eq!(book.orders()[0].key, "INITIATOR-ACCEPTOR-61");
    assert_eq!(book.orders()[0].fields.try_get(39), None);
}
