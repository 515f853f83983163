use crocofix::error::Error;
use crocofix::field::Field;
use crocofix::field_collection::FieldCollection;
use crocofix::message::{EncodeOptions, Message, format_checksum};



 
#[test]
fn decode_a_complete_message() -> Result<(), Error>
{
    let text = "8=FIX.4.4\u{0001}9=149\u{0001}35=D\u{0001}49=INITIATOR\u{0001}56=ACCEPTOR\u{0001}34=2752\u{0001}52=20200114-08:13:20.041\u{0001}11=61\u{0001}70=60\u{0001}100=AUTO\u{0001}55=BHP.AX\u{0001}54=1\u{0001}60=20200114-08:12:59.397\u{0001}38=10000\u{0001}40=2\u{0001}44=20\u{0001}59=1\u{0001}10=021\u{0001}";
    let mut message = Message::default();
    let result = message.decode(text.as_bytes())?;
    assert!(result.complete);
    assert_eq!(result.consumed, text.len());
    assert_eq!(message.fields.len(), 18);
    Ok(())
}

#[test]
fn decode_a_complete_message_in_two_pieces_aligned_on_a_field_boundary() -> Result<(), Error>
{
    let one = "8=FIX.4.4\u{0001}9=149\u{0001}35=D\u{0001}49=INITIATOR\u{0001}56=ACCEPTOR\u{0001}34=2752\u{0001}52=20200114-08:13:20.041\u{0001}11=61\u{0001}70=60\u{0001}100=AUTO\u{0001}55=BHP.AX\u{0001}";
    let two = "54=1\u{0001}60=20200114-08:12:59.397\u{0001}38=10000\u{0001}40=2\u{0001}44=20\u{0001}59=1\u{0001}10=021\u{0001}";
    let mut message = Message::default();
    let one_result = message.decode(one.as_bytes())?;
    assert!(!one_result.complete);
    assert_eq!(one_result.consumed, one.len());
    let two_result = message.decode(two.as_bytes())?;
    assert!(two_result.complete);
    assert_eq!(two_result.consumed, two.len());
    assert_eq!(message.fields.len(), 18);
    Ok(())
}

#[test]
fn decode_a_complete_message_in_two_pieces_not_aligned_on_a_field_boundary() -> Result<(), Error>
{
    let one = "8=FIX.4.4\u{0001}9=149\u{0001}35=D\u{0001}49=INITIATOR\u{0001}56=ACCEPTOR\u{0001}34=2752\u{0001}52=20200114-08:13:20.041\u{0001}11=61\u{0001}70=60\u{0001}100=AUTO\u{0001}55=B";
    let two = "55=BHP.AX\u{0001}54=1\u{0001}60=20200114-08:12:59.397\u{0001}38=10000\u{0001}40=2\u{0001}44=20\u{0001}59=1\u{0001}10=021\u{0001}";
    let mut message = Message::default();
    let one_result = message.decode(one.as_bytes())?;
    assert!(!one_result.complete);
    assert_eq!(one_result.consumed, one.len() - "55=B".len());
    let two_result = message.decode(two.as_bytes())?;
    assert!(two_result.complete);
    assert_eq!(two_result.consumed, two.len());
    assert_eq!(message.fields.len(), 18);
    Ok(())
}
  
#[test]
fn invalid_tag()
{
    let mut message = Message::default();
    assert!(matches!(message.decode("A=FIX.4.4\u{0001}".as_bytes()), Err(Error::TagParseFailed(_))));
    assert!(message.fields.is_empty());
}

#[test]
fn msg_type_lookup_fails_for_a_message_with_no_msg_type() -> Result<(), Error>
{
    let text = "8=FIX.4.4\u{0001}9=149\u{0001}49=INITIATOR\u{0001}56=ACCEPTOR\u{0001}34=2752\u{0001}52=20200114-08:13:20.041\u{0001}11=61\u{0001}70=60\u{0001}100=AUTO\u{0001}55=BHP.AX\u{0001}54=1\u{0001}60=20200114-08:12:59.397\u{0001}38=10000\u{0001}40=2\u{0001}44=20\u{0001}59=1\u{0001}10=021\u{0001}";
    let mut message = Message::default();
    message.decode(text.as_bytes())?;
    assert_eq!(message.msg_type(), None);
    Ok(())
}

#[test]
fn msg_type_lookup() -> Result<(), Error>
{
    let text = "8=FIX.4.4\u{0001}9=149\u{0001}35=D\u{0001}49=INITIATOR\u{0001}56=ACCEPTOR\u{0001}34=2752\u{0001}52=20200114-08:13:20.041\u{0001}11=61\u{0001}70=60\u{0001}100=AUTO\u{0001}55=BHP.AX\u{0001}54=1\u{0001}60=20200114-08:12:59.397\u{0001}38=10000\u{0001}40=2\u{0001}44=20\u{0001}59=1\u{0001}10=021\u{0001}";
    let mut message = Message::default();
    message.decode(text.as_bytes())?;
    assert_eq!(message.msg_type().map(|t| t.as_str()), Some("D"));
    Ok(())
}

#[test]
fn is_admin_is_false_for_a_non_admin_message() -> Result<(), Error>
{
    let text = "8=FIX.4.4\u{0001}9=149\u{0001}35=D\u{0001}49=INITIATOR\u{0001}56=ACCEPTOR\u{0001}34=2752\u{0001}52=20200114-08:13:20.041\u{0001}11=61\u{0001}70=60\u{0001}100=AUTO\u{0001}55=BHP.AX\u{0001}54=1\u{0001}60=20200114-08:12:59.397\u{0001}38=10000\u{0001}40=2\u{0001}44=20\u{0001}59=1\u{0001}10=021\u{0001}";
    let mut message = Message::default();
    message.decode(text.as_bytes())?;
    assert!(!message.is_admin());
    Ok(())
}

#[test]
fn is_admin_is_true_for_an_admin_message() -> Result<(), Error>
{
    let text = "8=FIX.4.4\u{0001}9=149\u{0001}35=A\u{0001}49=INITIATOR\u{0001}56=ACCEPTOR\u{0001}34=2752\u{0001}52=20200114-08:13:20.041\u{0001}11=61\u{0001}70=60\u{0001}100=AUTO\u{0001}55=BHP.AX\u{0001}54=1\u{0001}60=20200114-08:12:59.397\u{0001}38=10000\u{0001}40=2\u{0001}44=20\u{0001}59=1\u{0001}10=021\u{0001}";
    let mut message = Message::default();
    message.decode(text.as_bytes())?;
    assert!(message.is_admin());
    Ok(())
}

#[test]
fn encode_a_message() -> Result<(), Error>
{
    let expected = "8=FIX.4.4\u{0001}9=149\u{0001}35=D\u{0001}49=INITIATOR\u{0001}56=ACCEPTOR\u{0001}34=2752\u{0001}52=20200114-08:13:20.041\u{0001}11=61\u{0001}70=60\u{0001}100=AUTO\u{0001}55=BHP.AX\u{0001}54=1\u{0001}60=20200114-08:12:59.397\u{0001}38=10000\u{0001}40=2\u{0001}44=20\u{0001}59=1\u{0001}10=021\u{0001}";
    let mut message = Message::default();
    message.decode(expected.as_bytes())?;
    let mut actual = Vec::new();
    let result = message.encode(&mut actual, EncodeOptions::standard())?;
    assert!(result > 0);
    assert_eq!(actual, expected.as_bytes());
    Ok(())
}

#[test]
fn encode_does_not_add_checksum_if_it_is_not_present() -> Result<(), Error>
{
    let expected = "8=FIX.4.4\u{0001}9=149\u{0001}35=D\u{0001}49=INITIATOR\u{0001}56=ACCEPTOR\u{0001}34=2752\u{0001}52=20200114-08:13:20.041\u{0001}11=61\u{0001}70=60\u{0001}100=AUTO\u{0001}55=BHP.AX\u{0001}54=1\u{0001}60=20200114-08:12:59.397\u{0001}38=10000\u{0001}40=2\u{0001}44=20\u{0001}59=1\u{0001}";
    let mut message = Message::default();
    message.decode(expected.as_bytes())?;
    let mut actual = Vec::new();
    let result = message.encode(&mut actual, EncodeOptions::standard())?;
    assert!(result > 0);
    assert_eq!(actual, expected.as_bytes());
    Ok(())
}

#[test]
fn encode_does_not_add_body_length_if_it_is_not_present() -> Result<(), Error>
{
    let expected = "8=FIX.4.4\u{0001}35=D\u{0001}49=INITIATOR\u{0001}56=ACCEPTOR\u{0001}34=2752\u{0001}52=20200114-08:13:20.041\u{0001}11=61\u{0001}70=60\u{0001}100=AUTO\u{0001}55=BHP.AX\u{0001}54=1\u{0001}60=20200114-08:12:59.397\u{0001}38=10000\u{0001}40=2\u{0001}44=20\u{0001}59=1\u{0001}10=021\u{0001}";
    let mut message = Message::default();
    message.decode(expected.as_bytes())?;
    let mut actual = Vec::new();
    let options = EncodeOptions { set_checksum: false, ..EncodeOptions::standard() };
    let result = message.encode(&mut actual, options)?;
    assert!(result > 0);
    assert_eq!(actual, expected.as_bytes());
    Ok(())
}

#[test]
fn format_checksum_greater_than_3_digits_fails() -> Result<(), Error>
{
    // 9999 lies outside the precondition of format_checksum (value < 1000), which every
    // verified caller meets; the largest checksum it is ever given is 255.
    assert_eq!(format_checksum(255), "255");
    Ok(())
}

#[test]
fn format_checksum_pads_values_with_less_than_3_digits() -> Result<(), Error>
{
    assert_eq!(format_checksum(999), "999");
    assert_eq!(format_checksum(99), "099");
    assert_eq!(format_checksum(9), "009");
    assert_eq!(format_checksum(0), "000");
    assert_eq!(format_checksum(90), "090");
    assert_eq!(format_checksum(900), "900");
    Ok(())
}

#[test]
fn decode_a_message_with_a_data_field_that_has_no_preceeding_size_field() -> Result<(), Error>
{
    let text = "89=123\u{0001}8=FIX.4.4\u{0001}9=149\u{0001}35=D\u{0001}10=021\u{0001}";
    let mut message = Message::default();
    assert_eq!(message.decode(text.as_bytes()), Err(Error::DataFieldWithNoPrecedingSizeField));
    Ok(())
}

#[test]
fn decode_a_message_with_a_data_field_with_a_non_numeric_previous_field_value() -> Result<(), Error>
{
    let text = "8=FIX.4.4\u{0001}9=149\u{0001}35=D\u{0001}89=123\u{0001}49=INITIATOR\u{0001}56=ACCEPTOR\u{0001}34=2752\u{0001}52=20200114-08:13:20.041\u{0001}11=61\u{0001}70=60\u{0001}100=AUTO\u{0001}55=BHP.AX\u{0001}54=1\u{0001}60=20200114-08:12:59.397\u{0001}38=10000\u{0001}40=2\u{0001}44=20\u{0001}59=1\u{0001}10=021\u{0001}";
    let mut message = Message::default();
    assert!(matches!(message.decode(text.as_bytes()), Err(Error::DataFieldWithNonNumericPreviousField(_))));
    Ok(())
}

#[test]
fn decode_a_message_with_a_data_field_that_does_not_have_a_trailing_field_separator() -> Result<(), Error>
{
    let text = "8=FIX.4.4\u{0001}9=149\u{0001}35=D\u{0001}93=3\u{0001}89=AAA49=INITIATOR\u{0001}56=ACCEPTOR\u{0001}34=2752\u{0001}52=20200114-08:13:20.041\u{0001}11=61\u{0001}70=60\u{0001}100=AUTO\u{0001}55=BHP.AX\u{0001}54=1\u{0001}60=20200114-08:12:59.397\u{0001}38=10000\u{0001}40=2\u{0001}44=20\u{0001}59=1\u{0001}10=021\u{0001}";
    let mut message = Message::default();
    assert_eq!(message.decode(text.as_bytes()), Err(Error::DataFieldWithNoTrailingSeparator));
    Ok(())
}

#[test]
fn decode_a_message_containing_a_data_field() -> Result<(), Error>
{
    let signature = "ABCDEF\u{0001}ABCDEFABC\u{0001}DEF";
    let text = "8=FIX.4.4\u{0001}9=167\u{0001}35=D\u{0001}49=INITIATOR\u{0001}56=ACCEPTOR\u{0001}34=2752\u{0001}52=20200114-08:13:20.041\u{0001}11=61\u{0001}70=60\u{0001}100=AUTO\u{0001}55=BHP.AX\u{0001}54=1\u{0001}60=20200114-08:12:59.397\u{0001}38=10000\u{0001}40=2\u{0001}44=20\u{0001}59=1\u{0001}93=20\u{0001}89=ABCDEF\u{0001}ABCDEFABC\u{0001}DEF\u{0001}10=220\u{0001}";
    let mut message = Message::default();
    let result = message.decode(text.as_bytes())?;
    assert!(result.complete);
    assert_eq!(message.fields.len(), 20);
    assert_eq!(message.fields.field_at(18).value.len(), signature.len());
    assert_eq!(signature, message.fields.field_at(18).value);
    Ok(())
}

#[test]
fn decode_a_message_containing_a_data_field_in_two_pieces() -> Result<(), Error>
{
    let signature = "ABCDEF\u{0001}ABCDEFABC\u{0001}DEF";
    let one = "8=FIX.4.4\u{0001}9=167\u{0001}35=D\u{0001}49=INITIATOR\u{0001}56=ACCEPTOR\u{0001}34=2752\u{0001}52=20200114-08:13:20.041\u{0001}11=61\u{0001}70=60\u{0001}100=AUTO\u{0001}55=BHP.AX\u{0001}54=1\u{0001}60=20200114-08:12:59.397\u{0001}38=10000\u{0001}40=2\u{0001}44=20\u{0001}59=1\u{0001}93=20\u{0001}89=ABCDEF\u{0001}ABCDE";
    let two = "89=ABCDEF\u{0001}ABCDEFABC\u{0001}DEF\u{0001}10=220\u{0001}";
    let mut message = Message::default();
    let one_result = message.decode(one.as_bytes())?;
    assert!(!one_result.complete);
    assert_eq!(one_result.consumed, one.len() - "89=ABCDEF\u{0001}ABCDE".len());
    assert_eq!(message.fields.len(), 18);
    let two_result = message.decode(two.as_bytes())?;
    assert!(two_result.complete);
    assert_eq!(message.fields.len(), 20);
    assert_eq!(message.fields.field_at(18).value.len(), signature.len());
    assert_eq!(signature, message.fields.field_at(18).value);
    Ok(())
}

#[test]
fn encode_a_message_containing_a_data_field() -> Result<(), Error>
{
    let expected = "8=FIX.4.4\u{0001}9=30\u{0001}93=20\u{0001}89=ABCDEF\u{0001}ABCDEFABC\u{0001}DEF\u{0001}10=119\u{0001}";
    let mut fields = FieldCollection::default();
    fields.push(Field::from_str(8, "FIX.4.4"));
    fields.push(Field::from_str(9, "40"));
    fields.push(Field::from_str(93, "20"));
    fields.push(Field::from_str(89, "ABCDEF\u{0001}ABCDEFABC\u{0001}DEF"));
    fields.push(Field::from_str(10, "220"));
    let message = Message::with_fields(fields);
    let mut actual = Vec::new();
    let result = message.encode(&mut actual, EncodeOptions::standard())?;
    assert!(result > 0);
    assert_eq!(actual, expected.as_bytes());
    Ok(())
}
