use crocofix::error::Error;
use crocofix::field::Field;
use crocofix::fix_5_0sp2;
use crocofix::message::Message;
use crocofix::order::Order;
use crocofix::tags;

fn value(tag: u32, name: &str) -> Field {
    let fields = fix_5_0sp2::fields();
    let definition = fields.field(tag as usize);
    Field::from_field_value(&definition.value_with_name(name).unwrap())
}



 
fn decode_message(text: &str) -> Result<Message, Error>
{
    let mut message = Message::default();
    let result = message.decode(text.as_bytes())?;
    assert!(result.complete);
    assert_eq!(result.consumed, text.len());
    Ok(message)
}

#[test]
fn create_key()
{
    assert_eq!("INITIATOR-ACCEPTOR-123", Order::create_key("INITIATOR", "ACCEPTOR", "123"))
}

#[test]

fn key_for_message() -> Result<(), Error>
{
    let order_single = "8=FIX.4.4\u{0001}9=149\u{0001}35=D\u{0001}49=INITIATOR\u{0001}56=ACCEPTOR\u{0001}34=2752\u{0001}52=20200114-08:13:20.041\u{0001}11=61\u{0001}70=60\u{0001}100=AUTO\u{0001}55=BHP.AX\u{0001}54=1\u{0001}60=20200114-08:12:59.397\u{0001}38=10000\u{0001}40=2\u{0001}44=20\u{0001}59=1\u{0001}10=021\u{0001}";
    let message = decode_message(order_single)?;
    assert_eq!("INITIATOR-ACCEPTOR-61", Order::key_for_message(&message, false)?);
    assert_eq!("ACCEPTOR-INITIATOR-61", Order::key_for_message(&message, true)?);
    Ok(())
}

#[test]
fn new_order_single() -> Result<(), Error>
{
    let order_single = "8=FIX.4.4\u{0001}9=149\u{0001}35=D\u{0001}49=INITIATOR\u{0001}56=ACCEPTOR\u{0001}34=2752\u{0001}52=20200114-08:13:20.041\u{0001}11=61\u{0001}70=60\u{0001}100=AUTO\u{0001}55=BHP.AX\u{0001}54=1\u{0001}60=20200114-08:12:59.397\u{0001}38=10000\u{0001}40=2\u{0001}44=20\u{0001}59=1\u{0001}10=021\u{0001}";

    let message = decode_message(order_single)?;
    let order = Order::new(&message)?;
    
    assert_eq!(*order.fields.get(tags::SIDE)?, value(tags::SIDE, "Buy")); 
    assert_eq!(*order.fields.get(tags::ORD_TYPE)?, value(tags::ORD_TYPE, "Limit")); 
    assert_eq!(*order.fields.get(tags::TIME_IN_FORCE)?, value(tags::TIME_IN_FORCE, "GoodTillCancel")); 
    assert_eq!(order.fields.get(tags::ORDER_QTY)?.value, "10000");
    assert_eq!(order.fields.get(tags::PRICE)?.value, "20");
  
    Ok(())
}

#[test]
fn new_order_single_and_execution_reports() -> Result<(), Error>
{
    let order_single = "8=FIX.4.4\u{0001}9=149\u{0001}35=D\u{0001}49=INITIATOR\u{0001}56=ACCEPTOR\u{0001}34=2752\u{0001}52=20200114-08:13:20.041\u{0001}11=61\u{0001}70=60\u{0001}100=AUTO\u{0001}55=BHP.AX\u{0001}54=1\u{0001}60=20200114-08:12:59.397\u{0001}38=10000\u{0001}40=2\u{0001}44=20\u{0001}59=1\u{0001}10=021\u{0001}";
    let report_new = "8=FIX.4.4\u{0001}9=173\u{0001}35=8\u{0001}49=ACCEPTOR\u{0001}56=INITIATOR\u{0001}34=718\u{0001}52=20200114-08:13:20.072\u{0001}39=0\u{0001}11=61\u{0001}37=INITIATOR-ACCEPTOR-61\u{0001}17=1\u{0001}150=0\u{0001}151=10000\u{0001}55=BHP.AX\u{0001}54=1\u{0001}38=10000\u{0001}44=20\u{0001}32=0\u{0001}31=0\u{0001}14=0\u{0001}6=0\u{0001}40=2\u{0001}10=021\u{0001}";
    let report_partial = "8=FIX.4.4\u{0001}9=187\u{0001}35=8\u{0001}49=ACCEPTOR\u{0001}56=INITIATOR\u{0001}34=719\u{0001}52=20200114-08:13:20.072\u{0001}39=1\u{0001}11=61\u{0001}37=INITIATOR-ACCEPTOR-61\u{0001}17=2\u{0001}150=1\u{0001}151=893\u{0001}55=BHP.AX\u{0001}54=1\u{0001}38=10000\u{0001}44=20\u{0001}32=9107\u{0001}31=20\u{0001}14=9107\u{0001}6=20\u{0001}30=AUTO\u{0001}40=2\u{0001}10=081\u{0001}";
    let report_filled = "8=FIX.4.4\u{0001}9=185\u{0001}35=8\u{0001}49=ACCEPTOR\u{0001}56=INITIATOR\u{0001}34=720\u{0001}52=20200114-08:13:20.072\u{0001}39=2\u{0001}11=61\u{0001}37=INITIATOR-ACCEPTOR-61\u{0001}17=3\u{0001}150=2\u{0001}151=0\u{0001}55=BHP.AX\u{0001}54=1\u{0001}38=10000\u{0001}44=20\u{0001}32=893\u{0001}31=20\u{0001}14=10000\u{0001}6=20\u{0001}30=AUTO\u{0001}40=2\u{0001}10=201\u{0001}";

    let mut order = Order::new(&decode_message(order_single)?)?;

    assert_eq!(*order.fields.get(tags::SIDE)?, value(tags::SIDE, "Buy"));
    assert_eq!(order.fields.get(tags::ORDER_QTY)?.value, "10000");
    assert_eq!(order.fields.get(tags::PRICE)?.value, "20");

    order.update(&decode_message(report_new)?)?;

    assert_eq!(*order.fields.get(tags::ORD_STATUS)?, value(tags::ORD_STATUS, "New"));
    assert_eq!(order.fields.get(tags::CUM_QTY)?.value, "0");
    assert_eq!(order.fields.get(tags::AVG_PX)?.value, "0");
 
    order.update(&decode_message(report_partial)?)?;

    assert_eq!(*order.fields.get(tags::ORD_STATUS)?, value(tags::ORD_STATUS, "PartiallyFilled"));
    assert_eq!(order.fields.get(tags::CUM_QTY)?.value, "9107");
    assert_eq!(order.fields.get(tags::AVG_PX)?.value, "20");

    order.update(&decode_message(report_filled)?)?;

    assert_eq!(*order.fields.get(tags::ORD_STATUS)?, value(tags::ORD_STATUS, "Filled"));
    assert_eq!(order.fields.get(tags::CUM_QTY)?.value, "10000");
    assert_eq!(order.fields.get(tags::AVG_PX)?.value, "20");

    Ok(())
}

#[test]
fn update_order_cancel_replace_request() -> Result<(), Error>
{
    let order_single = "8=FIXT.1.1\u{0001}9=147\u{0001}35=D\u{0001}49=INITIATOR\u{0001}56=ACCEPTOR\u{0001}34=2\u{0001}52=20200215-05:53:02.300\u{0001}11=7\u{0001}70=7\u{0001}100=AUTO\u{0001}55=WTF.AX\u{0001}54=1\u{0001}60=20200215-05:52:59.271\u{0001}38=20000\u{0001}40=2\u{0001}44=11.56\u{0001}59=1\u{0001}10=016\u{0001}";
    let report_new = "8=FIXT.1.1\u{0001}9=172\u{0001}35=8\u{0001}49=ACCEPTOR\u{0001}56=INITIATOR\u{0001}34=2\u{0001}52=20200215-05:53:02.473\u{0001}39=0\u{0001}11=7\u{0001}37=INITIATOR-ACCEPTOR-7\u{0001}17=1\u{0001}150=0\u{0001}151=20000\u{0001}55=WTF.AX\u{0001}54=1\u{0001}38=20000\u{0001}44=11.56\u{0001}32=0\u{0001}31=0\u{0001}14=0\u{0001}6=0\u{0001}40=2\u{0001}10=078\u{0001}";
    let order_cancel_replace_request = "8=FIXT.1.1\u{0001}9=184\u{0001}35=G\u{0001}49=INITIATOR\u{0001}56=ACCEPTOR\u{0001}34=3\u{0001}52=20200215-05:53:22.465\u{0001}37=INITIATOR-ACCEPTOR-7\u{0001}41=7\u{0001}11=8\u{0001}70=7\u{0001}100=AUTO\u{0001}55=WTF.AX\u{0001}54=1\u{0001}60=20200215-05:53:08.895\u{0001}38=40000\u{0001}40=2\u{0001}44=11.58\u{0001}59=1\u{0001}58=Blah\u{0001}10=104\u{0001}";
    let report_pending_replace = "8=FIXT.1.1\u{0001}9=177\u{0001}35=8\u{0001}49=ACCEPTOR\u{0001}56=INITIATOR\u{0001}34=3\u{0001}52=20200215-05:53:22.481\u{0001}39=E\u{0001}11=8\u{0001}37=INITIATOR-ACCEPTOR-7\u{0001}17=2\u{0001}150=E\u{0001}151=20000\u{0001}41=7\u{0001}55=WTF.AX\u{0001}54=1\u{0001}38=20000\u{0001}44=11.56\u{0001}32=0\u{0001}31=0\u{0001}14=0\u{0001}6=0\u{0001}40=2\u{0001}10=091\u{0001}";
    let report_replaced = "8=FIXT.1.1\u{0001}9=173\u{0001}35=8\u{0001}49=ACCEPTOR\u{0001}56=INITIATOR\u{0001}34=4\u{0001}52=20200215-05:53:22.495\u{0001}39=5\u{0001}11=7\u{0001}37=INITIATOR-ACCEPTOR-8\u{0001}17=3\u{0001}150=5\u{0001}151=0\u{0001}41=7\u{0001}55=WTF.AX\u{0001}54=1\u{0001}38=40000\u{0001}44=11.58\u{0001}32=0\u{0001}31=0\u{0001}14=0\u{0001}6=0\u{0001}40=2\u{0001}10=128\u{0001}";

    let mut order = Order::new(&decode_message(order_single)?)?;

    assert_eq!(*order.fields.get(tags::SIDE)?, value(tags::SIDE, "Buy"));
    assert_eq!(order.fields.get(tags::ORDER_QTY)?.value, "20000");
    assert_eq!(order.fields.get(tags::PRICE)?.value, "11.56");

    order.update(&decode_message(report_new)?)?;

    assert_eq!(*order.fields.get(tags::ORD_STATUS)?, value(tags::ORD_STATUS, "New"));

    order.update(&decode_message(order_cancel_replace_request)?)?;

    assert_eq!(*order.fields.get(tags::ORD_STATUS)?, value(tags::ORD_STATUS, "PendingReplace"));

    order.update(&decode_message(report_pending_replace)?)?;

    assert_eq!(*order.fields.get(tags::ORD_STATUS)?, value(tags::ORD_STATUS, "PendingReplace"));

    order.update(&decode_message(report_replaced)?)?;

    assert_eq!(*order.fields.get(tags::ORD_STATUS)?, value(tags::ORD_STATUS, "Replaced"));

    Ok(())
}

#[test]
fn update_order_cancel_request() -> Result<(), Error>
{
    let mut order = Order::new(&decode_message("8=FIXT.1.1\u{0001}9=147\u{0001}35=D\u{0001}49=INITIATOR\u{0001}56=ACCEPTOR\u{0001}34=2\u{0001}52=20200215-05:53:02.300\u{0001}11=7\u{0001}70=7\u{0001}100=AUTO\u{0001}55=WTF.AX\u{0001}54=1\u{0001}60=20200215-05:52:59.271\u{0001}38=20000\u{0001}40=2\u{0001}44=11.56\u{0001}59=1\u{0001}10=016\u{0001}")?)?;
    order.update(&decode_message("8=FIXT.1.1\u{0001}9=172\u{0001}35=8\u{0001}49=ACCEPTOR\u{0001}56=INITIATOR\u{0001}34=2\u{0001}52=20200215-05:53:02.473\u{0001}39=0\u{0001}11=7\u{0001}37=INITIATOR-ACCEPTOR-7\u{0001}17=1\u{0001}150=0\u{0001}151=20000\u{0001}55=WTF.AX\u{0001}54=1\u{0001}38=20000\u{0001}44=11.56\u{0001}32=0\u{0001}31=0\u{0001}14=0\u{0001}6=0\u{0001}40=2\u{0001}10=078\u{0001}")?)?;
    order.update(&decode_message("8=FIXT.1.1\u{0001}9=153\u{0001}35=F\u{0001}49=INITIATOR\u{0001}56=ACCEPTOR\u{0001}34=3\u{0001}52=20200215-05:53:22.465\u{0001}41=7\u{0001}37=INITIATOR-ACCEPTOR-7\u{0001}11=9\u{0001}55=WTF.AX\u{0001}54=1\u{0001}60=20200215-05:53:08.895\u{0001}38=20000\u{0001}10=104\u{0001}")?)?;
    assert_eq!(*order.fields.get(tags::ORD_STATUS)?, value(tags::ORD_STATUS, "PendingCancel"));
    assert_eq!(order.pending_fields.get(tags::ORDER_QTY)?.value, "20000");
    assert_eq!(order.pending_fields.try_get(tags::CL_ORD_ID), None);
    assert_eq!(order.messages.len(), 3);
    Ok(())
}

#[test]
fn commit() -> Result<(), Error>
{
    let mut order = Order::new(&decode_message("8=FIXT.1.1\u{0001}9=147\u{0001}35=D\u{0001}49=INITIATOR\u{0001}56=ACCEPTOR\u{0001}34=2\u{0001}52=20200215-05:53:02.300\u{0001}11=7\u{0001}70=7\u{0001}100=AUTO\u{0001}55=WTF.AX\u{0001}54=1\u{0001}60=20200215-05:52:59.271\u{0001}38=20000\u{0001}40=2\u{0001}44=11.56\u{0001}59=1\u{0001}10=016\u{0001}")?)?;
    order.update(&decode_message("8=FIXT.1.1\u{0001}9=172\u{0001}35=8\u{0001}49=ACCEPTOR\u{0001}56=INITIATOR\u{0001}34=2\u{0001}52=20200215-05:53:02.473\u{0001}39=0\u{0001}11=7\u{0001}37=INITIATOR-ACCEPTOR-7\u{0001}17=1\u{0001}150=0\u{0001}151=20000\u{0001}55=WTF.AX\u{0001}54=1\u{0001}38=20000\u{0001}44=11.56\u{0001}32=0\u{0001}31=0\u{0001}14=0\u{0001}6=0\u{0001}40=2\u{0001}10=078\u{0001}")?)?;
    order.update(&decode_message("8=FIXT.1.1\u{0001}9=184\u{0001}35=G\u{0001}49=INITIATOR\u{0001}56=ACCEPTOR\u{0001}34=3\u{0001}52=20200215-05:53:22.465\u{0001}37=INITIATOR-ACCEPTOR-7\u{0001}41=7\u{0001}11=8\u{0001}70=7\u{0001}100=AUTO\u{0001}55=WTF.AX\u{0001}54=1\u{0001}60=20200215-05:53:08.895\u{0001}38=40000\u{0001}40=2\u{0001}44=11.58\u{0001}59=1\u{0001}58=Blah\u{0001}10=104\u{0001}")?)?;
    assert_eq!(order.fields.get(tags::ORDER_QTY)?.value, "20000");
    order.commit();
    assert_eq!(order.fields.get(tags::ORDER_QTY)?.value, "40000");
    assert_eq!(order.fields.get(tags::PRICE)?.value, "11.58");
    assert_eq!(order.fields.get(tags::CL_ORD_ID)?.value, "7");
    assert!(order.pending_fields.is_empty());
    Ok(())
}

#[test]
fn rollback() -> Result<(), Error>
{
    let mut order = Order::new(&decode_message("8=FIXT.1.1\u{0001}9=147\u{0001}35=D\u{0001}49=INITIATOR\u{0001}56=ACCEPTOR\u{0001}34=2\u{0001}52=20200215-05:53:02.300\u{0001}11=7\u{0001}70=7\u{0001}100=AUTO\u{0001}55=WTF.AX\u{0001}54=1\u{0001}60=20200215-05:52:59.271\u{0001}38=20000\u{0001}40=2\u{0001}44=11.56\u{0001}59=1\u{0001}10=016\u{0001}")?)?;
    order.update(&decode_message("8=FIXT.1.1\u{0001}9=172\u{0001}35=8\u{0001}49=ACCEPTOR\u{0001}56=INITIATOR\u{0001}34=2\u{0001}52=20200215-05:53:02.473\u{0001}39=0\u{0001}11=7\u{0001}37=INITIATOR-ACCEPTOR-7\u{0001}17=1\u{0001}150=0\u{0001}151=20000\u{0001}55=WTF.AX\u{0001}54=1\u{0001}38=20000\u{0001}44=11.56\u{0001}32=0\u{0001}31=0\u{0001}14=0\u{0001}6=0\u{0001}40=2\u{0001}10=078\u{0001}")?)?;
    order.update(&decode_message("8=FIXT.1.1\u{0001}9=184\u{0001}35=G\u{0001}49=INITIATOR\u{0001}56=ACCEPTOR\u{0001}34=3\u{0001}52=20200215-05:53:22.465\u{0001}37=INITIATOR-ACCEPTOR-7\u{0001}41=7\u{0001}11=8\u{0001}70=7\u{0001}100=AUTO\u{0001}55=WTF.AX\u{0001}54=1\u{0001}60=20200215-05:53:08.895\u{0001}38=40000\u{0001}40=2\u{0001}44=11.58\u{0001}59=1\u{0001}58=Blah\u{0001}10=104\u{0001}")?)?;
    assert_eq!(*order.fields.get(tags::ORD_STATUS)?, value(tags::ORD_STATUS, "PendingReplace"));
    order.rollback();
    assert_eq!(*order.fields.get(tags::ORD_STATUS)?, value(tags::ORD_STATUS, "New"));
    assert!(order.pending_fields.is_empty());
    order.rollback();
    assert_eq!(*order.fields.get(tags::ORD_STATUS)?, value(tags::ORD_STATUS, "New"));
    Ok(())
}

#[test]
fn replace() -> Result<(), Error>
{
    let mut order = Order::new(&decode_message("8=FIXT.1.1\u{0001}9=147\u{0001}35=D\u{0001}49=INITIATOR\u{0001}56=ACCEPTOR\u{0001}34=2\u{0001}52=20200215-05:53:02.300\u{0001}11=7\u{0001}70=7\u{0001}100=AUTO\u{0001}55=WTF.AX\u{0001}54=1\u{0001}60=20200215-05:52:59.271\u{0001}38=20000\u{0001}40=2\u{0001}44=11.56\u{0001}59=1\u{0001}10=016\u{0001}")?)?;
    order.update(&decode_message("8=FIXT.1.1\u{0001}9=172\u{0001}35=8\u{0001}49=ACCEPTOR\u{0001}56=INITIATOR\u{0001}34=2\u{0001}52=20200215-05:53:02.473\u{0001}39=0\u{0001}11=7\u{0001}37=INITIATOR-ACCEPTOR-7\u{0001}17=1\u{0001}150=0\u{0001}151=20000\u{0001}55=WTF.AX\u{0001}54=1\u{0001}38=20000\u{0001}44=11.56\u{0001}32=0\u{0001}31=0\u{0001}14=0\u{0001}6=0\u{0001}40=2\u{0001}10=078\u{0001}")?)?;
    order.update(&decode_message("8=FIXT.1.1\u{0001}9=184\u{0001}35=G\u{0001}49=INITIATOR\u{0001}56=ACCEPTOR\u{0001}34=3\u{0001}52=20200215-05:53:22.465\u{0001}37=INITIATOR-ACCEPTOR-7\u{0001}41=7\u{0001}11=8\u{0001}70=7\u{0001}100=AUTO\u{0001}55=WTF.AX\u{0001}54=1\u{0001}60=20200215-05:53:08.895\u{0001}38=40000\u{0001}40=2\u{0001}44=11.58\u{0001}59=1\u{0001}58=Blah\u{0001}10=104\u{0001}")?)?;
    let replacement = order.replace(&decode_message("8=FIXT.1.1\u{0001}9=173\u{0001}35=8\u{0001}49=ACCEPTOR\u{0001}56=INITIATOR\u{0001}34=4\u{0001}52=20200215-05:53:22.495\u{0001}39=5\u{0001}11=7\u{0001}37=INITIATOR-ACCEPTOR-8\u{0001}17=3\u{0001}150=5\u{0001}151=0\u{0001}41=7\u{0001}55=WTF.AX\u{0001}54=1\u{0001}38=40000\u{0001}44=11.58\u{0001}32=0\u{0001}31=0\u{0001}14=0\u{0001}6=0\u{0001}40=2\u{0001}10=128\u{0001}")?)?;
    assert_eq!(*order.fields.get(tags::ORD_STATUS)?, value(tags::ORD_STATUS, "Replaced"));
    assert_eq!(order.fields.get(tags::ORDER_QTY)?.value, "20000");
    assert_eq!(order.key, "INITIATOR-ACCEPTOR-7");
    assert_eq!(order.messages.len(), 4);
    assert_eq!(*replacement.fields.get(tags::ORD_STATUS)?, value(tags::ORD_STATUS, "New"));
    assert_eq!(replacement.fields.get(tags::CL_ORD_ID)?.value, "8");
    assert_eq!(replacement.fields.get(tags::ORIG_CL_ORD_ID)?.value, "7");
    assert_eq!(replacement.fields.get(tags::ORDER_QTY)?.value, "40000");
    assert_eq!(replacement.cl_ord_id.value, "8");
    assert_eq!(replacement.key, "INITIATOR-ACCEPTOR-8");
    Ok(())
}
