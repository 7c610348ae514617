use musli::context::{AllocBuf, AllocContext, Step};
use musli::error::Message;
use musli::reader::SliceReaderError;

#[test]
fn context_records_errors_with_their_place() {
    let mut buf = AllocBuf::default();
    let mut cx: AllocContext<SliceReaderError> = AllocContext::new(&mut buf);
    assert_eq!(cx.mark(), 0);
    assert!(cx.iter().is_empty());

    cx.enter_struct("Collection");
    cx.enter_named_field("values");
    cx.enter_map_key("Hello");
    cx.advance(15);
    let mark = cx.mark();
    cx.advance(1);
    cx.marked_message(mark, Message::InvalidUtf8);
    cx.leave_map_key();
    cx.leave_field();
    cx.leave_struct();
    cx.custom("something else");

    let reports = cx.iter();
    assert_eq!(reports.len(), 2);
    assert_eq!(
        reports[0].path,
        vec![Step::Named("values"), Step::Key("Hello".to_string())]
    );
    assert_eq!((reports[0].start, reports[0].end), (15, 16));
    assert!(format!("{:?}", reports[0].error).contains("InvalidUtf8"));
    assert!(reports[1].path.is_empty());
    assert_eq!((reports[1].start, reports[1].end), (16, 16));
    assert!(format!("{:?}", reports[1].error).contains("something else"));
}

#[test]
fn context_keeps_type_steps_on_request() {
    let mut buf = AllocBuf::default();
    let mut cx: AllocContext<SliceReaderError> = AllocContext::new(&mut buf);
    cx.include_type();
    cx.enter_enum("Shape");
    cx.enter_variant("Circle");
    cx.enter_struct("Circle");
    cx.enter_unnamed_field(0);
    cx.enter_sequence_index(3);
    cx.message(Message::EmptyValue);
    cx.leave_sequence_index();
    cx.leave_field();
    cx.leave_struct();
    cx.leave_variant();
    cx.leave_enum();
    cx.leave_enum();
    cx.report(<SliceReaderError as musli::error::Error>::message(
        Message::BufferUnderflow,
    ));
    let reports = cx.iter();
    assert_eq!(
        reports[0].path,
        vec![
            Step::Enum("Shape"),
            Step::Variant("Circle"),
            Step::Struct("Circle"),
            Step::Unnamed(0),
            Step::Index(3)
        ]
    );
    assert_eq!((reports[0].start, reports[0].end), (0, 0));
    assert!(reports[1].path.is_empty());
}

#[test]
fn context_mark_wraps_and_string_is_kept() {
    let mut buf = AllocBuf::default();
    {
        let mut cx: AllocContext<SliceReaderError> = AllocContext::new(&mut buf);
        cx.advance(usize::MAX);
        cx.advance(2);
        assert_eq!(cx.mark(), 1);
        assert_eq!(cx.get_string(), Some(""));
        cx.store_string("key");
        cx.store_string("other");
        assert_eq!(cx.get_string(), Some("other"));
    }
    let mut cx: AllocContext<SliceReaderError> = AllocContext::new(&mut buf);
    assert_eq!(cx.get_string(), Some("other"));
    cx.store_string("");
    drop(cx);
    buf.free();
    let cx: AllocContext<SliceReaderError> = AllocContext::new(&mut buf);
    assert_eq!(cx.get_string(), Some(""));
}

#[test]
fn ignoring_context_keeps_nothing() {
    let mut cx = musli::context::Ignore::new();
    cx.advance(10);
    assert_eq!(cx.mark(), 0);
    cx.store_string("key");
    assert_eq!(cx.get_string(), None);
    let _ = cx.report(17u8);
    let _ = cx.custom("lost");
    let _ = cx.message(Message::EmptyValue);
    assert_eq!(cx, musli::context::Ignore::default());
}
