//! The rendered path always equals the concatenation of the currently open
//! entries, in open order, across nested enter and leave calls.

use musli::context::Context;

#[test]
fn nested_path_rendering() {
    let mut cx = Context::new();
    assert_eq!(cx.render_path(), "");

    cx.enter_named_field("values");
    assert_eq!(cx.render_path(), ".values");

    cx.enter_sequence_index(3);
    assert_eq!(cx.render_path(), ".values[3]");

    cx.enter_map_key("Hello");
    assert_eq!(cx.render_path(), ".values[3][Hello]");

    cx.leave_map_key();
    assert_eq!(cx.render_path(), ".values[3]");

    cx.enter_sequence_index(10);
    assert_eq!(cx.render_path(), ".values[3][10]");

    cx.leave_sequence_index();
    cx.leave_sequence_index();
    assert_eq!(cx.render_path(), ".values");

    cx.leave_named_field();
    assert_eq!(cx.render_path(), "");
}

#[test]
fn path_is_kept_across_errors() {
    let mut cx = Context::new_collecting();
    cx.enter_named_field("outer");
    cx.enter_map_key("key");
    cx.mark();
    cx.advance(5);
    let error = cx.custom(musli::error::ErrorKind::Underflow);
    assert_eq!(
        error.text().as_str(),
        ".outer[key]: Buffer underflow (at bytes 0-5)"
    );
    assert_eq!(cx.errors().len(), 1);
    assert_eq!(cx.errors()[0], *error.text());
    assert_eq!(cx.render_path(), ".outer[key]");
    cx.leave_map_key();
    cx.leave_named_field();
}

#[test]
fn marks_drive_byte_ranges() {
    let mut cx = Context::new();
    cx.advance(7);
    cx.mark();
    cx.advance(4);
    let error = cx.custom(musli::error::ErrorKind::UnknownMarker);
    assert_eq!(error.text().as_str(), ": Unknown marker (at bytes 7-11)");
    assert!(cx.errors().is_empty());
}

#[test]
fn message_carries_path_and_range() {
    let mut cx = Context::new_collecting();
    cx.enter_named_field("field");
    cx.mark();
    cx.advance(2);
    let error = cx.message("something odd");
    assert_eq!(error.text().as_str(), ".field: something odd (at bytes 0-2)");
    assert_eq!(cx.errors().len(), 1);
    cx.leave_named_field();
}
