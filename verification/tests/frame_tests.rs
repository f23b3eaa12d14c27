use kueue::frame::{FrameBuffer, TakeResult};

fn feed(buf: &mut FrameBuffer, bytes: &[u8]) {
    buf.push_bytes(bytes);
}

fn expect_frame(buf: &mut FrameBuffer) -> Vec<u8> {
    match buf.take_frame() {
        TakeResult::Frame(f) => f,
        TakeResult::Incomplete => panic!("expected a frame, buffer incomplete"),
        TakeResult::Poisoned => panic!("expected a frame, buffer poisoned"),
    }
}

#[test]
fn one_object_frame() {
    let mut buf = FrameBuffer::new();
    feed(&mut buf, b"{\"a\":1}");
    let frame = expect_frame(&mut buf);
    assert_eq!(frame, b"{\"a\":1}".to_vec());
    assert!(matches!(buf.take_frame(), TakeResult::Incomplete));
}

#[test]
fn partial_then_complete() {
    let mut buf = FrameBuffer::new();
    feed(&mut buf, b"{\"cmd\":[\"ls\"");
    assert!(matches!(buf.take_frame(), TakeResult::Incomplete));
    feed(&mut buf, b"]}");
    let frame = expect_frame(&mut buf);
    assert_eq!(frame, b"{\"cmd\":[\"ls\"]}".to_vec());
}

#[test]
fn two_concatenated_values_split() {
    let mut buf = FrameBuffer::new();
    feed(&mut buf, b"{\"a\":1}{\"b\":2}");
    assert_eq!(expect_frame(&mut buf), b"{\"a\":1}".to_vec());
    assert_eq!(expect_frame(&mut buf), b"{\"b\":2}".to_vec());
    assert!(matches!(buf.take_frame(), TakeResult::Incomplete));
}

#[test]
fn string_frame_for_unit_variant() {
    // unit enum variants travel as bare JSON strings
    let mut buf = FrameBuffer::new();
    feed(&mut buf, b"\"Bye\"\"ListWorkers\"");
    assert_eq!(expect_frame(&mut buf), b"\"Bye\"".to_vec());
    assert_eq!(expect_frame(&mut buf), b"\"ListWorkers\"".to_vec());
}

#[test]
fn escaped_quotes_and_braces_in_strings() {
    let mut buf = FrameBuffer::new();
    feed(&mut buf, b"{\"cwd\":\"a\\\"}b\"}");
    let frame = expect_frame(&mut buf);
    assert_eq!(frame, b"{\"cwd\":\"a\\\"}b\"}".to_vec());
}

#[test]
fn leading_whitespace_is_part_of_the_frame() {
    let mut buf = FrameBuffer::new();
    feed(&mut buf, b"  \n{\"a\":1}");
    let frame = expect_frame(&mut buf);
    assert_eq!(frame, b"  \n{\"a\":1}".to_vec());
}

#[test]
fn garbage_poisons_the_stream() {
    let mut buf = FrameBuffer::new();
    feed(&mut buf, b"hello");
    assert!(matches!(buf.take_frame(), TakeResult::Poisoned));
}

#[test]
fn frames_parse_as_json() {
    // what the scanner cuts off is exactly what the decoder reads
    let mut buf = FrameBuffer::new();
    feed(&mut buf, b"{\"IssueJob\":{\"job_id\":0}}{\"ShowJob\":{\"job_id\":3}}");
    let first = expect_frame(&mut buf);
    let v: serde_json::Value = serde_json::from_slice(&first).unwrap();
    assert!(v.get("IssueJob").is_some());
    let second = expect_frame(&mut buf);
    let v: serde_json::Value = serde_json::from_slice(&second).unwrap();
    assert_eq!(v["ShowJob"]["job_id"], serde_json::Value::from(3u64));
}

#[test]
fn read_buffer_doubles_when_filled() {
    assert_eq!(kueue::frame::next_read_len(1024, 1024), 2048);
    assert_eq!(kueue::frame::next_read_len(1024, 100), 1024);
    assert_eq!(kueue::frame::next_read_len(usize::MAX, usize::MAX), usize::MAX);
}
