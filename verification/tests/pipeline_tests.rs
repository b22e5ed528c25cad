use hexview::colorer::Noop;
use hexview::error::HexError;
use hexview::pipeline::dump_slice;

fn plain(bytes: &[u8], start: Option<usize>, end: Option<usize>, width: usize) -> String {
    String::from_utf8(dump_slice(bytes, start, end, width, Noop::default()).unwrap()).unwrap()
}

#[test]
fn whole_stream_when_no_range_given() {
    let out = plain(&[0x00, 0x20, 0x41, 0xFF], None, None, 31);
    assert_eq!(out, "0x00000000 │ 00 20 41 FF │ . A.");
}

#[test]
fn ranged_slice_of_ten_bytes() {
    let source: Vec<u8> = (0u8..10).collect();
    let out = plain(&source, Some(2), Some(4), 31);
    assert_eq!(out, "0x00000002 │ 02 03       │ ..");
}

#[test]
fn end_past_source_is_a_shorter_stream() {
    let source: Vec<u8> = vec![0x41, 0x42, 0x43];
    let out = plain(&source, Some(1), Some(100), 31);
    assert_eq!(out, "0x00000001 │ 42 43       │ BC");
}

#[test]
fn start_past_source_is_an_error() {
    let source: Vec<u8> = vec![1, 2, 3];
    assert_eq!(
        dump_slice(&source, Some(7), None, 31, Noop::default()),
        Err(HexError::UnexpectedEndOfSource)
    );
}

#[test]
fn conflicting_bounds_are_an_error() {
    let source: Vec<u8> = vec![1, 2, 3];
    assert_eq!(
        dump_slice(&source, Some(2), Some(1), 31, Noop::default()),
        Err(HexError::InvalidArguments)
    );
}

#[test]
fn start_at_length_renders_nothing() {
    let source: Vec<u8> = vec![1, 2, 3];
    let out = plain(&source, Some(3), None, 31);
    assert_eq!(out, "");
}
