use hexview::error::HexError;
use hexview::range_reader::RangeReader;

/// Drive a reader over `source`, delivering chunks of `chunk_len`, and
/// collect everything it surfaces.
fn drive(reader: &mut RangeReader, source: &[u8], chunk_len: usize) -> Vec<u8> {
    let mut surfaced = Vec::new();
    let mut at = 0;
    while at < source.len() && !reader.done() {
        let hi = usize::min(at + chunk_len, source.len());
        let mut part = reader.read(&source[at..hi]);
        surfaced.append(&mut part);
        at = hi;
    }
    surfaced
}

#[test]
fn window_is_exact_slice() {
    let source: Vec<u8> = (0u8..10).collect();
    for chunk_len in [1usize, 2, 3, 7, 16] {
        for start in 0..=10usize {
            for end in start..=10usize {
                let mut reader = RangeReader::new(Some(start), Some(end)).unwrap();
                let surfaced = drive(&mut reader, &source, chunk_len);
                assert_eq!(surfaced, source[start..end].to_vec());
            }
        }
    }
}

#[test]
fn start_two_end_four() {
    let source: Vec<u8> = (10u8..20).collect();
    let mut reader = RangeReader::new(Some(2), Some(4)).unwrap();
    let surfaced = drive(&mut reader, &source, 3);
    assert_eq!(surfaced, vec![12, 13]);
}

#[test]
fn no_bounds_surfaces_everything() {
    let source: Vec<u8> = (0u8..32).collect();
    let mut reader = RangeReader::new(None, None).unwrap();
    let surfaced = drive(&mut reader, &source, 5);
    assert_eq!(surfaced, source);
    assert!(reader.end_of_source().is_ok());
}

#[test]
fn rejects_start_after_end() {
    assert!(matches!(
        RangeReader::new(Some(5), Some(2)),
        Err(HexError::InvalidArguments)
    ));
    assert!(matches!(
        RangeReader::from(Some(5), Some(2)),
        Err(HexError::InvalidArguments)
    ));
}

#[test]
fn short_source_before_start_is_an_error() {
    let source: Vec<u8> = vec![1, 2, 3];
    let mut reader = RangeReader::new(Some(5), None).unwrap();
    let surfaced = drive(&mut reader, &source, 2);
    assert!(surfaced.is_empty());
    assert_eq!(
        reader.end_of_source(),
        Err(HexError::UnexpectedEndOfSource)
    );
}

#[test]
fn natural_end_before_range_end_is_not_an_error() {
    let source: Vec<u8> = vec![1, 2, 3];
    let mut reader = RangeReader::new(Some(1), Some(100)).unwrap();
    let surfaced = drive(&mut reader, &source, 2);
    assert_eq!(surfaced, vec![2, 3]);
    assert!(reader.end_of_source().is_ok());
}

#[test]
fn done_is_terminal_and_cuts_excess() {
    let source: Vec<u8> = (0u8..10).collect();
    let mut reader = RangeReader::new(None, Some(4)).unwrap();
    // One oversized delivery: bytes at or past `end` must not surface.
    let surfaced = reader.read(&source);
    assert_eq!(surfaced, vec![0, 1, 2, 3]);
    assert!(reader.done());
    assert!(reader.done());
}

#[test]
fn positioned_source_needs_no_skip() {
    // The source was seeked to offset 6 already; it delivers from there.
    let source: Vec<u8> = (0u8..20).collect();
    let mut reader = RangeReader::from(Some(6), Some(9)).unwrap();
    let surfaced = drive(&mut reader, &source[6..], 4);
    assert_eq!(surfaced, vec![6, 7, 8]);
    assert!(reader.end_of_source().is_ok());
}
