use hexview::colorer::Absolute;
use hexview::colorer::Entropy;
use hexview::colorer::Noop;
use hexview::range_reader::RangeReader;
use hexview::writer::HexWriter;
use hexview::writer::HexWriterBuilder;

/// A plain-text writer for a given width, starting at the given offset.
fn plain_writer(width: usize, start: usize) -> HexWriter<Noop> {
    HexWriterBuilder::default()
        .width(width)
        .start_position(start)
        .colorer(Noop::default())
        .build()
}

fn dump_plain(width: usize, start: usize, bytes: &[u8]) -> String {
    let mut w = plain_writer(width, start);
    w.write(bytes);
    String::from_utf8(w.finish()).unwrap()
}

#[test]
fn four_bytes_one_line() {
    // Width 31 fits exactly 4 bytes per line: (31 - 15) / 4 == 4.
    let out = dump_plain(31, 0, &[0x00, 0x20, 0x41, 0xFF]);
    assert_eq!(out, "0x00000000 │ 00 20 41 FF │ . A.");
}

#[test]
fn empty_stream_renders_nothing() {
    let out = dump_plain(31, 0, &[]);
    assert_eq!(out, "");
}

#[test]
fn partial_line_is_padded() {
    let out = dump_plain(31, 0, &[0x41, 0x42]);
    assert_eq!(out, "0x00000000 │ 41 42       │ AB");
}

#[test]
fn second_line_header_advances_by_bytes_per_line() {
    let out = dump_plain(31, 0, &[0x41, 0x42, 0x43, 0x44, 0x45, 0x46]);
    let lines: Vec<&str> = out.split('\n').collect();
    assert_eq!(lines.len(), 2);
    assert_eq!(lines[0], "0x00000000 │ 41 42 43 44 │ ABCD");
    assert_eq!(lines[1], "0x00000004 │ 45 46       │ EF");
}

#[test]
fn headers_use_the_source_coordinate_space() {
    let out = dump_plain(31, 0x2000, &[0x41]);
    assert!(out.starts_with("0x00002000 │ 41"));
}

#[test]
fn ranged_dump_starts_at_start_offset() {
    // A 10-byte source restricted to [2, 4).
    let source: Vec<u8> = (0u8..10).collect();
    let mut reader = RangeReader::new(Some(2), Some(4)).unwrap();
    let mut writer = plain_writer(31, 2);
    let mut at = 0;
    while at < source.len() && !reader.done() {
        let hi = usize::min(at + 3, source.len());
        let part = reader.read(&source[at..hi]);
        writer.write(&part);
        at = hi;
    }
    let out = String::from_utf8(writer.finish()).unwrap();
    assert!(out.starts_with("0x00000002"));
    assert_eq!(out, "0x00000002 │ 02 03       │ ..");
    let cells: Vec<&str> = out.split('│').collect::<Vec<_>>()[1].trim().split(' ').collect();
    assert_eq!(cells.len(), 2);
}

fn dump_with_range(
    source: &[u8],
    start: Option<usize>,
    end: Option<usize>,
    num: Option<usize>,
) -> String {
    let (start, end) = hexview::range::normalize_range(start, end, num).unwrap();
    let mut reader = RangeReader::new(start, end).unwrap();
    let mut writer = plain_writer(31, start.unwrap_or(0));
    let mut at = 0;
    while at < source.len() && !reader.done() {
        let hi = usize::min(at + 4, source.len());
        let part = reader.read(&source[at..hi]);
        writer.write(&part);
        at = hi;
    }
    String::from_utf8(writer.finish()).unwrap()
}

#[test]
fn start_with_num_matches_explicit_end() {
    let source: Vec<u8> = (0u8..64).map(|b| b.wrapping_mul(37)).collect();
    let with_num = dump_with_range(&source, Some(5), None, Some(3));
    let with_end = dump_with_range(&source, Some(5), Some(8), None);
    assert_eq!(with_num, with_end);
}

#[test]
fn lines_never_exceed_the_render_width() {
    for width in [19usize, 24, 31, 50, 80] {
        let bytes: Vec<u8> = (0u8..=255).collect();
        let out = dump_plain(width, 0, &bytes);
        for line in out.split('\n') {
            assert!(
                line.chars().count() <= width,
                "width {}: line too wide: {:?}",
                width,
                line
            );
        }
    }
}

#[test]
fn hex_columns_decode_back_to_the_bytes() {
    let bytes: Vec<u8> = (0u8..=255).rev().collect();
    let out = dump_plain(50, 0, &bytes);
    let mut decoded: Vec<u8> = Vec::new();
    for line in out.split('\n') {
        let parts: Vec<&str> = line.split('│').collect();
        assert_eq!(parts.len(), 3);
        let hexes: String = parts[1].chars().filter(|c| !c.is_whitespace()).collect();
        decoded.extend_from_slice(&hex::decode(&hexes).unwrap());
    }
    assert_eq!(decoded, bytes);
}

#[test]
fn draining_midstream_changes_nothing() {
    let bytes: Vec<u8> = (0u8..40).collect();
    let whole = dump_plain(31, 0, &bytes);
    let mut w = plain_writer(31, 0);
    let mut pieces: Vec<u8> = Vec::new();
    for chunk in bytes.chunks(7) {
        w.write(chunk);
        pieces.append(&mut w.take_output());
    }
    pieces.append(&mut w.finish());
    assert_eq!(String::from_utf8(pieces).unwrap(), whole);
}

#[test]
fn absolute_dump_carries_escapes() {
    let mut w = HexWriterBuilder::default()
        .width(31)
        .start_position(0)
        .colorer(Absolute::default())
        .build();
    w.write(&[0x41]);
    let out = String::from_utf8(w.finish()).unwrap();
    let printable = termion::color::Rgb(233, 255, 223).fg_string();
    assert!(out.contains(&printable));
    assert!(out.contains(" 41"));
    assert!(out.contains(termion::color::Reset.fg_str()));
}

#[test]
fn entropy_dump_styles_first_byte_high() {
    let mut w = HexWriterBuilder::default()
        .width(31)
        .start_position(0)
        .colorer(Entropy::default())
        .build();
    w.write(&[0x00, 0x01]);
    let out = String::from_utf8(w.finish()).unwrap();
    let high = termion::color::Rgb(58, 58, 118).fg_string();
    let low = termion::color::Rgb(116, 206, 204).fg_string();
    assert!(out.contains(&high));
    assert!(out.contains(&low));
}

#[test]
fn plain_dump_carries_no_escapes() {
    let out = dump_plain(31, 0, &[0x00, 0xFF, 0x41]);
    assert!(!out.contains('\u{1b}'));
}

#[test]
fn default_builder_starts_at_zero() {
    let b = HexWriterBuilder::default();
    assert_eq!(b.start_position, 0);
}

#[test]
fn minimum_width_still_renders_one_byte_per_line() {
    let out = dump_plain(0, 0, &[0x41, 0x42]);
    let lines: Vec<&str> = out.split('\n').collect();
    assert_eq!(lines.len(), 2);
    assert_eq!(lines[0], "0x00000000 │ 41 │ A");
    assert_eq!(lines[1], "0x00000001 │ 42 │ B");
}
