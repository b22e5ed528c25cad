//! The composed pipeline over an in-memory source: bound the bytes to the
//! requested `[start, end)` window, then render the window as a dump. This is
//! the pure core of the driver loop; a caller with a real source streams
//! chunks through [`RangeReader`] and [`HexWriter`] itself and flushes as it
//! goes.

use vstd::prelude::*;

use crate::colorer::Colorer;
use crate::error::HexError;
use crate::range_reader::RangeReader;
use crate::render::bytes_per_line_of;
use crate::render::render;
use crate::writer::HexWriterBuilder;

verus! {

/// The slice of `bytes` that a `[start, end)` request selects: from `start`
/// (clipped to the length) up to `end` (clipped likewise).
pub open spec fn ranged_slice(bytes: Seq<u8>, start: int, end: Option<usize>) -> Seq<u8> {
    let len = bytes.len() as int;
    let lo = if start <= len {
        start
    } else {
        len
    };
    let hi = match end {
        Some(e) => if e <= len {
            e as int
        } else {
            len
        },
        None => len,
    };
    if lo <= hi {
        bytes.subrange(lo, hi)
    } else {
        bytes.subrange(lo, lo)
    }
}

/// Dump an in-memory byte slice: select the `[start, end)` window and render
/// it at the given width with the given colorer, with line headers in the
/// source's coordinate space. Rejects `start > end`; reports the range
/// exceeding the input when `start` lies past the end of `bytes`; rejects
/// offsets that do not fit the fixed 8-digit headers.
pub fn dump_slice<C: Colorer>(
    bytes: &[u8],
    start: Option<usize>,
    end: Option<usize>,
    width: usize,
    colorer: C,
) -> (r: Result<Vec<u8>, HexError>)
    ensures
        ({
            let s0 = match start {
                Some(s) => s as int,
                None => 0int,
            };
            let window = ranged_slice(bytes@, s0, end);
            let conflict = match (start, end) {
                (Some(s), Some(e)) => s > e,
                _ => false,
            };
            if conflict {
                r == Err::<Vec<u8>, HexError>(HexError::InvalidArguments)
            } else if s0 > bytes@.len() {
                r == Err::<Vec<u8>, HexError>(HexError::UnexpectedEndOfSource)
            } else if s0 + window.len() > 0xFFFF_FFFF {
                r == Err::<Vec<u8>, HexError>(HexError::InvalidArguments)
            } else {
                match r {
                    Ok(out) => out@ == render(
                        &colorer,
                        s0,
                        bytes_per_line_of(width as nat),
                        window,
                    ),
                    Err(_) => false,
                }
            }
        }),
{
    let mut reader = match RangeReader::new(start, end) {
        Ok(reader) => reader,
        Err(e) => {
            return Err(e);
        },
    };
    if bytes.len() > usize::MAX - reader.pos {
        return Err(HexError::InvalidArguments);
    }
    let part = reader.read(bytes);
    if let Err(e) = reader.end_of_source() {
        return Err(e);
    }
    let s0 = match start {
        Some(s) => s,
        None => 0,
    };
    proof {
        assert(part@ == ranged_slice(
            bytes@,
            s0 as int,
            end,
        )) by {
            assert(Seq::<u8>::empty() + bytes@ =~= bytes@);
            assert(Seq::<u8>::empty() + part@ =~= part@);
        }
    }
    if s0 > 0xFFFF_FFFF || part.len() > 0xFFFF_FFFF - s0 {
        return Err(HexError::InvalidArguments);
    }
    let mut writer = HexWriterBuilder {
        width,
        start_position: s0,
        colorer,
    }.build();
    writer.write(part.as_slice());
    Ok(writer.finish())
}

} // verus!
