//! The mathematical model of a rendered dump, and the verified low-level
//! emitters that produce it. A dump line is an 8-hex-digit `0x`-prefixed
//! offset header, a separator, one 3-column hex cell per byte (styled by a
//! colorer), padding up to the hex zone on the last line, a separator, and an
//! ASCII sidecar with one character per byte. All text is modeled as UTF-8
//! bytes.

use vstd::prelude::*;

use crate::colorer::Colorer;
use crate::colorer::Noop;

verus! {

/// The uppercase hex digit for a nibble value.
pub open spec fn hex_digit(n: int) -> u8 {
    if n < 10 {
        (48 + n) as u8
    } else {
        (55 + n) as u8
    }
}

/// The two uppercase hex digits of a byte, high nibble first.
pub open spec fn hex_pair(b: u8) -> Seq<u8> {
    seq![hex_digit(b as int / 16), hex_digit(b as int % 16)]
}

/// How one byte renders in the ASCII sidecar: literally if printable
/// (`32..=126`), as the placeholder `.` otherwise.
pub open spec fn sidecar_byte(b: u8) -> u8 {
    if 32 <= b <= 126 {
        b
    } else {
        46
    }
}

/// The sidecar text of a run of bytes.
pub open spec fn sidecar_text(bs: Seq<u8>) -> Seq<u8> {
    Seq::new(bs.len(), |i: int| sidecar_byte(bs[i]))
}

/// Powers of 16.
pub open spec fn pow16(k: nat) -> int
    decreases k,
{
    if k == 0 {
        1
    } else {
        16 * pow16((k - 1) as nat)
    }
}

/// The `k` uppercase hex digits of `off`, most significant first,
/// zero-padded.
pub open spec fn offset_digits(off: int, k: nat) -> Seq<u8> {
    Seq::new(k, |i: int| hex_digit((off / pow16((k - 1 - i) as nat)) % 16))
}

/// A line's offset header: `0x` followed by exactly 8 zero-padded uppercase
/// hex digits.
pub open spec fn header(off: int) -> Seq<u8> {
    seq![48u8, 120u8] + offset_digits(off, 8)
}

/// The separator between the header and the hex zone: `" │"` as UTF-8.
pub open spec fn sep_header() -> Seq<u8> {
    seq![32u8, 0xE2u8, 0x94u8, 0x82u8]
}

/// The separator between the hex zone and the sidecar: `" │ "` as UTF-8.
pub open spec fn sep_sidecar() -> Seq<u8> {
    seq![32u8, 0xE2u8, 0x94u8, 0x82u8, 32u8]
}

/// `k` blank spaces.
pub open spec fn spaces(k: nat) -> Seq<u8> {
    Seq::new(k, |i: int| 32u8)
}

/// How many bytes fit on one line of the given render width. The fixed frame
/// takes 15 columns (10 for the header, 2 and 3 for the separators) and each
/// byte takes 4 (3 in the hex zone, 1 in the sidecar); at least one byte per
/// line is always rendered.
pub open spec fn bytes_per_line_of(width: nat) -> nat {
    if width >= 19 {
        ((width - 15) / 4) as nat
    } else {
        1
    }
}

/// The visible column width of a dump line carrying `k` bytes: the 15-column
/// frame, the hex zone (3 columns per byte, padded out to `bpl` cells), and
/// one sidecar column per byte. Escape sequences occupy no columns.
pub open spec fn line_cols(bpl: nat, k: nat) -> nat {
    15 + 3 * bpl + k
}

/// How many bytes sit on the (open) last line after `n` bytes were consumed.
pub open spec fn tail_len(bpl: nat, n: nat) -> nat
    recommends
        bpl >= 1,
{
    if n == 0 {
        0
    } else if n % bpl == 0 {
        bpl
    } else {
        n % bpl
    }
}

/// One styled hex cell: the colorer's prefix for `(prev, cur)`, a space, the
/// two hex digits of `cur`, and the colorer's suffix.
pub open spec fn cell<C: Colorer>(c: &C, prev: Option<u8>, cur: u8) -> Seq<u8> {
    c.spec_prefix(prev, cur) + seq![32u8] + hex_pair(cur) + c.spec_suffix(prev, cur)
}

/// The hex cells of a run of bytes, each styled with its predecessor;
/// `prev` precedes the first byte of the run.
pub open spec fn cells<C: Colorer>(c: &C, prev: Option<u8>, bs: Seq<u8>) -> Seq<u8>
    decreases bs.len(),
{
    if bs.len() == 0 {
        Seq::empty()
    } else {
        cell(c, prev, bs[0]) + cells(c, Some(bs[0]), bs.drop_first())
    }
}

/// The text a writer has emitted after consuming `bytes`, while its last line
/// is still open: every earlier line closed (sidecar separator, sidecar,
/// newline), the current line showing its header and hex cells only. Line
/// headers carry the absolute offset `start + index * bpl`.
pub open spec fn render_open<C: Colorer>(c: &C, start: int, bpl: nat, bytes: Seq<u8>) -> Seq<u8>
    recommends
        bpl >= 1,
    decreases bytes.len(),
{
    if bytes.len() == 0 {
        Seq::empty()
    } else {
        let n = bytes.len() - 1;
        let cur = bytes[n];
        let prev: Option<u8> = if n == 0 {
            None
        } else {
            Some(bytes[n - 1])
        };
        let before = render_open(c, start, bpl, bytes.take(n));
        if n % (bpl as int) == 0 {
            let closing: Seq<u8> = if n == 0 {
                Seq::empty()
            } else {
                sep_sidecar() + sidecar_text(bytes.subrange(n - bpl, n)) + seq![10u8]
            };
            before + closing + header(start + n) + sep_header() + cell(c, prev, cur)
        } else {
            before + cell(c, prev, cur)
        }
    }
}

/// What closes the dump at end of stream: padding of the open line's hex zone
/// out to `bpl` cells, the sidecar separator, and the sidecar. An empty
/// stream closes with nothing — not even a blank line.
pub open spec fn close_tail(bpl: nat, bytes: Seq<u8>) -> Seq<u8>
    recommends
        bpl >= 1,
{
    if bytes.len() == 0 {
        Seq::empty()
    } else {
        let k = tail_len(bpl, bytes.len());
        spaces((3 * (bpl - k)) as nat) + sep_sidecar() + sidecar_text(
            bytes.subrange(bytes.len() - k, bytes.len() as int),
        )
    }
}

/// The complete rendered dump of `bytes`: the streamed text with its last
/// line closed.
pub open spec fn render<C: Colorer>(c: &C, start: int, bpl: nat, bytes: Seq<u8>) -> Seq<u8>
    recommends
        bpl >= 1,
{
    render_open(c, start, bpl, bytes) + close_tail(bpl, bytes)
}

/// The uppercase hex digit of a nibble value converts back to it.
pub open spec fn hex_digit_val(d: u8) -> int {
    if 48 <= d <= 57 {
        d - 48
    } else {
        d - 55
    }
}

/// The bytes read back from a run of 3-column hex cells: each cell's two
/// digits decode to one byte.
pub open spec fn decode_spaced_hex(s: Seq<u8>) -> Seq<u8>
    decreases s.len(),
{
    if s.len() < 3 {
        Seq::empty()
    } else {
        seq![(hex_digit_val(s[1]) * 16 + hex_digit_val(s[2])) as u8] + decode_spaced_hex(s.skip(3))
    }
}

/// Powers of 16 are positive.
proof fn lemma_pow16_pos(k: nat)
    ensures
        pow16(k) >= 1,
    decreases k,
{
    if k > 0 {
        lemma_pow16_pos((k - 1) as nat);
    }
}

/// Decoding the unstyled hex cells of a run of bytes reproduces the run
/// exactly: the hex columns of a dump are a lossless encoding of the bytes
/// they render.
pub proof fn lemma_hex_cells_round_trip(c: Noop, prev: Option<u8>, bs: Seq<u8>)
    ensures
        decode_spaced_hex(cells(&c, prev, bs)) == bs,
    decreases bs.len(),
{
    if bs.len() == 0 {
        assert(decode_spaced_hex(cells(&c, prev, bs)) =~= bs);
    } else {
        let b = bs[0];
        let rest = cells(&c, Some(b), bs.drop_first());
        let whole = cells(&c, prev, bs);
        assert(whole == cell(&c, prev, b) + rest);
        assert(cell(&c, prev, b) =~= seq![32u8, hex_digit(b as int / 16), hex_digit(b as int % 16)]);
        assert(whole.len() >= 3);
        assert(whole[1] == hex_digit(b as int / 16));
        assert(whole[2] == hex_digit(b as int % 16));
        assert(hex_digit_val(hex_digit(b as int / 16)) == b as int / 16);
        assert(hex_digit_val(hex_digit(b as int % 16)) == b as int % 16);
        assert((b as int / 16) * 16 + (b as int % 16) == b as int);
        assert(whole.skip(3) =~= rest);
        lemma_hex_cells_round_trip(c, Some(b), bs.drop_first());
        assert(decode_spaced_hex(whole) =~= bs);
    }
}

/// No rendered line's visible width exceeds the configured render width:
/// a line carries at most `bytes_per_line_of(width)` bytes, and with that
/// many cells its 15-column frame, 3 columns per hex cell and 1 per sidecar
/// character still fit in `width`, whenever `width` has room for even one
/// byte per line (at least 19 columns).
pub proof fn lemma_line_fits_width(width: nat, k: nat)
    requires
        width >= 19,
        k <= bytes_per_line_of(width),
    ensures
        line_cols(bytes_per_line_of(width), k) <= width,
{
    let bpl = bytes_per_line_of(width);
    assert(4 * bpl <= width - 15) by (nonlinear_arith)
        requires
            bpl == ((width - 15) as int) / 4,
            width >= 19,
    ;
}

/// Write the uppercase hex digit of a nibble.
fn hex_digit_byte(d: u8) -> (r: u8)
    requires
        d < 16,
    ensures
        r == hex_digit(d as int),
{
    if d < 10 {
        48 + d
    } else {
        55 + d
    }
}

/// Append the two hex digits of `b`.
pub fn push_hex_pair(out: &mut Vec<u8>, b: u8)
    ensures
        final(out)@ == old(out)@ + hex_pair(b),
{
    let hi = hex_digit_byte(b / 16);
    let lo = hex_digit_byte(b % 16);
    out.push(hi);
    out.push(lo);
    proof {
        assert(final(out)@ =~= old(out)@ + hex_pair(b));
    }
}

/// Append a line's offset header: `0x` and 8 zero-padded hex digits.
pub fn push_header(out: &mut Vec<u8>, off: usize)
    requires
        off < 0x1_0000_0000,
    ensures
        final(out)@ == old(out)@ + header(off as int),
{
    let ghost base = out@;
    out.push(48);
    out.push(120);
    proof {
        assert(pow16(0) == 1);
        assert(pow16(1) == 16);
        assert(pow16(2) == 256);
        assert(pow16(3) == 4096);
        assert(pow16(4) == 65536);
        assert(pow16(5) == 1048576);
        assert(pow16(6) == 16777216);
        assert(pow16(7) == 268435456);
    }
    let mut p: usize = 0x1000_0000;
    let mut i: usize = 0;
    while i < 8
        invariant
            i <= 8,
            off < 0x1_0000_0000,
            i < 8 ==> p == pow16((7 - i) as nat),
            out@ == base + seq![48u8, 120u8] + offset_digits(off as int, 8).take(i as int),
        decreases 8 - i,
    {
        proof {
            lemma_pow16_pos((7 - i) as nat);
        }
        let d = ((off / p) % 16) as u8;
        proof {
            assert(offset_digits(off as int, 8)[i as int] == hex_digit(
                ((off as int) / pow16((7 - i) as nat)) % 16,
            ));
        }
        let h = hex_digit_byte(d);
        out.push(h);
        proof {
            let digs = offset_digits(off as int, 8);
            assert(digs.take(i as int).push(digs[i as int]) =~= digs.take(i + 1));
            assert(out@ =~= base + seq![48u8, 120u8] + digs.take(i + 1));
            if i + 1 < 8 {
                lemma_pow16_pos((6 - i) as nat);
                assert(pow16((7 - i) as nat) == 16 * pow16((6 - i) as nat));
                assert((16 * pow16((6 - i) as nat)) / 16 == pow16((6 - i) as nat))
                    by (nonlinear_arith);
            }
        }
        p = p / 16;
        i = i + 1;
    }
    proof {
        assert(offset_digits(off as int, 8).take(8) =~= offset_digits(off as int, 8));
        assert(out@ =~= base + header(off as int));
    }
}

/// Append the header separator `" │"`.
pub fn push_sep_header(out: &mut Vec<u8>)
    ensures
        final(out)@ == old(out)@ + sep_header(),
{
    out.push(32);
    out.push(0xE2);
    out.push(0x94);
    out.push(0x82);
    proof {
        assert(final(out)@ =~= old(out)@ + sep_header());
    }
}

/// Append the sidecar separator `" │ "`.
pub fn push_sep_sidecar(out: &mut Vec<u8>)
    ensures
        final(out)@ == old(out)@ + sep_sidecar(),
{
    out.push(32);
    out.push(0xE2);
    out.push(0x94);
    out.push(0x82);
    out.push(32);
    proof {
        assert(final(out)@ =~= old(out)@ + sep_sidecar());
    }
}

/// Append `k` blank spaces.
pub fn push_spaces(out: &mut Vec<u8>, k: usize)
    ensures
        final(out)@ == old(out)@ + spaces(k as nat),
{
    let ghost base = out@;
    let mut i: usize = 0;
    while i < k
        invariant
            i <= k,
            out@ == base + spaces(i as nat),
        decreases k - i,
    {
        out.push(32);
        proof {
            assert(base + spaces(i as nat) + seq![32u8] =~= base + spaces((i + 1) as nat));
        }
        i = i + 1;
    }
}

/// Append the ASCII sidecar of the bytes in `line`: printable bytes render
/// literally, every other byte as `.`.
pub fn push_sidecar(out: &mut Vec<u8>, line: &[u8])
    ensures
        final(out)@ == old(out)@ + sidecar_text(line@),
{
    let ghost base = out@;
    let mut i: usize = 0;
    while i < line.len()
        invariant
            i <= line@.len(),
            out@ == base + sidecar_text(line@).take(i as int),
        decreases line@.len() - i,
    {
        let b = line[i];
        let c = if 32 <= b && b <= 126 {
            b
        } else {
            46
        };
        out.push(c);
        proof {
            let sc = sidecar_text(line@);
            assert(sc.take(i as int).push(sc[i as int]) =~= sc.take(i + 1));
        }
        i = i + 1;
    }
    proof {
        assert(sidecar_text(line@).take(line@.len() as int) =~= sidecar_text(line@));
    }
}

} // verus!
