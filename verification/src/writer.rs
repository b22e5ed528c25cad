//! The incremental dump writer: consumes bytes in arrival order and renders
//! fixed-width, colorized hex-dump lines without buffering more than one line
//! of input. The writer owns no sink; it accumulates rendered text until the
//! caller drains it with [`HexWriter::take_output`] and closes the dump with
//! [`HexWriter::finish`].

use vstd::prelude::*;

use crate::buf::push_all;
use crate::colorer::Absolute;
use crate::colorer::Colorer;
use crate::render::bytes_per_line_of;
use crate::render::cell;
use crate::render::push_header;
use crate::render::push_hex_pair;
use crate::render::push_sep_header;
use crate::render::push_sep_sidecar;
use crate::render::push_sidecar;
use crate::render::push_spaces;
use crate::render::render;
use crate::render::render_open;
use crate::render::tail_len;
use vstd::arithmetic::div_mod::lemma_add_mod_noop;
use vstd::arithmetic::div_mod::lemma_mod_self_0;
use vstd::arithmetic::div_mod::lemma_small_mod;

verus! {

/// Builds a [`HexWriter`]: a plain configuration value — render width,
/// colorer, and the absolute offset the first byte sits at.
pub struct HexWriterBuilder<C: Colorer> {
    pub width: usize,
    pub start_position: usize,
    pub colorer: C,
}

/// Relies on `term_size::dimensions`: the terminal's (columns, rows), if it
/// can be determined. Nothing is assumed of the result: it depends on the
/// environment the process runs in.
#[verifier::external_body]
fn terminal_dimensions() -> (r: Option<(usize, usize)>) {
    term_size::dimensions()
}

impl Default for HexWriterBuilder<Absolute> {
    /// The default configuration: the terminal's width (80 columns when it
    /// cannot be determined), the absolute colorer, and a dump that starts
    /// at offset zero.
    fn default() -> (r: HexWriterBuilder<Absolute>)
        ensures
            r.start_position == 0,
            r.colorer.wf(),
    {
        let width = match terminal_dimensions() {
            Some((w, _)) => w,
            None => 80,
        };
        HexWriterBuilder { width, start_position: 0, colorer: Absolute::default() }
    }
}

impl<C: Colorer> HexWriterBuilder<C> {
    /// Use this colorer; the width and start position carry over.
    pub fn colorer<D: Colorer>(self, colorer: D) -> (r: HexWriterBuilder<D>)
        ensures
            r.width == self.width,
            r.start_position == self.start_position,
            r.colorer == colorer,
    {
        HexWriterBuilder { width: self.width, start_position: self.start_position, colorer }
    }

    /// Render for this many columns per line.
    pub fn width(self, width: usize) -> (r: HexWriterBuilder<C>)
        ensures
            r.width == width,
            r.start_position == self.start_position,
            r.colorer == self.colorer,
    {
        HexWriterBuilder { width, ..self }
    }

    /// The absolute offset of the first byte the writer will receive, so that
    /// line headers match the source's coordinate space.
    pub fn start_position(self, start_position: usize) -> (r: HexWriterBuilder<C>)
        ensures
            r.width == self.width,
            r.start_position == start_position,
            r.colorer == self.colorer,
    {
        HexWriterBuilder { start_position, ..self }
    }

    /// Construct the writer. The number of bytes per line is fixed here, from
    /// the width alone, and never changes mid-stream.
    pub fn build(self) -> (w: HexWriter<C>)
        requires
            self.start_position <= 0xFFFF_FFFF,
        ensures
            w.wf(),
            w.width == self.width,
            w.start_position == self.start_position,
            w.colorer == self.colorer,
            w.consumed@ == Seq::<u8>::empty(),
            w.taken@ == Seq::<u8>::empty(),
            w.out@ == Seq::<u8>::empty(),
    {
        let bytes_per_line: usize = if self.width >= 19 {
            (self.width - 15) / 4
        } else {
            1
        };
        proof {
            if self.width >= 19 {
                assert(3 * ((self.width - 15) as int / 4) + 15 <= usize::MAX)
                    by (nonlinear_arith)
                    requires
                        self.width <= usize::MAX,
                        self.width >= 19,
                ;
            }
        }
        let w = HexWriter {
            width: self.width,
            bytes_per_line,
            start_position: self.start_position,
            colorer: self.colorer,
            pos: 0,
            current_line_position: 0,
            previous_byte: None,
            line: Vec::new(),
            out: Vec::new(),
            consumed: Ghost(Seq::empty()),
            taken: Ghost(Seq::empty()),
        };
        proof {
            assert(w.line@ =~= w.consumed@.subrange(0, 0));
            assert(w.taken@ + w.out@ =~= render_open(
                &w.colorer,
                w.start_position as int,
                w.bytes_per_line as nat,
                w.consumed@,
            ));
        }
        w
    }
}

/// Renders bytes as hex-dump lines, incrementally. `line` buffers the raw
/// bytes of the line being built (for its ASCII sidecar);
/// `current_line_position` is the column reached in that line's hex zone;
/// `out` is rendered text not yet drained by the caller.
pub struct HexWriter<C: Colorer> {
    pub width: usize,
    pub bytes_per_line: usize,
    pub start_position: usize,
    pub colorer: C,
    pub pos: usize,
    pub current_line_position: usize,
    pub previous_byte: Option<u8>,
    pub line: Vec<u8>,
    pub out: Vec<u8>,
    /// Every byte the writer has consumed, in order.
    pub consumed: Ghost<Seq<u8>>,
    /// Rendered text already drained by the caller, in order.
    pub taken: Ghost<Seq<u8>>,
}

impl<C: Colorer> HexWriter<C> {
    /// The writer's structural invariant: the line buffer holds exactly the
    /// bytes of the open line, the column position never exceeds the hex
    /// zone, and the text emitted so far is exactly the open-line rendering
    /// of everything consumed.
    pub open spec fn wf(&self) -> bool {
        let n = self.consumed@.len();
        let k = tail_len(self.bytes_per_line as nat, n as nat);
        &&& self.bytes_per_line == bytes_per_line_of(self.width as nat)
        &&& self.bytes_per_line >= 1
        &&& 3 * self.bytes_per_line + 15 <= usize::MAX
        &&& self.pos == n
        &&& self.start_position + n <= 0xFFFF_FFFF
        &&& k <= n
        &&& self.line@ == self.consumed@.subrange(n - k, n as int)
        &&& self.previous_byte == if n == 0 {
            None::<u8>
        } else {
            Some(self.consumed@.last())
        }
        &&& self.current_line_position == if n == 0 {
            0int
        } else {
            12 + 3 * (k as int)
        }
        &&& self.current_line_position <= 12 + 3 * self.bytes_per_line
        &&& self.taken@ + self.out@ == render_open(
            &self.colorer,
            self.start_position as int,
            self.bytes_per_line as nat,
            self.consumed@,
        )
    }

    /// Append one byte to the dump: close the current line first if it is
    /// full, emit the header when a line opens, then emit the byte's styled
    /// hex cell and remember it for the sidecar.
    fn emit_byte(&mut self, b: u8)
        requires
            old(self).wf(),
            old(self).start_position + old(self).consumed@.len() + 1 <= 0xFFFF_FFFF,
        ensures
            final(self).wf(),
            final(self).consumed@ == old(self).consumed@.push(b),
            final(self).taken@ == old(self).taken@,
            final(self).width == old(self).width,
            final(self).bytes_per_line == old(self).bytes_per_line,
            final(self).start_position == old(self).start_position,
            final(self).colorer == old(self).colorer,
    {
        let ghost s = self.consumed@;
        let ghost n = s.len() as int;
        let ghost bpl = self.bytes_per_line as nat;
        proof {
            assert(s.push(b).take(n) =~= s);
            assert(s.push(b)[n] == b);
        }
        if self.pos == 0 {
            push_header(&mut self.out, self.start_position);
            push_sep_header(&mut self.out);
            self.current_line_position = 12;
        } else if self.line.len() == self.bytes_per_line {
            // The line is full: close it and open the next one.
            proof {
                // n > 0 and the line buffer spans a whole line, so n % bpl == 0.
                assert(tail_len(bpl, n as nat) == bpl);
                assert(n % (bpl as int) == 0);
                assert(s.push(b).subrange(n - bpl, n) =~= s.subrange(n - bpl, n));
            }
            push_sep_sidecar(&mut self.out);
            let line = self.line.split_off(0);
            push_sidecar(&mut self.out, line.as_slice());
            self.out.push(10);
            let off = self.start_position + self.pos;
            push_header(&mut self.out, off);
            push_sep_header(&mut self.out);
            self.current_line_position = 12;
        } else {
            proof {
                assert(tail_len(bpl, n as nat) != bpl || n == 0);
                assert(n > 0 && n % (bpl as int) != 0);
            }
        }
        let mut text: Vec<u8> = Vec::new();
        text.push(32);
        push_hex_pair(&mut text, b);
        proof {
            assert(text@ =~= seq![32u8] + crate::render::hex_pair(b));
        }
        let colored = self.colorer.color(text.as_slice(), self.previous_byte, b);
        push_all(&mut self.out, colored.as_slice());
        self.line.push(b);
        self.pos = self.pos + 1;
        self.current_line_position = self.current_line_position + 3;
        self.previous_byte = Some(b);
        proof {
            self.consumed = Ghost(s.push(b));
            let c = &self.colorer;
            let start = self.start_position as int;
            let prev: Option<u8> = if n == 0 {
                None
            } else {
                Some(s[n - 1])
            };
            assert(cell(c, prev, b) =~= c.spec_prefix(prev, b) + (seq![32u8] + crate::render::hex_pair(
                b,
            )) + c.spec_suffix(prev, b));
            // Relate the new tail length to the old one.
            lemma_add_mod_noop(n, 1, bpl as int);
            if n == 0 {
                lemma_small_mod(0, bpl);
                lemma_mod_self_0(bpl as int);
                if bpl > 1 {
                    lemma_small_mod(1, bpl);
                }
                assert(n % (bpl as int) == 0);
                assert(tail_len(bpl, (n + 1) as nat) == 1);
            } else if n % (bpl as int) == 0 {
                lemma_mod_self_0(bpl as int);
                if bpl > 1 {
                    lemma_small_mod(1, bpl);
                }
                assert(tail_len(bpl, (n + 1) as nat) == 1);
            } else {
                let k = tail_len(bpl, n as nat);
                assert(k == n % (bpl as int));
                assert(1 <= k < bpl);
                lemma_small_mod(1, bpl);
                if k + 1 == bpl {
                    lemma_mod_self_0(bpl as int);
                    assert(tail_len(bpl, (n + 1) as nat) == bpl);
                } else {
                    lemma_small_mod((k + 1) as nat, bpl);
                    assert(tail_len(bpl, (n + 1) as nat) == k + 1);
                }
            }
            let k1 = tail_len(bpl, (n + 1) as nat);
            assert(self.line@ =~= self.consumed@.subrange(n + 1 - k1, n + 1));
            let opened = render_open(c, start, bpl, self.consumed@);
            if n == 0 {
                assert(opened == render_open(c, start, bpl, s) + Seq::<u8>::empty() + crate::render::header(
                    start,
                ) + crate::render::sep_header() + cell(c, prev, b));
                assert(self.taken@ + self.out@ =~= opened);
            } else if n % (bpl as int) == 0 {
                let closing = crate::render::sep_sidecar() + crate::render::sidecar_text(
                    self.consumed@.subrange(n - bpl, n),
                ) + seq![10u8];
                assert(opened == render_open(c, start, bpl, s) + closing + crate::render::header(
                    start + n,
                ) + crate::render::sep_header() + cell(c, prev, b));
                assert(self.taken@ + self.out@ =~= opened);
            } else {
                assert(opened == render_open(c, start, bpl, s) + cell(c, prev, b));
                assert(self.taken@ + self.out@ =~= opened);
            }
        }
    }

    /// Append every byte of `buf` to the dump, in order.
    pub fn write(&mut self, buf: &[u8])
        requires
            old(self).wf(),
            old(self).start_position + old(self).consumed@.len() + buf@.len() <= 0xFFFF_FFFF,
        ensures
            final(self).wf(),
            final(self).consumed@ == old(self).consumed@ + buf@,
            final(self).taken@ == old(self).taken@,
            final(self).width == old(self).width,
            final(self).bytes_per_line == old(self).bytes_per_line,
            final(self).start_position == old(self).start_position,
            final(self).colorer == old(self).colorer,
    {
        let ghost s = self.consumed@;
        let mut i: usize = 0;
        while i < buf.len()
            invariant
                i <= buf@.len(),
                self.wf(),
                self.consumed@ == s + buf@.take(i as int),
                self.taken@ == old(self).taken@,
                self.width == old(self).width,
                self.bytes_per_line == old(self).bytes_per_line,
                self.start_position == old(self).start_position,
                self.colorer == old(self).colorer,
                self.start_position + s.len() + buf@.len() <= 0xFFFF_FFFF,
            decreases buf@.len() - i,
        {
            self.emit_byte(buf[i]);
            proof {
                assert((s + buf@.take(i as int)).push(buf@[i as int]) =~= s + buf@.take(i + 1));
            }
            i = i + 1;
        }
        proof {
            assert(s + buf@.take(buf@.len() as int) =~= s + buf@);
        }
    }

    /// Drain the rendered text produced so far, leaving the writer ready for
    /// more bytes: the pipeline never buffers more than it has to.
    pub fn take_output(&mut self) -> (r: Vec<u8>)
        requires
            old(self).wf(),
        ensures
            final(self).wf(),
            r@ == old(self).out@,
            final(self).out@ == Seq::<u8>::empty(),
            final(self).taken@ == old(self).taken@ + r@,
            final(self).consumed@ == old(self).consumed@,
            final(self).width == old(self).width,
            final(self).bytes_per_line == old(self).bytes_per_line,
            final(self).start_position == old(self).start_position,
            final(self).colorer == old(self).colorer,
    {
        let r = self.out.split_off(0);
        proof {
            self.taken = Ghost(self.taken@ + r@);
            assert(self.out@ =~= Seq::<u8>::empty());
            assert(r@ =~= old(self).out@);
        }
        r
    }

    /// Close the dump: pad the open line's hex zone with blanks so every
    /// sidecar starts at the same column, emit the last sidecar, and hand
    /// back the remaining text. A stream of zero bytes closes to nothing —
    /// no trailing blank line. Together with everything already drained,
    /// the dump is the complete rendering of the consumed bytes.
    pub fn finish(self) -> (r: Vec<u8>)
        requires
            self.wf(),
        ensures
            self.taken@ + r@ == render(
                &self.colorer,
                self.start_position as int,
                self.bytes_per_line as nat,
                self.consumed@,
            ),
    {
        let ghost cons = self.consumed@;
        let ghost taken = self.taken@;
        let ghost start = self.start_position as int;
        let ghost bpl = self.bytes_per_line as nat;
        let ghost col = self.colorer;
        let HexWriter { bytes_per_line, line, mut out, .. } = self;
        let k = line.len();
        if k > 0 {
            proof {
                assert(tail_len(bpl, cons.len() as nat) == k);
            }
            push_spaces(&mut out, 3 * (bytes_per_line - k));
            push_sep_sidecar(&mut out);
            push_sidecar(&mut out, line.as_slice());
        } else {
            proof {
                assert(cons.len() == 0);
            }
        }
        proof {
            assert(taken + out@ =~= render(&col, start, bpl, cons));
        }
        out
    }
}

impl Default for HexWriter<Absolute> {
    /// The default writer: default configuration, nothing consumed yet.
    fn default() -> (w: HexWriter<Absolute>)
        ensures
            w.wf(),
            w.start_position == 0,
            w.consumed@ == Seq::<u8>::empty(),
            w.taken@ == Seq::<u8>::empty(),
    {
        HexWriterBuilder::default().build()
    }
}

} // verus!
