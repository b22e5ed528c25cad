//! A reader-side window: bounds an arbitrary byte source to the bytes whose
//! absolute offsets fall in `[start, end)`. The caller performs the actual
//! source reads and hands each delivered chunk in; the window decides which
//! of those bytes are surfaced, skipping the leading `start` bytes of a
//! sequential source and cutting everything at or after `end`.

use vstd::prelude::*;

use crate::error::HexError;

verus! {

/// The bytes of `delivered` that fall in the window, when the first byte of
/// `delivered` sits at absolute offset `base`.
pub open spec fn window_of(
    delivered: Seq<u8>,
    base: int,
    start: int,
    end: Option<usize>,
) -> Seq<u8> {
    let len = delivered.len() as int;
    let lo = if start - base <= len {
        start - base
    } else {
        len
    };
    let hi = match end {
        Some(e) => if e - base <= len {
            e - base
        } else {
            len
        },
        None => len,
    };
    delivered.subrange(lo, hi)
}

/// Exposes only the `[start, end)` slice of a byte source's offset space.
///
/// The reader holds no source handle: the loop that owns the source reads
/// chunks and passes each one to [`RangeReader::read`], which returns the
/// bytes to surface. `pos` is the absolute offset consumed so far. Once `end`
/// is set and `pos >= end`, [`RangeReader::done`] stays true, so the driving
/// loop never touches the source again.
pub struct RangeReader {
    pub start: usize,
    pub end: Option<usize>,
    pub pos: usize,
    /// Absolute offset of the first byte the source will deliver: 0 for a
    /// sequential source, `start` when the source was positioned directly.
    pub base: Ghost<nat>,
    /// Every byte the source has delivered so far, in order.
    pub delivered: Ghost<Seq<u8>>,
    /// Every byte surfaced to the caller so far, in order.
    pub surfaced: Ghost<Seq<u8>>,
}

impl RangeReader {
    /// The reader's structural invariant: `pos` tracks what was delivered,
    /// and what was surfaced is exactly the delivered bytes inside the window.
    pub open spec fn wf(&self) -> bool {
        &&& self.base@ == 0 || self.base@ == self.start
        &&& self.base@ <= self.start
        &&& match self.end {
            Some(e) => self.start <= e,
            None => true,
        }
        &&& self.pos == self.base@ + self.delivered@.len()
        &&& self.surfaced@ == window_of(
            self.delivered@,
            self.base@ as int,
            self.start as int,
            self.end,
        )
    }

    /// The requested start offset (0 when none was requested).
    pub open spec fn spec_start(&self) -> usize {
        self.start
    }

    /// The requested end offset, if one was requested.
    pub open spec fn spec_end(&self) -> Option<usize> {
        self.end
    }

    /// Absolute offset of the first byte the source delivers.
    pub open spec fn spec_base(&self) -> nat {
        self.base@
    }

    /// All bytes the source has delivered so far.
    pub open spec fn spec_delivered(&self) -> Seq<u8> {
        self.delivered@
    }

    /// All bytes surfaced to the caller so far.
    pub open spec fn spec_surfaced(&self) -> Seq<u8> {
        self.surfaced@
    }

    /// Bytes consumed from the source so far, as an absolute offset.
    pub open spec fn spec_pos(&self) -> usize {
        self.pos
    }

    /// A window over a sequential source: the source's first delivered byte
    /// is at offset 0, and the reader discards bytes until `start`.
    /// Rejects `start > end`.
    pub fn new(start: Option<usize>, end: Option<usize>) -> (r: Result<RangeReader, HexError>)
        ensures
            match r {
                Ok(rr) => {
                    &&& rr.wf()
                    &&& rr.spec_start() == match start {
                        Some(s) => s,
                        None => 0usize,
                    }
                    &&& rr.spec_end() == end
                    &&& rr.spec_base() == 0
                    &&& rr.spec_delivered() == Seq::<u8>::empty()
                    &&& rr.spec_surfaced() == Seq::<u8>::empty()
                    &&& rr.spec_pos() == 0
                },
                Err(e) => {
                    &&& e == HexError::InvalidArguments
                    &&& start is Some && end is Some && start.unwrap() > end.unwrap()
                },
            },
            (match (start, end) {
                (Some(s), Some(e)) => s > e,
                _ => false,
            }) <==> r is Err,
    {
        let s = match start {
            Some(s) => s,
            None => 0,
        };
        if let Some(e) = end {
            if let Some(s0) = start {
                if s0 > e {
                    return Err(HexError::InvalidArguments);
                }
            }
        }
        let r = RangeReader {
            start: s,
            end,
            pos: 0,
            base: Ghost(0nat),
            delivered: Ghost(Seq::empty()),
            surfaced: Ghost(Seq::empty()),
        };
        proof {
            assert(r.surfaced@ =~= window_of(r.delivered@, 0, r.start as int, r.end));
        }
        Ok(r)
    }

    /// A window over a source that was positioned directly at `start`: no
    /// bytes need skipping, and the first delivered byte is already at
    /// absolute offset `start`. Rejects `start > end`.
    pub fn from(start: Option<usize>, end: Option<usize>) -> (r: Result<RangeReader, HexError>)
        ensures
            match r {
                Ok(rr) => {
                    &&& rr.wf()
                    &&& rr.spec_start() == match start {
                        Some(s) => s,
                        None => 0usize,
                    }
                    &&& rr.spec_end() == end
                    &&& rr.spec_base() == rr.spec_start()
                    &&& rr.spec_delivered() == Seq::<u8>::empty()
                    &&& rr.spec_surfaced() == Seq::<u8>::empty()
                    &&& rr.spec_pos() == rr.spec_start()
                },
                Err(e) => {
                    &&& e == HexError::InvalidArguments
                    &&& start is Some && end is Some && start.unwrap() > end.unwrap()
                },
            },
    {
        let s = match start {
            Some(s) => s,
            None => 0,
        };
        if let Some(e) = end {
            if let Some(s0) = start {
                if s0 > e {
                    return Err(HexError::InvalidArguments);
                }
            }
        }
        let r = RangeReader {
            start: s,
            end,
            pos: s,
            base: Ghost(s as nat),
            delivered: Ghost(Seq::empty()),
            surfaced: Ghost(Seq::empty()),
        };
        proof {
            assert(r.surfaced@ =~= window_of(r.delivered@, s as int, r.start as int, r.end));
        }
        Ok(r)
    }

    /// The window is exhausted: `end` is set and everything up to it has been
    /// consumed. Every later read would surface nothing, so the driving loop
    /// stops touching the source once this holds.
    pub fn done(&self) -> (r: bool)
        ensures
            r == match self.spec_end() {
                Some(e) => self.spec_pos() >= e,
                None => false,
            },
    {
        match self.end {
            Some(e) => self.pos >= e,
            None => false,
        }
    }

    /// The source has ended. Fails when the end came while leading bytes were
    /// still being skipped: the requested range exceeds the input's length.
    pub fn end_of_source(&self) -> (r: Result<(), HexError>)
        ensures
            self.spec_pos() >= self.spec_start() <==> r is Ok,
            r is Err ==> r == Err::<(), HexError>(HexError::UnexpectedEndOfSource),
    {
        if self.pos >= self.start {
            Ok(())
        } else {
            Err(HexError::UnexpectedEndOfSource)
        }
    }

    /// The source delivered `chunk`; account for it and return exactly the
    /// bytes of it that fall inside `[start, end)`, in order. Bytes before
    /// `start` are discarded (the skip phase of a sequential source); bytes
    /// at or after `end` are never surfaced, even though the source already
    /// delivered them.
    pub fn read(&mut self, chunk: &[u8]) -> (out: Vec<u8>)
        requires
            old(self).wf(),
            old(self).spec_pos() + chunk@.len() <= usize::MAX,
        ensures
            final(self).wf(),
            final(self).spec_start() == old(self).spec_start(),
            final(self).spec_end() == old(self).spec_end(),
            final(self).spec_base() == old(self).spec_base(),
            final(self).spec_delivered() == old(self).spec_delivered() + chunk@,
            final(self).spec_surfaced() == old(self).spec_surfaced() + out@,
            final(self).spec_pos() == old(self).spec_pos() + chunk@.len(),
    {
        let pos0 = self.pos;
        let n = chunk.len();
        // Portion of `chunk` below `start` is skipped.
        let from: usize = if self.start > pos0 {
            if self.start - pos0 <= n {
                self.start - pos0
            } else {
                n
            }
        } else {
            0
        };
        // Portion of `chunk` at or beyond `end` is cut.
        let to: usize = match self.end {
            Some(e) => if e > pos0 {
                if e - pos0 <= n {
                    e - pos0
                } else {
                    n
                }
            } else {
                0
            },
            None => n,
        };
        let to = if to < from {
            from
        } else {
            to
        };
        let mut out: Vec<u8> = Vec::new();
        let mut i: usize = from;
        while i < to
            invariant
                from <= i <= to <= n,
                n == chunk@.len(),
                out@ == chunk@.subrange(from as int, i as int),
            decreases to - i,
        {
            out.push(chunk[i]);
            proof {
                assert(out@ =~= chunk@.subrange(from as int, i + 1));
            }
            i = i + 1;
        }
        self.pos = pos0 + n;
        proof {
            let base = self.base@ as int;
            let start = self.start as int;
            let old_del = self.delivered@;
            let new_del = old_del + chunk@;
            self.delivered = Ghost(new_del);
            self.surfaced = Ghost(self.surfaced@ + out@);
            assert(out@ == chunk@.subrange(from as int, to as int));
            assert(self.surfaced@ =~= window_of(new_del, base, start, self.end));
        }
        out
    }
}

/// The bytes observed through a window with `base == 0` over a source that
/// has delivered all of `s` are exactly `s[start .. end]`, in order, with no
/// duplication or loss, for any valid `start <= end <= s.len()`.
pub proof fn lemma_window_is_exact_slice(r: RangeReader, s: Seq<u8>, start: usize, end: usize)
    requires
        r.wf(),
        r.spec_base() == 0,
        r.spec_start() == start,
        r.spec_end() == Some(end),
        r.spec_delivered() == s,
        start <= end <= s.len(),
    ensures
        r.spec_surfaced() == s.subrange(start as int, end as int),
{
}

} // verus!
