//! Byte-classification colorers. A colorer is a pure strategy mapping a byte
//! (and optionally its predecessor) to a style tag, and wrapping a rendered
//! hex cell in the ANSI escape sequence for that tag. The escape sequences
//! themselves come from `termion`; the classification and the wrapping are
//! verified here.

use vstd::prelude::*;

use crate::buf::push_all;

verus! {

/// The classification a colorer assigns to one byte: an opaque rendering
/// hint, never used for control flow.
#[derive(Clone, Copy, PartialEq, Eq, Structural, Debug)]
pub enum StyleTag {
    /// Absolute: the zero byte.
    Null,
    /// Absolute: the ASCII space byte.
    Space,
    /// Absolute: a control byte, `1..=31`.
    Unprintable,
    /// Absolute: a printable byte, `33..=126`.
    Printable,
    /// Absolute: a byte beyond ASCII, `127..=255`.
    Extended,
    /// Entropy: the byte differs from its predecessor by `0..=84`.
    Low,
    /// Entropy: the byte differs from its predecessor by `85..=169`.
    Mid,
    /// Entropy: the byte differs from its predecessor by `170..=255`, or has
    /// no predecessor.
    High,
    /// No styling.
    Plain,
}

/// The ANSI foreground escape sequence, as UTF-8 bytes, that
/// `termion::color::Rgb(r, g, b).fg_string()` produces. It depends on the
/// three components alone.
pub uninterp spec fn rgb_fg_of(r: u8, g: u8, b: u8) -> Seq<u8>;

/// The ANSI foreground-reset escape sequence, `ESC [ 3 9 m`, as UTF-8 bytes.
pub open spec fn reset_fg_seq() -> Seq<u8> {
    seq![27u8, 91u8, 51u8, 57u8, 109u8]
}

/// Relies on `termion::color::Rgb::fg_string`: the ANSI foreground escape
/// for a truecolor RGB value, a pure function of the three components.
#[verifier::external_body]
fn rgb_fg_bytes(r: u8, g: u8, b: u8) -> (s: Vec<u8>)
    ensures
        s@ == rgb_fg_of(r, g, b),
{
    termion::color::Rgb(r, g, b).fg_string().into_bytes()
}

/// Relies on `termion::color::Reset::fg_str`: the constant foreground-reset
/// escape `"\x1B[39m"`.
#[verifier::external_body]
fn reset_fg_bytes() -> (s: Vec<u8>)
    ensures
        s@ == reset_fg_seq(),
{
    termion::color::Reset.fg_str().as_bytes().to_vec()
}

/// A classification strategy: a pure function from `(prev, cur)` to a style
/// tag, plus the escape bytes that frame a hex cell rendered under that tag.
pub trait Colorer: Sized {
    /// The tag assigned to `cur` when `prev` precedes it.
    spec fn spec_tag(&self, prev: Option<u8>, cur: u8) -> StyleTag;

    /// The escape bytes emitted before a cell classified for `(prev, cur)`.
    spec fn spec_prefix(&self, prev: Option<u8>, cur: u8) -> Seq<u8>;

    /// The escape bytes emitted after a cell classified for `(prev, cur)`.
    spec fn spec_suffix(&self, prev: Option<u8>, cur: u8) -> Seq<u8>;

    /// Classify one byte. Pure: no side effects, never fails.
    fn classify(&self, prev: Option<u8>, cur: u8) -> (r: StyleTag)
        ensures
            r == self.spec_tag(prev, cur),
    ;

    /// Wrap the rendered text `s` in this colorer's styling for `(prev, cur)`.
    /// The colorer never writes to the sink itself.
    fn color(&self, s: &[u8], prev: Option<u8>, cur: u8) -> (r: Vec<u8>)
        ensures
            r@ == self.spec_prefix(prev, cur) + s@ + self.spec_suffix(prev, cur),
    ;
}

/// The absolute classification: by the value of `cur` alone.
pub open spec fn absolute_tag(cur: u8) -> StyleTag {
    if cur == 0 {
        StyleTag::Null
    } else if cur == 32 {
        StyleTag::Space
    } else if cur <= 31 {
        StyleTag::Unprintable
    } else if cur <= 126 {
        StyleTag::Printable
    } else {
        StyleTag::Extended
    }
}

/// The absolute difference between a byte and its predecessor.
pub open spec fn byte_delta(prev: u8, cur: u8) -> int {
    if cur >= prev {
        cur - prev
    } else {
        prev - cur
    }
}

/// The entropy classification: by the magnitude of change from the previous
/// byte; the first byte of a stream is always the maximum-change sentinel.
pub open spec fn entropy_tag(prev: Option<u8>, cur: u8) -> StyleTag {
    match prev {
        None => StyleTag::High,
        Some(p) => {
            let d = byte_delta(p, cur);
            if d <= 84 {
                StyleTag::Low
            } else if d <= 169 {
                StyleTag::Mid
            } else {
                StyleTag::High
            }
        },
    }
}

/// Colors each byte by its own value: null, space, control, printable and
/// extended bytes each get a fixed color.
pub struct Absolute {
    pub color_null: Vec<u8>,
    pub color_space: Vec<u8>,
    pub color_printable: Vec<u8>,
    pub color_unprintable: Vec<u8>,
    pub color_rest: Vec<u8>,
    pub color_reset: Vec<u8>,
}

impl Absolute {
    /// The stored escape sequences are the ones this colorer was built with.
    pub open spec fn wf(&self) -> bool {
        &&& self.color_null@ == rgb_fg_of(242, 60, 80)
        &&& self.color_space@ == rgb_fg_of(74, 217, 217)
        &&& self.color_printable@ == rgb_fg_of(233, 255, 223)
        &&& self.color_unprintable@ == rgb_fg_of(255, 203, 5)
        &&& self.color_rest@ == rgb_fg_of(54, 177, 191)
        &&& self.color_reset@ == reset_fg_seq()
    }
}

impl Default for Absolute {
    /// The fixed palette of the absolute colorer.
    fn default() -> (r: Absolute)
        ensures
            r.wf(),
    {
        Absolute {
            color_null: rgb_fg_bytes(242, 60, 80),
            color_space: rgb_fg_bytes(74, 217, 217),
            color_printable: rgb_fg_bytes(233, 255, 223),
            color_unprintable: rgb_fg_bytes(255, 203, 5),
            color_rest: rgb_fg_bytes(54, 177, 191),
            color_reset: reset_fg_bytes(),
        }
    }
}

impl Colorer for Absolute {
    open spec fn spec_tag(&self, prev: Option<u8>, cur: u8) -> StyleTag {
        absolute_tag(cur)
    }

    open spec fn spec_prefix(&self, prev: Option<u8>, cur: u8) -> Seq<u8> {
        match absolute_tag(cur) {
            StyleTag::Null => self.color_null@,
            StyleTag::Space => self.color_space@,
            StyleTag::Unprintable => self.color_unprintable@,
            StyleTag::Printable => self.color_printable@,
            _ => self.color_rest@,
        }
    }

    open spec fn spec_suffix(&self, prev: Option<u8>, cur: u8) -> Seq<u8> {
        self.color_reset@
    }

    fn classify(&self, prev: Option<u8>, cur: u8) -> (r: StyleTag) {
        if cur == 0 {
            StyleTag::Null
        } else if cur == 32 {
            StyleTag::Space
        } else if cur <= 31 {
            StyleTag::Unprintable
        } else if cur <= 126 {
            StyleTag::Printable
        } else {
            StyleTag::Extended
        }
    }

    fn color(&self, s: &[u8], prev: Option<u8>, cur: u8) -> (r: Vec<u8>) {
        let mut r: Vec<u8> = Vec::new();
        let c = if cur == 0 {
            &self.color_null
        } else if cur == 32 {
            &self.color_space
        } else if cur <= 31 {
            &self.color_unprintable
        } else if cur <= 126 {
            &self.color_printable
        } else {
            &self.color_rest
        };
        push_all(&mut r, c.as_slice());
        push_all(&mut r, s);
        push_all(&mut r, self.color_reset.as_slice());
        proof {
            assert(r@ =~= self.spec_prefix(prev, cur) + s@ + self.spec_suffix(prev, cur));
        }
        r
    }
}

/// Colors each byte by how much it differs from its predecessor: a crude
/// visual randomness indicator.
pub struct Entropy {
    pub color_high: Vec<u8>,
    pub color_mid: Vec<u8>,
    pub color_low: Vec<u8>,
    pub color_reset: Vec<u8>,
}

impl Entropy {
    /// The stored escape sequences are the ones this colorer was built with.
    pub open spec fn wf(&self) -> bool {
        &&& self.color_high@ == rgb_fg_of(58, 58, 118)
        &&& self.color_mid@ == rgb_fg_of(26, 125, 192)
        &&& self.color_low@ == rgb_fg_of(116, 206, 204)
        &&& self.color_reset@ == reset_fg_seq()
    }
}

impl Default for Entropy {
    /// The fixed palette of the entropy colorer.
    fn default() -> (r: Entropy)
        ensures
            r.wf(),
    {
        Entropy {
            color_high: rgb_fg_bytes(58, 58, 118),
            color_mid: rgb_fg_bytes(26, 125, 192),
            color_low: rgb_fg_bytes(116, 206, 204),
            color_reset: reset_fg_bytes(),
        }
    }
}

impl Colorer for Entropy {
    open spec fn spec_tag(&self, prev: Option<u8>, cur: u8) -> StyleTag {
        entropy_tag(prev, cur)
    }

    open spec fn spec_prefix(&self, prev: Option<u8>, cur: u8) -> Seq<u8> {
        match entropy_tag(prev, cur) {
            StyleTag::Low => self.color_low@,
            StyleTag::Mid => self.color_mid@,
            _ => self.color_high@,
        }
    }

    open spec fn spec_suffix(&self, prev: Option<u8>, cur: u8) -> Seq<u8> {
        self.color_reset@
    }

    fn classify(&self, prev: Option<u8>, cur: u8) -> (r: StyleTag) {
        match prev {
            None => StyleTag::High,
            Some(p) => {
                let d = if cur >= p {
                    cur - p
                } else {
                    p - cur
                };
                if d <= 84 {
                    StyleTag::Low
                } else if d <= 169 {
                    StyleTag::Mid
                } else {
                    StyleTag::High
                }
            },
        }
    }

    fn color(&self, s: &[u8], prev: Option<u8>, cur: u8) -> (r: Vec<u8>) {
        let mut r: Vec<u8> = Vec::new();
        let c = match prev {
            None => &self.color_high,
            Some(p) => {
                let d = if cur >= p {
                    cur - p
                } else {
                    p - cur
                };
                if d <= 84 {
                    &self.color_low
                } else if d <= 169 {
                    &self.color_mid
                } else {
                    &self.color_high
                }
            },
        };
        push_all(&mut r, c.as_slice());
        push_all(&mut r, s);
        push_all(&mut r, self.color_reset.as_slice());
        proof {
            assert(r@ =~= self.spec_prefix(prev, cur) + s@ + self.spec_suffix(prev, cur));
        }
        r
    }
}

/// Applies no styling at all: the rendered text passes through unchanged.
/// Used when the destination is not a color-capable terminal or the user
/// disabled coloring.
pub struct Noop {}

impl Default for Noop {
    /// The no-styling colorer has no state.
    fn default() -> (r: Noop) {
        Noop {  }
    }
}

impl Colorer for Noop {
    open spec fn spec_tag(&self, prev: Option<u8>, cur: u8) -> StyleTag {
        StyleTag::Plain
    }

    open spec fn spec_prefix(&self, prev: Option<u8>, cur: u8) -> Seq<u8> {
        Seq::empty()
    }

    open spec fn spec_suffix(&self, prev: Option<u8>, cur: u8) -> Seq<u8> {
        Seq::empty()
    }

    fn classify(&self, prev: Option<u8>, cur: u8) -> (r: StyleTag) {
        StyleTag::Plain
    }

    fn color(&self, s: &[u8], prev: Option<u8>, cur: u8) -> (r: Vec<u8>) {
        let mut r: Vec<u8> = Vec::new();
        push_all(&mut r, s);
        proof {
            assert(r@ =~= self.spec_prefix(prev, cur) + s@ + self.spec_suffix(prev, cur));
        }
        r
    }
}

/// The absolute colorer's choice depends only on the current byte's value,
/// never on its position or on what came before: the same byte gets the same
/// tag and the same styling anywhere in the stream.
pub proof fn lemma_absolute_ignores_history(a: Absolute, p1: Option<u8>, p2: Option<u8>, cur: u8)
    ensures
        a.spec_tag(p1, cur) == a.spec_tag(p2, cur),
        a.spec_prefix(p1, cur) == a.spec_prefix(p2, cur),
        a.spec_suffix(p1, cur) == a.spec_suffix(p2, cur),
{
}

/// The entropy colorer assigns the maximum-magnitude tag to the first byte
/// of any stream, where no previous byte exists.
pub proof fn lemma_entropy_first_byte_is_high(e: Entropy, cur: u8)
    ensures
        e.spec_tag(None, cur) == StyleTag::High,
{
}

} // verus!
