//! Drivers: sources of entropy that hand out bytes, and the primitive values
//! decoded from those bytes.

pub mod bound;
pub mod bytes;
pub mod entropy;
pub mod rng;

pub use bound::Bound;
pub use bytes::ByteSliceDriver;
pub use entropy::{DriverView, Entropy};
pub use rng::Rng;

use entropy::{le_value, lemma_le_value_bound, lemma_le_value_push, pow256, scaled};
use vstd::prelude::*;

verus! {

/// The least value of the range that starts at `min`, where values are at
/// most `top`; `None` if there is none.
pub open spec fn spec_lowest(min: Bound<u128>, top: u128) -> Option<u128> {
    match min {
        Bound::Included(value) => if value <= top {
            Some(value)
        } else {
            None
        },
        Bound::Excluded(value) => if value < top {
            Some((value + 1) as u128)
        } else {
            None
        },
        Bound::Unbounded => Some(0),
    }
}

/// The greatest value of the range that ends at `max`, where values are at
/// most `top`; `None` if there is none.
pub open spec fn spec_highest(max: Bound<u128>, top: u128) -> Option<u128> {
    match max {
        Bound::Included(value) => if value <= top {
            Some(value)
        } else {
            Some(top)
        },
        Bound::Excluded(value) => if value == 0 {
            None
        } else if value <= top {
            Some((value - 1) as u128)
        } else {
            Some(top)
        },
        Bound::Unbounded => Some(top),
    }
}

/// The least and the greatest value of the range from `min` to `max`, where
/// values are at most `top`; `None` if the range is empty.
pub open spec fn spec_limits(min: Bound<u128>, max: Bound<u128>, top: u128) -> Option<
    (u128, u128),
> {
    match (spec_lowest(min, top), spec_highest(max, top)) {
        (Some(low), Some(high)) => if low <= high {
            Some((low, high))
        } else {
            None
        },
        _ => None,
    }
}

/// The least and the greatest value of the range from `min` to `max`, where
/// values are at most `top`; `None` if the range is empty.
pub fn limits(min: Bound<u128>, max: Bound<u128>, top: u128) -> (r: Option<(u128, u128)>)
    ensures
        r == spec_limits(min, max, top),
        r matches Some((low, high)) ==> low <= high <= top,
{
    let low = match min {
        Bound::Included(value) => if value <= top {
            value
        } else {
            return None;
        },
        Bound::Excluded(value) => if value < top {
            value + 1
        } else {
            return None;
        },
        Bound::Unbounded => 0,
    };
    let high = match max {
        Bound::Included(value) => if value <= top {
            value
        } else {
            top
        },
        Bound::Excluded(value) => if value == 0 {
            return None;
        } else if value <= top {
            value - 1
        } else {
            top
        },
        Bound::Unbounded => top,
    };
    if low <= high {
        Some((low, high))
    } else {
        None
    }
}

/// What a driver decodes from fixed entropy `tape` for a value of `width`
/// bytes in the range from `low` to `high`: the value and the number of
/// bytes taken, or `None` where the bytes do not suffice. The bytes are read
/// as a little-endian number and brought into the range by its remainder.
pub open spec fn parse_uint(tape: Seq<u8>, width: nat, low: nat, high: nat) -> Option<(nat, nat)> {
    if tape.len() < width {
        None
    } else {
        Some((scaled(le_value(tape.take(width as int)), low, high), width))
    }
}

/// What a driver decodes from fixed entropy `tape` for a boolean that is
/// true in `threshold` cases of 256: the value and the number of bytes
/// taken, or `None` on empty entropy. High bytes give `true`.
pub open spec fn parse_bool(tape: Seq<u8>, threshold: nat) -> Option<(bool, nat)> {
    if tape.len() < 1 {
        None
    } else {
        Some((tape[0] + threshold > 255, 1))
    }
}

/// From a driver that has no bytes left an integer in a range is never
/// decoded: the call is rejected, and the driver is left as it was.
pub proof fn lemma_empty_entropy_rejects(
    pre: DriverView,
    post: DriverView,
    width: nat,
    limits: Option<(u128, u128)>,
    r: Option<u128>,
)
    requires
        width >= 1,
        pre.entropy.budget() == 0,
        decoded_uint(pre, post, width, limits, r),
    ensures
        r is None,
        post == pre,
{
}

/// An integer that was decoded lies in the range that was asked for.
pub proof fn lemma_decoded_in_range(
    pre: DriverView,
    post: DriverView,
    width: nat,
    low: u128,
    high: u128,
    value: u128,
)
    requires
        decoded_uint(pre, post, width, Some((low, high)), Some(value)),
    ensures
        low <= value <= high,
{
}

/// The share of 256 in which a boolean is true when nothing else is asked.
pub const EVEN_ODDS: u16 = 128;

/// The share of 256 in which a boolean is true under `threshold`: even odds
/// where none is given, and never more than all of 256.
pub open spec fn spec_odds(threshold: Option<u16>) -> nat {
    match threshold {
        Some(share) => if share <= 256 {
            share as nat
        } else {
            256
        },
        None => EVEN_ODDS as nat,
    }
}

/// What a call for an integer of `width` bytes within `limits` made of a
/// driver: from `pre` it went to `post` and returned `r`. The range is
/// empty where `limits` is `None`.
pub open spec fn decoded_uint(
    pre: DriverView,
    post: DriverView,
    width: nat,
    limits: Option<(u128, u128)>,
    r: Option<u128>,
) -> bool {
    match r {
        Some(value) => {
            &&& limits matches Some((low, high))
            &&& low <= value <= high
            &&& pre.entropy.budget() >= width
            &&& post == pre.after(width)
            &&& pre.entropy matches Entropy::Fixed(tape) ==> parse_uint(
                tape,
                width,
                low as nat,
                high as nat,
            ) == Some((value as nat, width))
        },
        None => post == pre && (limits is None || pre.entropy.budget() < width),
    }
}

/// What a call for a boolean that is true in `odds` cases of 256 made of a
/// driver: from `pre` it went to `post` and returned `r`.
pub open spec fn decoded_bool(
    pre: DriverView,
    post: DriverView,
    odds: nat,
    r: Option<bool>,
) -> bool {
    match r {
        Some(value) => {
            &&& pre.entropy.budget() >= 1
            &&& post == pre.after(1)
            &&& odds == 0 ==> !value
            &&& odds == 256 ==> value
            &&& pre.entropy matches Entropy::Fixed(tape) ==> parse_bool(tape, odds) == Some(
                (value, 1nat),
            )
        },
        None => post == pre && pre.entropy.budget() < 1,
    }
}

/// What entering a nested generator made of a driver: from `pre` it went to
/// `post`, one level deeper (`Some`), or stayed where no level was left
/// (`None`).
pub open spec fn entered(pre: DriverView, post: DriverView, r: Option<()>) -> bool {
    match r {
        Some(_) => pre.room() > 0 && post == (DriverView { depth: pre.depth + 1, ..pre }),
        None => pre.room() == 0 && post == pre,
    }
}

/// A source of entropy with a limit on how deep generators may nest.
///
/// An implementation supplies the bytes and keeps the depth; the values are
/// decoded here, in the same way for every source. Where the entropy is
/// fixed, so is each value; where it is random, only the range is.
pub trait Driver: View<V = DriverView> + Sized {
    /// The number of bytes that the driver can still hand out.
    fn remaining(&self) -> (count: usize)
        ensures
            count == self@.entropy.budget(),
    ;

    /// Hands out the next byte.
    fn next_byte(&mut self) -> (byte: u8)
        requires
            old(self)@.entropy.budget() > 0,
        ensures
            final(self)@ == old(self)@.after(1),
            old(self)@.entropy matches Entropy::Fixed(tape) ==> byte == tape[0],
    ;

    /// How deep generators are nested at present.
    fn depth(&self) -> (depth: usize)
        ensures
            depth == self@.depth,
    ;

    /// How deep generators may nest.
    fn max_depth(&self) -> (max_depth: usize)
        ensures
            max_depth == self@.max_depth,
    ;

    /// Sets how deep generators are nested at present.
    fn set_depth(&mut self, depth: usize)
        ensures
            final(self)@ == (DriverView { depth: depth as nat, ..old(self)@ }),
    ;

    /// Takes `width` bytes and reads them as a little-endian number.
    /// Where fewer are left, nothing is taken and `None` returned.
    fn take(&mut self, width: usize) -> (r: Option<u128>)
        requires
            1 <= width <= 16,
        ensures
            match r {
                Some(value) => {
                    &&& old(self)@.entropy.budget() >= width
                    &&& final(self)@ == old(self)@.after(width as nat)
                    &&& value < pow256(width as nat)
                    &&& old(self)@.entropy matches Entropy::Fixed(tape) ==> value == le_value(
                        tape.take(width as int),
                    )
                },
                None => old(self)@.entropy.budget() < width && final(self)@ == old(self)@,
            },
    {
        if self.remaining() < width {
            return None;
        }
        let mut value: u128 = 0;
        let mut unit: u128 = 1;
        let mut count: usize = 0;
        let ghost mut taken: Seq<u8> = Seq::empty();
        proof {
            assert(pow256(0) == 1) by {
                reveal_with_fuel(pow256, 1);
            }
            assert(le_value(taken) == 0);
            assert(old(self)@.after(0) == old(self)@) by {
                match old(self)@.entropy {
                    Entropy::Fixed(tape) => {
                        assert(tape.skip(0) == tape);
                    },
                    Entropy::Random(_) => {},
                }
            }
        }
        while count < width
            invariant
                1 <= width <= 16,
                count <= width,
                old(self)@.entropy.budget() >= width,
                self@ == old(self)@.after(count as nat),
                taken.len() == count,
                value == le_value(taken),
                count < width ==> unit == pow256(count as nat),
                old(self)@.entropy matches Entropy::Fixed(tape) ==> taken == tape.take(
                    count as int,
                ),
            decreases width - count,
        {
            let ghost before = self@;
            let byte = self.next_byte();
            proof {
                lemma_le_value_bound(taken);
                lemma_le_value_push(taken, byte);
                entropy::lemma_pow256_grows(count as nat, 15);
                entropy::lemma_pow256_values();
                assert(value + (byte as nat) * pow256(count as nat) < pow256((count + 1) as nat))
                    by (nonlinear_arith)
                    requires
                        value < pow256(count as nat),
                        byte < 256,
                        pow256((count + 1) as nat) == 256 * pow256(count as nat),
                ;
                entropy::lemma_pow256_grows((count + 1) as nat, 16);
                assert(old(self)@.after(count as nat).after(1) == old(self)@.after(
                    (count + 1) as nat,
                )) by {
                    entropy::lemma_after_after(old(self)@, count as nat, 1);
                }
                match old(self)@.entropy {
                    Entropy::Fixed(tape) => {
                        assert(taken.push(byte) == tape.take(count + 1));
                    },
                    Entropy::Random(_) => {},
                }
                taken = taken.push(byte);
            }
            value = value + (byte as u128) * unit;
            count = count + 1;
            if count < width {
                proof {
                    entropy::lemma_pow256_grows(count as nat, 15);
                }
                unit = unit * 256;
            }
        }
        proof {
            lemma_le_value_bound(taken);
        }
        Some(value)
    }

    /// Decodes an integer of `width` bytes in the range from `low` to
    /// `high`, or `None` where fewer bytes are left.
    fn gen_uint(&mut self, width: usize, low: u128, high: u128) -> (r: Option<u128>)
        requires
            1 <= width <= 16,
            low <= high,
            high < pow256(width as nat),
        ensures
            decoded_uint(old(self)@, final(self)@, width as nat, Some((low, high)), r),
            r is None <==> old(self)@.entropy.budget() < width,
    {
        let raw = match self.take(width) {
            Some(raw) => raw,
            None => {
                return None;
            },
        };
        let span = high - low;
        let value = if span == u128::MAX {
            raw
        } else {
            low + raw % (span + 1)
        };
        proof {
            entropy::lemma_pow256_values();
            entropy::lemma_scaled_in_range(raw as nat, low as nat, high as nat);
            if span == u128::MAX {
                assert((raw as nat) % ((high - low + 1) as nat) == raw) by (nonlinear_arith)
                    requires
                        raw < high - low + 1,
                ;
            }
            assert(value == scaled(raw as nat, low as nat, high as nat));
        }
        Some(value)
    }

    /// Decodes a `u8` in the range from `min` to `max`, or `None` where the
    /// range is empty or no byte is left.
    fn gen_u8(&mut self, min: Bound<u8>, max: Bound<u8>) -> (r: Option<u8>)
        ensures
            decoded_uint(
                old(self)@,
                final(self)@,
                1,
                spec_limits(bound::spec_widen_u8(min), bound::spec_widen_u8(max), 0xff),
                bound::spec_wide_u8(r),
            ),
    {
        proof {
            entropy::lemma_pow256_values();
        }
        let (low, high) = match limits(bound::widen_u8(min), bound::widen_u8(max), 0xff) {
            Some(pair) => pair,
            None => {
                return None;
            },
        };
        match self.gen_uint(1, low, high) {
            Some(value) => Some(value as u8),
            None => None,
        }
    }

    /// Decodes a `u32` in the range from `min` to `max`, or `None` where
    /// the range is empty or fewer than four bytes are left.
    fn gen_u32(&mut self, min: Bound<u32>, max: Bound<u32>) -> (r: Option<u32>)
        ensures
            decoded_uint(
                old(self)@,
                final(self)@,
                4,
                spec_limits(bound::spec_widen_u32(min), bound::spec_widen_u32(max), 0xffff_ffff),
                bound::spec_wide_u32(r),
            ),
    {
        proof {
            entropy::lemma_pow256_values();
        }
        let (low, high) = match limits(bound::widen_u32(min), bound::widen_u32(max), 0xffff_ffff) {
            Some(pair) => pair,
            None => {
                return None;
            },
        };
        match self.gen_uint(4, low, high) {
            Some(value) => Some(value as u32),
            None => None,
        }
    }

    /// Decodes a `u64` in the range from `min` to `max`, or `None` where
    /// the range is empty or fewer than eight bytes are left.
    fn gen_u64(&mut self, min: Bound<u64>, max: Bound<u64>) -> (r: Option<u64>)
        ensures
            decoded_uint(
                old(self)@,
                final(self)@,
                8,
                spec_limits(
                    bound::spec_widen_u64(min),
                    bound::spec_widen_u64(max),
                    0xffff_ffff_ffff_ffff,
                ),
                bound::spec_wide_u64(r),
            ),
    {
        proof {
            entropy::lemma_pow256_values();
        }
        let (low, high) = match limits(
            bound::widen_u64(min),
            bound::widen_u64(max),
            0xffff_ffff_ffff_ffff,
        ) {
            Some(pair) => pair,
            None => {
                return None;
            },
        };
        match self.gen_uint(8, low, high) {
            Some(value) => Some(value as u64),
            None => None,
        }
    }

    /// Decodes a `u128` in the range from `min` to `max`, or `None` where
    /// the range is empty or fewer than sixteen bytes are left.
    fn gen_u128(&mut self, min: Bound<u128>, max: Bound<u128>) -> (r: Option<u128>)
        ensures
            decoded_uint(old(self)@, final(self)@, 16, spec_limits(min, max, u128::MAX), r),
    {
        proof {
            entropy::lemma_pow256_values();
        }
        let (low, high) = match limits(min, max, u128::MAX) {
            Some(pair) => pair,
            None => {
                return None;
            },
        };
        self.gen_uint(16, low, high)
    }

    /// Decodes a boolean that is true in `threshold` cases of 256, in half
    /// of them where no threshold is given, or `None` where no byte is
    /// left. High bytes give `true`.
    fn gen_bool(&mut self, threshold: Option<u16>) -> (r: Option<bool>)
        ensures
            decoded_bool(old(self)@, final(self)@, spec_odds(threshold), r),
    {
        let odds: u16 = match threshold {
            Some(share) => if share <= 256 {
                share
            } else {
                256
            },
            None => EVEN_ODDS,
        };
        proof {
            entropy::lemma_pow256_values();
        }
        match self.take(1) {
            Some(raw) => {
                proof {
                    match old(self)@.entropy {
                        Entropy::Fixed(tape) => {
                            let first = tape.take(1);
                            assert(first.drop_last().len() == 0);
                            assert(le_value(first) == tape[0]) by {
                                reveal_with_fuel(le_value, 2);
                            }
                        },
                        Entropy::Random(_) => {},
                    }
                }
                Some(raw + odds as u128 > 255)
            },
            None => None,
        }
    }

    /// Enters a generator of a value with several parts. `None` where
    /// generators may nest no deeper.
    fn enter_product(&mut self) -> (r: Option<()>)
        ensures
            entered(old(self)@, final(self)@, r),
    {
        let depth = self.depth();
        if depth >= self.max_depth() {
            return None;
        }
        self.set_depth(depth + 1);
        Some(())
    }

    /// Enters a generator of a value of one of several shapes. `None`
    /// where generators may nest no deeper.
    fn enter_sum(&mut self) -> (r: Option<()>)
        ensures
            entered(old(self)@, final(self)@, r),
    {
        let depth = self.depth();
        if depth >= self.max_depth() {
            return None;
        }
        self.set_depth(depth + 1);
        Some(())
    }

    /// Leaves the generator that was entered last.
    fn leave(&mut self)
        ensures
            final(self)@ == (DriverView {
                depth: if old(self)@.depth > 0 {
                    (old(self)@.depth - 1) as nat
                } else {
                    0
                },
                ..old(self)@
            }),
    {
        let depth = self.depth();
        if depth > 0 {
            self.set_depth(depth - 1);
        } else {
            self.set_depth(0);
        }
    }
}

} // verus!
