//! What a driver is to its users: the entropy it holds and how deep
//! generators are nested.

use vstd::prelude::*;

verus! {

/// The bytes that a driver has yet to hand out.
pub enum Entropy {
    /// These bytes, in this order, and no more.
    Fixed(Seq<u8>),
    /// Up to this many bytes, of which nothing is known beforehand.
    Random(nat),
}

impl Entropy {
    /// The number of bytes that can still be handed out.
    pub open spec fn budget(self) -> nat {
        match self {
            Entropy::Fixed(tape) => tape.len(),
            Entropy::Random(budget) => budget,
        }
    }

    /// The entropy left once `count` bytes have been handed out.
    pub open spec fn after(self, count: nat) -> Entropy {
        match self {
            Entropy::Fixed(tape) => Entropy::Fixed(tape.skip(count as int)),
            Entropy::Random(budget) => Entropy::Random((budget - count) as nat),
        }
    }

    /// Entropy of the same kind as `before` that holds no more bytes.
    pub open spec fn follows(self, before: Entropy) -> bool {
        &&& self is Fixed <==> before is Fixed
        &&& self.budget() <= before.budget()
    }
}

/// The view of a driver.
pub struct DriverView {
    /// The bytes that it has yet to hand out.
    pub entropy: Entropy,
    /// How deep generators are nested at present.
    pub depth: nat,
    /// How deep generators may nest.
    pub max_depth: nat,
}

impl DriverView {
    /// The driver once `count` bytes have been handed out.
    pub open spec fn after(self, count: nat) -> DriverView {
        DriverView { entropy: self.entropy.after(count), ..self }
    }

    /// How many more levels generators may nest.
    pub open spec fn room(self) -> nat {
        if self.depth >= self.max_depth {
            0
        } else {
            (self.max_depth - self.depth) as nat
        }
    }

    /// The view of a driver at the same depth as `before`, with entropy of
    /// the same kind and no more of it.
    pub open spec fn follows(self, before: DriverView) -> bool {
        &&& self.entropy.follows(before.entropy)
        &&& self.depth == before.depth
        &&& self.max_depth == before.max_depth
    }
}

/// Handing out bytes in two steps is handing them out in one.
pub proof fn lemma_after_after(view: DriverView, first: nat, second: nat)
    requires
        first + second <= view.entropy.budget(),
    ensures
        view.after(first).after(second) == view.after(first + second),
{
    match view.entropy {
        Entropy::Fixed(tape) => {
            assert(tape.skip(first as int).skip(second as int) == tape.skip(
                (first + second) as int,
            ));
        },
        Entropy::Random(_) => {},
    }
}

/// 256 to the power of `exponent`.
pub open spec fn pow256(exponent: nat) -> nat
    decreases exponent,
{
    if exponent == 0 {
        1
    } else {
        256 * pow256((exponent - 1) as nat)
    }
}

/// The number that `bytes` spell, least significant byte first.
pub open spec fn le_value(bytes: Seq<u8>) -> nat
    decreases bytes.len(),
{
    if bytes.len() == 0 {
        0
    } else {
        le_value(bytes.drop_last()) + (bytes.last() as nat) * pow256((bytes.len() - 1) as nat)
    }
}

/// `raw` brought into the range from `low` to `high` by its remainder.
pub open spec fn scaled(raw: nat, low: nat, high: nat) -> nat {
    low + raw % ((high - low + 1) as nat)
}

/// Powers of 256 grow with the exponent.
pub proof fn lemma_pow256_grows(small: nat, large: nat)
    requires
        small <= large,
    ensures
        0 < pow256(small) <= pow256(large),
    decreases large,
{
    if small < large {
        lemma_pow256_grows(small, (large - 1) as nat);
    } else if small > 0 {
        lemma_pow256_grows((small - 1) as nat, (small - 1) as nat);
    }
}

/// The powers of 256 that bound the integer types.
pub proof fn lemma_pow256_values()
    ensures
        pow256(0) == 1,
        pow256(1) == 0x100,
        pow256(2) == 0x1_0000,
        pow256(4) == 0x1_0000_0000,
        pow256(8) == 0x1_0000_0000_0000_0000,
        pow256(15) == 0x100_0000_0000_0000_0000_0000_0000_0000,
        pow256(16) == 0x1_0000_0000_0000_0000_0000_0000_0000_0000,
{
    reveal_with_fuel(pow256, 17);
}

/// A number spelt by bytes is below 256 to the power of their count.
pub proof fn lemma_le_value_bound(bytes: Seq<u8>)
    ensures
        le_value(bytes) < pow256(bytes.len()),
    decreases bytes.len(),
{
    if bytes.len() > 0 {
        lemma_le_value_bound(bytes.drop_last());
        let rest = le_value(bytes.drop_last());
        let unit = pow256((bytes.len() - 1) as nat);
        let last = bytes.last() as nat;
        assert(rest + last * unit < 256 * unit) by (nonlinear_arith)
            requires
                rest < unit,
                last < 256,
        ;
    }
}

/// One more byte adds its value at the next power of 256.
pub proof fn lemma_le_value_push(bytes: Seq<u8>, byte: u8)
    ensures
        le_value(bytes.push(byte)) == le_value(bytes) + (byte as nat) * pow256(bytes.len()),
        pow256(bytes.len() + 1) == 256 * pow256(bytes.len()),
{
    assert(bytes.push(byte).drop_last() == bytes);
}

/// A value brought into a range lies in it.
pub proof fn lemma_scaled_in_range(raw: nat, low: nat, high: nat)
    requires
        low <= high,
    ensures
        low <= scaled(raw, low, high) <= high,
{
    let span = (high - low + 1) as nat;
    assert(raw % span < span) by (nonlinear_arith)
        requires
            span > 0,
    ;
}

} // verus!
