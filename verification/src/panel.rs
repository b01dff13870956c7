//! The shader program's uniforms and texture sizing.
use vstd::prelude::*;

verus! {

/// The uniforms of the console shader.
#[derive(PartialEq, Eq, Hash, Copy, Clone, Debug, Structural)]
pub enum DoryenUniforms {
    Font,
    Ascii,
    Foreground,
    Background,
    FontCharsPerLine,
    FontCoef,
    TermSize,
    TermCoef,
    ZPos,
}

/// Whether `n` is a power of two.
pub open spec fn is_power_of_two(n: nat) -> bool
    decreases n,
{
    if n == 1 {
        true
    } else if n == 0 || n % 2 == 1 {
        false
    } else {
        is_power_of_two(n / 2)
    }
}

/// The smallest power of two that is at least `value` (1 for 0).
pub fn _get_pot_value(value: u32) -> (pot: u32)
    requires
        value <= 0x8000_0000,
    ensures
        is_power_of_two(pot as nat),
        pot >= value,
        pot == 1 || pot / 2 < value,
{
    let mut pot_value: u32 = 1;
    while pot_value < value
        invariant
            is_power_of_two(pot_value as nat),
            1 <= pot_value <= 0x8000_0000,
            pot_value == 1 || pot_value / 2 < value,
            value <= 0x8000_0000,
        decreases 0x1_0000_0000 - pot_value,
    {
        assert(pot_value <= 0x4000_0000) by {
            lemma_pow2_below(pot_value as nat, value as nat);
        }
        assert((pot_value * 2) as nat / 2 == pot_value as nat);
        pot_value = pot_value * 2;
    }
    pot_value
}

/// A power of two below twice another power of two is at most that one.
proof fn lemma_pow2_le(p: nat, b: nat)
    requires
        is_power_of_two(p),
        is_power_of_two(b),
        p < 2 * b,
    ensures
        p <= b,
    decreases p,
{
    if p != 1 && b != 1 {
        lemma_pow2_le(p / 2, b / 2);
    }
}

/// A power of two below 2^31 is at most 2^30.
proof fn lemma_pow2_below(p: nat, v: nat)
    requires
        is_power_of_two(p),
        p < v,
        v <= 0x8000_0000,
    ensures
        p <= 0x4000_0000,
{
    reveal_with_fuel(is_power_of_two, 32);
    assert(is_power_of_two(0x4000_0000));
    lemma_pow2_le(p, 0x4000_0000);
}

} // verus!
