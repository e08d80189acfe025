use vstd::prelude::*;

verus! {

/// The sign bit of a single-precision bit pattern.
pub const SIGN_BIT: u32 = 0x8000_0000;

/// The signed magnitude that a bit pattern stands for: its low 31 bits, negated
/// when the sign bit is set. For patterns that are not NaN, IEEE 754 orders
/// values as these codes order, and `+0` and `-0` share the code `0`.
pub open spec fn code_spec(bits: u32) -> int {
    if bits >= SIGN_BIT {
        -(bits - SIGN_BIT)
    } else {
        bits as int
    }
}

/// The order-preserving code of a ray parameter, from its bit pattern.
pub fn param_code(bits: u32) -> (c: i64)
    ensures
        c as int == code_spec(bits),
{
    if bits >= SIGN_BIT {
        -((bits - SIGN_BIT) as i64)
    } else {
        bits as i64
    }
}

/// The bit pattern of a code; a zero code gives `+0`.
pub fn param_bits(code: i64) -> (bits: u32)
    requires
        -0x7fff_ffff <= code <= 0x7fff_ffff,
    ensures
        code_spec(bits) == code as int,
        code == 0 ==> bits == 0,
{
    if code < 0 {
        ((-code) as u32) + SIGN_BIT
    } else {
        code as u32
    }
}

/// Codes give back the pattern they came from, but for `-0`, which comes back
/// as `+0`; two patterns share a code only when they are the two zeros.
pub proof fn lemma_code_round_trip(a: u32, b: u32)
    ensures
        -0x7fff_ffff <= code_spec(a) <= 0x7fff_ffff,
        code_spec(a) == code_spec(b) ==> (a == b || (code_spec(a) == 0 && (a == 0 || a == SIGN_BIT) && (b == 0 || b == SIGN_BIT))),
{
}

} // verus!
