use vstd::prelude::*;

verus! {

/// The ASCII decimal digits of `n`, without leading zeros.
pub open spec fn digits(n: nat) -> Seq<u8>
    decreases n,
{
    if n < 10 {
        seq![(48 + n) as u8]
    } else {
        digits(n / 10) + seq![(48 + n % 10) as u8]
    }
}

/// Appends the decimal digits of `n`.
fn push_decimal(out: &mut Vec<u8>, n: u32)
    ensures
        final(out)@ == old(out)@ + digits(n as nat),
    decreases n,
{
    if n >= 10 {
        push_decimal(out, n / 10);
    }
    out.push((48 + n % 10) as u8);
    proof {
        if n >= 10 {
            assert(final(out)@ =~= old(out)@ + digits(n as nat));
        } else {
            assert(final(out)@ =~= old(out)@ + digits(n as nat));
        }
    }
}

/// The plain-text image header: magic `P3`, the size, and the largest channel value.
pub open spec fn header_spec(width: nat, height: nat) -> Seq<u8> {
    seq![80u8, 51u8, 10u8] + digits(width) + seq![32u8] + digits(height) + seq![10u8, 50u8, 53u8, 53u8, 10u8]
}

/// The header `P3\n<width> <height>\n255\n`.
pub fn header(width: u32, height: u32) -> (r: Vec<u8>)
    ensures
        r@ == header_spec(width as nat, height as nat),
{
    let mut out: Vec<u8> = Vec::new();
    out.push(80u8);
    out.push(51u8);
    out.push(10u8);
    push_decimal(&mut out, width);
    out.push(32u8);
    push_decimal(&mut out, height);
    out.push(10u8);
    out.push(50u8);
    out.push(53u8);
    out.push(53u8);
    out.push(10u8);
    assert(out@ =~= header_spec(width as nat, height as nat));
    out
}

/// A channel quantized to `0..=255`: `scaled` is the channel times 256, cut
/// to an integer, and is clamped into range.
pub open spec fn channel_spec(scaled: int) -> nat {
    if scaled < 0 {
        0
    } else if scaled > 255 {
        255
    } else {
        scaled as nat
    }
}

pub fn channel_byte(scaled: i64) -> (r: u8)
    ensures
        r as nat == channel_spec(scaled as int),
{
    if scaled < 0 {
        0
    } else if scaled > 255 {
        255
    } else {
        scaled as u8
    }
}

/// One pixel record: `R G B\n`.
pub open spec fn record_spec(r: nat, g: nat, b: nat) -> Seq<u8> {
    digits(r) + seq![32u8] + digits(g) + seq![32u8] + digits(b) + seq![10u8]
}

/// Appends the record of a pixel whose channels, times 256 and cut to
/// integers, are `r`, `g` and `b`; each is clamped into `0..=255` first.
pub fn write_color(out: &mut Vec<u8>, r: i64, g: i64, b: i64)
    ensures
        final(out)@ == old(out)@ + record_spec(
            channel_spec(r as int),
            channel_spec(g as int),
            channel_spec(b as int),
        ),
{
    let cr = channel_byte(r);
    let cg = channel_byte(g);
    let cb = channel_byte(b);
    push_decimal(out, cr as u32);
    out.push(32u8);
    push_decimal(out, cg as u32);
    out.push(32u8);
    push_decimal(out, cb as u32);
    out.push(10u8);
    assert(final(out)@ =~= old(out)@ + record_spec(
        channel_spec(r as int),
        channel_spec(g as int),
        channel_spec(b as int),
    ));
}

} // verus!
