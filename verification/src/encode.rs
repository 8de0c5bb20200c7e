//! The symbol encoder: one RGB color becomes a fixed 24-symbol pixel frame.
//!
//! A symbol is one PWM compare value for a 20-tick period. The top bit of the
//! compare register selects "active high" polarity and is always set; the low
//! bits are the duty cycle: 13/20 encodes a logical one, 5/20 a logical zero,
//! and 0/20 is the idle/reset level. Channel order on the wire is green, red,
//! blue, each channel most-significant bit first. This module is the only
//! place these protocol constants are defined.

use crate::{Error, Rgb8};
use vstd::prelude::*;

verus! {

/// Symbol for a logical one: duty 13/20, polarity bit set.
pub const SYM_HIGH: u16 = 0x800d;

/// Symbol for a logical zero: duty 5/20, polarity bit set.
pub const SYM_LOW: u16 = 0x8005;

/// Idle/reset symbol: duty 0, polarity bit only.
pub const SYM_IDLE: u16 = 0x8000;

/// Whether bit `k` of `x` is set.
pub open spec fn bit_set(x: u8, k: u8) -> bool {
    ((x >> k) & 1) == 1
}

/// The symbol that encodes one protocol bit.
pub open spec fn sym_of(b: bool) -> u16 {
    if b {
        SYM_HIGH
    } else {
        SYM_LOW
    }
}

/// The bit of `c` that position `i` of a pixel frame carries: positions 0..8
/// hold green, 8..16 red, 16..24 blue, each most-significant bit first.
pub open spec fn frame_bit(c: Rgb8, i: int) -> bool
    recommends
        0 <= i < 24,
{
    if i < 8 {
        bit_set(c.g, (7 - i) as u8)
    } else if i < 16 {
        bit_set(c.r, (15 - i) as u8)
    } else {
        bit_set(c.b, (23 - i) as u8)
    }
}

/// The 24-symbol pixel frame for one color.
pub open spec fn frame_spec(c: Rgb8) -> Seq<u16> {
    Seq::new(24, |i: int| sym_of(frame_bit(c, i)))
}

/// A run of `n` idle symbols.
pub open spec fn idle_run(n: nat) -> Seq<u16> {
    Seq::new(n, |i: int| SYM_IDLE)
}

/// Concatenation of the pixel frames of the first `j` colors.
pub open spec fn frames_upto(cs: Seq<Rgb8>, j: int) -> Seq<u16>
    decreases j,
{
    if j <= 0 {
        Seq::empty()
    } else {
        frames_upto(cs, j - 1) + frame_spec(cs[j - 1])
    }
}

/// Concatenation of the pixel frames of all colors.
pub open spec fn frames_spec(cs: Seq<Rgb8>) -> Seq<u16> {
    frames_upto(cs, cs.len() as int)
}

/// The bit that position `k` of channel group `group` decodes to, reading a
/// frame back: bit `k` of a channel sits at position `7 - k` of its group.
pub open spec fn decoded_bit(f: Seq<u16>, group: int, k: int) -> bool {
    f[group * 8 + 7 - k] == SYM_HIGH
}

/// Law: encoding a color and decoding the 24 symbols reproduces all three
/// channels bit for bit, with bit `k` of each channel at position `7 - k` of
/// that channel's 8-symbol group.
pub proof fn lemma_frame_round_trip(c: Rgb8)
    ensures
        forall|k: u8| k < 8 ==> decoded_bit(frame_spec(c), 0, k as int) == bit_set(c.g, k),
        forall|k: u8| k < 8 ==> decoded_bit(frame_spec(c), 1, k as int) == bit_set(c.r, k),
        forall|k: u8| k < 8 ==> decoded_bit(frame_spec(c), 2, k as int) == bit_set(c.b, k),
{
    assert forall|k: u8| k < 8 implies decoded_bit(frame_spec(c), 0, k as int) == bit_set(
        c.g,
        k,
    ) by {
        assert(frame_spec(c)[7 - k as int] == sym_of(frame_bit(c, 7 - k as int)));
    }
    assert forall|k: u8| k < 8 implies decoded_bit(frame_spec(c), 1, k as int) == bit_set(
        c.r,
        k,
    ) by {
        assert(frame_spec(c)[15 - k as int] == sym_of(frame_bit(c, 15 - k as int)));
    }
    assert forall|k: u8| k < 8 implies decoded_bit(frame_spec(c), 2, k as int) == bit_set(
        c.b,
        k,
    ) by {
        assert(frame_spec(c)[23 - k as int] == sym_of(frame_bit(c, 23 - k as int)));
    }
}

/// Write the pixel frame for `color` at `buf[off .. off + 24]`, leaving the
/// rest of the buffer untouched.
pub(crate) fn fill_at(color: &Rgb8, buf: &mut Vec<u16>, off: usize)
    requires
        off + 24 <= old(buf).len(),
    ensures
        final(buf)@ == old(buf)@.take(off as int) + frame_spec(*color) + old(buf)@.skip(
            off as int + 24,
        ),
{
    let mut i: usize = 0;
    while i < 24
        invariant
            i <= 24,
            off + 24 <= buf.len(),
            buf@.len() == old(buf)@.len(),
            forall|t: int| 0 <= t < i ==> buf@[off + t] == frame_spec(*color)[t],
            forall|t: int| 0 <= t < off ==> buf@[t] == old(buf)@[t],
            forall|t: int| off + 24 <= t < buf@.len() ==> buf@[t] == old(buf)@[t],
        decreases 24 - i,
    {
        let b: bool = if i < 8 {
            ((color.g >> ((7 - i) as u8)) & 1) == 1
        } else if i < 16 {
            ((color.r >> ((15 - i) as u8)) & 1) == 1
        } else {
            ((color.b >> ((23 - i) as u8)) & 1) == 1
        };
        assert(b == frame_bit(*color, i as int));
        buf[off + i] = if b {
            SYM_HIGH
        } else {
            SYM_LOW
        };
        i += 1;
    }
    assert(buf@ =~= old(buf)@.take(off as int) + frame_spec(*color) + old(buf)@.skip(
        off as int + 24,
    ));
}

/// Write `cnt` idle symbols at `buf[off .. off + cnt]`, leaving the rest of
/// the buffer untouched.
pub(crate) fn fill_idle_at(buf: &mut Vec<u16>, off: usize, cnt: usize)
    requires
        off + cnt <= old(buf).len(),
    ensures
        final(buf)@ == old(buf)@.take(off as int) + idle_run(cnt as nat) + old(buf)@.skip(
            off as int + cnt,
        ),
{
    let mut i: usize = 0;
    while i < cnt
        invariant
            i <= cnt,
            off + cnt <= buf.len(),
            buf@.len() == old(buf)@.len(),
            forall|t: int| off <= t < off + i ==> #[trigger] buf@[t] == SYM_IDLE,
            forall|t: int| 0 <= t < off ==> buf@[t] == old(buf)@[t],
            forall|t: int| off + cnt <= t < buf@.len() ==> buf@[t] == old(buf)@[t],
        decreases cnt - i,
    {
        buf[off + i] = SYM_IDLE;
        i += 1;
    }
    assert(buf@ =~= old(buf)@.take(off as int) + idle_run(cnt as nat) + old(buf)@.skip(
        off as int + cnt,
    ));
}

/// Fill the first 24 slots of `buf` with the pixel frame for `color`.
///
/// Fails, touching nothing, when the buffer is shorter than one frame.
pub fn fill_buf(color: &Rgb8, buf: &mut Vec<u16>) -> (r: Result<(), Error>)
    ensures
        r is Ok <==> old(buf).len() >= 24,
        r is Err ==> r == Err::<(), Error>(Error::BufferTooSmall) && final(buf)@ == old(buf)@,
        r is Ok ==> final(buf)@ == frame_spec(*color) + old(buf)@.skip(24),
{
    if buf.len() < 24 {
        return Err(Error::BufferTooSmall);
    }
    fill_at(color, buf, 0);
    assert(buf@ =~= frame_spec(*color) + old(buf)@.skip(24));
    Ok(())
}

} // verus!
