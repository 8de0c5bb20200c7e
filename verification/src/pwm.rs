//! The driver handle and the streaming writers.
//!
//! [`Pwm`] owns one PWM register block and one output pin for its lifetime;
//! construction performs the one-time configuration. On top of the transfer
//! primitive (`start_send_raw` / `is_done_raw`) it offers a one-shot writer
//! over a caller-supplied scratch buffer (`send_full_buf`) and a dual-channel
//! loop-ahead writer (`write`) that streams any number of colors through the
//! hardware loop register with double-buffered refills.

use crate::encode::{fill_at, fill_idle_at, frame_spec, frames_spec, frames_upto, idle_run,
    SYM_IDLE};
use crate::hw::{fresh_state, seq0_pending, HwState, Instance, PinId, SRAM_LOWER, SRAM_UPPER};
use crate::{Error, Rgb8};
use vstd::prelude::*;

verus! {

/// How many u16 samples are needed to send `leds` colors, including the
/// trailing idle/reset symbols.
pub fn u16s_needed_ct(leds: usize) -> (r: usize)
    requires
        leds * 24 + 40 <= usize::MAX,
    ensures
        r == leds * 24 + 40,
{
    leds * 24 + 40
}

/// How many u16 samples are needed to send every color of `slice`, including
/// the trailing idle/reset symbols.
pub fn u16s_needed_slice(slice: &[Rgb8]) -> (r: usize)
    requires
        slice@.len() * 24 + 40 <= usize::MAX,
    ensures
        r == slice@.len() * 24 + 40,
{
    u16s_needed_ct(slice.len())
}

/// The frame the loop-ahead writer feeds the hardware at position `j`: the
/// pixel frames of the colors, then idle frames from position `len` on.
pub open spec fn feed(colors: Seq<Rgb8>, j: int) -> Seq<u16> {
    if 0 <= j < colors.len() {
        frame_spec(colors[j])
    } else {
        idle_run(24)
    }
}

/// Concatenation of the first `j` fed frames.
pub open spec fn feed_upto(colors: Seq<Rgb8>, j: int) -> Seq<u16>
    decreases j,
{
    if j <= 0 {
        Seq::empty()
    } else {
        feed_upto(colors, j - 1) + feed(colors, j - 1)
    }
}

/// How many idle frames the loop-ahead writer plays after the colors: two
/// always, a third when the color count is odd, so that the alternating A/B
/// cycle always ends with a full idle pair on the wire.
pub open spec fn pad_frames(n: nat) -> nat {
    if n % 2 == 0 {
        2
    } else {
        3
    }
}

proof fn lemma_feed_upto_frames(colors: Seq<Rgb8>, j: int)
    requires
        0 <= j <= colors.len(),
    ensures
        feed_upto(colors, j) == frames_upto(colors, j),
    decreases j,
{
    if j > 0 {
        lemma_feed_upto_frames(colors, j - 1);
    }
}

proof fn lemma_feed_upto_full(colors: Seq<Rgb8>, j: int)
    requires
        j >= colors.len(),
    ensures
        feed_upto(colors, j) == frames_spec(colors) + idle_run((24 * (j - colors.len())) as nat),
    decreases j,
{
    if j == colors.len() {
        lemma_feed_upto_frames(colors, j);
        assert(feed_upto(colors, j) =~= frames_spec(colors) + idle_run(0));
    } else {
        lemma_feed_upto_full(colors, j - 1);
        assert(feed_upto(colors, j) == feed_upto(colors, j - 1) + feed(colors, j - 1));
        assert(frames_spec(colors) + idle_run((24 * (j - 1 - colors.len())) as nat) + idle_run(24)
            =~= frames_spec(colors) + idle_run((24 * (j - colors.len())) as nat));
    }
}

/// A color-producing sequence is well formed when no value appears after a
/// prior absence has signalled its end.
pub open spec fn well_formed(items: Seq<Option<Rgb8>>) -> bool {
    forall|i: int, j: int|
        #![trigger items[i], items[j]]
        0 <= i < j < items.len() && items[i] is None ==> items[j] is None
}

/// The colors a sequence produces: everything before the first end marker.
pub open spec fn colors_of(items: Seq<Option<Rgb8>>) -> Seq<Rgb8>
    decreases items.len(),
{
    if items.len() == 0 || items[0] is None {
        Seq::empty()
    } else {
        seq![items[0].unwrap()] + colors_of(items.drop_first())
    }
}

proof fn lemma_colors_of_prefix(items: Seq<Option<Rgb8>>, k: int)
    requires
        0 <= k <= items.len(),
        forall|t: int| 0 <= t < k ==> items[t] is Some,
        k == items.len() || items[k] is None,
    ensures
        colors_of(items) == Seq::new(k as nat, |t: int| items[t].unwrap()),
    decreases k,
{
    if k == 0 {
        assert(colors_of(items) =~= Seq::new(0, |t: int| items[t].unwrap()));
    } else {
        assert(items[0] is Some);
        let rest = items.drop_first();
        assert forall|t: int| 0 <= t < k - 1 implies rest[t] is Some by {
            assert(items[t + 1] is Some);
        }
        if k < items.len() {
            assert(rest[k - 1] is None);
        }
        lemma_colors_of_prefix(rest, k - 1);
        assert(colors_of(items) =~= Seq::new(k as nat, |t: int| items[t].unwrap()));
    }
}

/// A PWM-driven smart-LED driver: exclusive owner of one sequence engine and
/// one output pin.
pub struct Pwm<T: Instance> {
    hw: T,
    #[allow(dead_code)]
    pin: PinId,
}

impl<T: Instance> Pwm<T> {
    /// Abstract view of the owned register block.
    pub closed spec fn st(&self) -> HwState {
        self.hw.st()
    }

    /// Create a new driver from a sequence engine and an output pin,
    /// performing the one-time peripheral configuration.
    pub fn new(hw: T, pin: PinId) -> (r: Pwm<T>)
        ensures
            r.st() == fresh_state(),
    {
        let mut hw = hw;
        hw.configure(&pin);
        Pwm { hw, pin }
    }

    /// Release the driver, handing back the hardware instance: the only way
    /// to reuse the peripheral elsewhere.
    pub fn free(self) -> (r: T)
        ensures
            r.st() == self.st(),
    {
        self.hw
    }

    /// Is the most recent seq0 transfer complete? A plain register read with
    /// no side effects: once complete, it stays complete until a new transfer
    /// is started.
    pub fn is_done_raw(&self) -> (r: bool)
        ensures
            r == self.st().done0,
    {
        self.hw.read_seqend0()
    }

    /// Busy-wait until the seq0-end event is up.
    fn wait_seqend0(&mut self)
        requires
            old(self).st().configured,
            old(self).st().done0 || (old(self).st().armed0 is Some && !old(self).st().a_counted),
        ensures
            old(self).st().done0 ==> final(self).st() == old(self).st(),
            !old(self).st().done0 ==> final(self).st() == (HwState {
                done0: true,
                a_counted: true,
                played: old(self).st().played + old(self).st().armed0.unwrap(),
                ..old(self).st()
            }),
    {
        loop
            invariant_except_break
                self.st().configured,
                old(self).st().done0 || (old(self).st().armed0 is Some && !old(
                    self,
                ).st().a_counted),
                self.st() == old(self).st() || (!old(self).st().done0 && old(
                    self,
                ).st().armed0 is Some && !old(self).st().a_counted && self.st() == (HwState {
                    done0: true,
                    a_counted: true,
                    played: old(self).st().played + old(self).st().armed0.unwrap(),
                    ..old(self).st()
                })),
            ensures
                self.st().done0,
                self.st() == old(self).st() || (!old(self).st().done0 && self.st() == (HwState {
                    done0: true,
                    a_counted: true,
                    played: old(self).st().played + old(self).st().armed0.unwrap(),
                    ..old(self).st()
                })),
            decreases self.hw.fuel(),
        {
            if self.hw.poll_seqend0() {
                break;
            }
        }
    }

    /// Busy-wait until the loops-done event is up.
    fn wait_loops_done(&mut self)
        requires
            old(self).st().configured,
            old(self).st().loops_done || (old(self).st().loop_on && old(
                self,
            ).st().armed1 is Some),
        ensures
            old(self).st().loops_done ==> final(self).st() == old(self).st(),
            !old(self).st().loops_done ==> final(self).st() == (HwState {
                loops_done: true,
                done0: true,
                a_counted: true,
                played: old(self).st().played + seq0_pending(old(self).st()) + old(
                    self,
                ).st().armed1.unwrap(),
                ..old(self).st()
            }),
    {
        loop
            invariant_except_break
                self.st().configured,
                old(self).st().loops_done || (old(self).st().loop_on && old(
                    self,
                ).st().armed1 is Some),
                self.st() == old(self).st() || (!old(self).st().loops_done && old(
                    self,
                ).st().loop_on && old(self).st().armed1 is Some && self.st() == (HwState {
                    loops_done: true,
                    done0: true,
                    a_counted: true,
                    played: old(self).st().played + seq0_pending(old(self).st()) + old(
                        self,
                    ).st().armed1.unwrap(),
                    ..old(self).st()
                })),
            ensures
                self.st().loops_done,
                self.st() == old(self).st() || (!old(self).st().loops_done && self.st()
                    == (HwState {
                    loops_done: true,
                    done0: true,
                    a_counted: true,
                    played: old(self).st().played + seq0_pending(old(self).st()) + old(
                        self,
                    ).st().armed1.unwrap(),
                    ..old(self).st()
                })),
            decreases self.hw.fuel(),
        {
            if self.hw.poll_loops_done() {
                break;
            }
        }
    }

    /// Arm sequence channel 0 at `addr` and begin shifting `buf` out.
    ///
    /// Fails without touching the hardware when the buffer is empty or when
    /// `addr` falls outside the DMA-addressable RAM window; the buffer rides
    /// back in the error. On success the hardware owns `buf` until the
    /// transfer is observed complete.
    pub fn start_send_raw(&mut self, addr: usize, buf: Vec<u16>) -> (r: Result<
        (),
        (Error, Vec<u16>),
    >)
        requires
            old(self).st().configured,
            old(self).st().armed0 is None,
        ensures
            r is Ok <==> (buf.len() >= 1 && SRAM_LOWER <= addr <= SRAM_UPPER),
            r is Ok ==> final(self).st() == (HwState {
                armed0: Some(buf@),
                done0: false,
                a_counted: false,
                ..old(self).st()
            }),
            r is Err ==> final(self).st() == old(self).st(),
            r matches Err((e, b)) ==> b@ == buf@ && e == (if buf.len() == 0 {
                Error::EmptyTransfer
            } else {
                Error::OutOfRangePointer
            }),
    {
        if buf.len() == 0 {
            return Err((Error::EmptyTransfer, buf));
        }
        if addr < SRAM_LOWER || addr > SRAM_UPPER {
            return Err((Error::OutOfRangePointer, buf));
        }
        self.hw.start_seq0(buf);
        Ok(())
    }

    /// Arm sequence channel 1 at `addr` with `buf`, without starting anything.
    ///
    /// Same pre-flight checks as [`Self::start_send_raw`].
    pub fn set_seq1_raw(&mut self, addr: usize, buf: Vec<u16>) -> (r: Result<
        (),
        (Error, Vec<u16>),
    >)
        requires
            old(self).st().configured,
            old(self).st().armed1 is None,
        ensures
            r is Ok <==> (buf.len() >= 1 && SRAM_LOWER <= addr <= SRAM_UPPER),
            r is Ok ==> final(self).st() == (HwState { armed1: Some(buf@), ..old(self).st() }),
            r is Err ==> final(self).st() == old(self).st(),
            r matches Err((e, b)) ==> b@ == buf@ && e == (if buf.len() == 0 {
                Error::EmptyTransfer
            } else {
                Error::OutOfRangePointer
            }),
    {
        if buf.len() == 0 {
            return Err((Error::EmptyTransfer, buf));
        }
        if addr < SRAM_LOWER || addr > SRAM_UPPER {
            return Err((Error::OutOfRangePointer, buf));
        }
        self.hw.set_seq1(buf);
        Ok(())
    }

    /// Send every color of `colors` and the trailing idle/reset symbols as a
    /// single one-shot transfer through `scratch`, blocking until the
    /// transfer completes.
    ///
    /// Fails, touching neither hardware nor scratch, when `scratch` is
    /// shorter than [`u16s_needed_slice`] requires.
    pub fn send_full_buf(&mut self, colors: &[Rgb8], scratch: &mut Vec<u16>) -> (r: Result<
        (),
        Error,
    >)
        requires
            old(self).st().configured,
            old(self).st().armed0 is None,
            colors@.len() * 24 + 40 <= usize::MAX,
        ensures
            r is Ok <==> old(scratch)@.len() >= colors@.len() * 24 + 40,
            r is Err ==> r == Err::<(), Error>(Error::BufferTooSmall) && final(scratch)@ == old(
                scratch,
            )@ && final(self).st() == old(self).st(),
            r is Ok ==> final(scratch)@ == frames_spec(colors@) + idle_run(40) + old(
                scratch,
            )@.skip((colors@.len() * 24 + 40) as int) && final(self).st() == (HwState {
                loop_on: false,
                done0: true,
                a_counted: true,
                armed0: None,
                played: old(self).st().played + frames_spec(colors@) + idle_run(40),
                ..old(self).st()
            }),
    {
        let n = colors.len();
        let needed = u16s_needed_ct(n);
        if scratch.len() < needed {
            return Err(Error::BufferTooSmall);
        }
        // Assemble the full transfer: every pixel frame, then the idle tail.
        let mut work: Vec<u16> = Vec::new();
        assert(work@ =~= frames_upto(colors@, 0));
        let mut i: usize = 0;
        while i < n
            invariant
                i <= n,
                n == colors@.len(),
                n * 24 + 40 <= usize::MAX,
                work@ == frames_upto(colors@, i as int),
                work@.len() == i * 24,
            decreases n - i,
        {
            let mut tmp: Vec<u16> = vec![SYM_IDLE; 24];
            fill_at(&colors[i], &mut tmp, 0);
            assert(tmp@ =~= frame_spec(colors@[i as int]));
            work.append(&mut tmp);
            proof {
                assert(frames_upto(colors@, i as int + 1) == frames_upto(colors@, i as int)
                    + frame_spec(colors@[i as int]));
            }
            i += 1;
        }
        let mut k: usize = 0;
        while k < 40
            invariant
                k <= 40,
                n == colors@.len(),
                n * 24 + 40 <= usize::MAX,
                work@ == frames_spec(colors@) + idle_run(k as nat),
                work@.len() == n * 24 + k,
            decreases 40 - k,
        {
            work.push(SYM_IDLE);
            assert(work@ =~= frames_spec(colors@) + idle_run((k + 1) as nat));
            k += 1;
        }
        // One-shot: no looping.
        self.hw.set_loop_off();
        let addr = self.hw.buf_addr(&work);
        match self.start_send_raw(addr, work) {
            Ok(()) => {},
            Err((e, _)) => {
                // Unreachable: the buffer is non-empty and in the DMA window.
                proof {
                    assert(false);
                }
                return Err(e);
            },
        }
        self.wait_seqend0();
        let mut work = self.hw.take_seq0();
        // Hand the transmitted samples back through the caller's scratch.
        let mut rest = scratch.split_off(needed);
        scratch.clear();
        scratch.append(&mut work);
        scratch.append(&mut rest);
        proof {
            assert(scratch@ =~= frames_spec(colors@) + idle_run(40) + old(scratch)@.skip(
                (n * 24 + 40) as int,
            ));
        }
        Ok(())
    }

    /// Stream `colors` through both sequence channels with the hardware loop
    /// register: prime A and B, then alternately refill the channel whose
    /// playout has been observed complete, restarting the A+B loop with
    /// minimal gap, and end once a full idle pair has been queued and played.
    fn write_colors(&mut self, colors: &[Rgb8])
        requires
            old(self).st().configured,
            old(self).st().armed0 is None,
            old(self).st().armed1 is None,
            colors@.len() + 3 <= usize::MAX,
        ensures
            colors@.len() == 0 ==> final(self).st() == old(self).st(),
            colors@.len() >= 1 ==> final(self).st() == (HwState {
                loop_on: true,
                done0: true,
                loops_done: true,
                a_counted: true,
                armed0: None,
                armed1: None,
                played: old(self).st().played + frames_spec(colors@) + idle_run(
                    24 * pad_frames(colors@.len()),
                ),
                ..old(self).st()
            }),
    {
        let n = colors.len();
        if n == 0 {
            return ;
        }
        // Prime channel A with the first color, channel B with the second or,
        // for a single color, with an idle frame that already counts as fed.
        let mut buf_a: Vec<u16> = vec![SYM_IDLE; 24];
        fill_at(&colors[0], &mut buf_a, 0);
        assert(buf_a@ =~= feed(colors@, 0));
        let mut buf_b: Vec<u16> = vec![SYM_IDLE; 24];
        let mut blanks_fed: usize = 1;
        if n >= 2 {
            fill_at(&colors[1], &mut buf_b, 0);
            blanks_fed = 0;
        }
        assert(buf_b@ =~= feed(colors@, 1));
        self.hw.set_loop_on();
        self.hw.clear_loops_done();
        self.hw.set_seq1(buf_b);
        self.hw.start_seq0(buf_a);
        let ghost p0 = old(self).st().played;
        proof {
            assert(p0 + feed_upto(colors@, 0) =~= p0);
            assert(self.st() =~= (HwState {
                configured: true,
                loop_on: true,
                done0: false,
                loops_done: false,
                a_counted: false,
                armed0: Some(feed(colors@, 0)),
                armed1: Some(feed(colors@, 1)),
                played: p0 + feed_upto(colors@, 0),
            }));
        }
        let mut j: usize = 2;
        loop
            invariant_except_break
                2 <= j && j <= n + 1,
                j % 2 == 0,
                n == colors@.len(),
                1 <= n,
                n + 3 <= usize::MAX,
                blanks_fed == (if j >= n {
                    j - n
                } else {
                    0
                }),
                self.st() == (HwState {
                    configured: true,
                    loop_on: true,
                    done0: false,
                    loops_done: false,
                    a_counted: false,
                    armed0: Some(feed(colors@, j - 2)),
                    armed1: Some(feed(colors@, j - 1)),
                    played: p0 + feed_upto(colors@, j - 2),
                }),
            ensures
                j % 2 == 0,
                n == colors@.len(),
                n <= j - 2,
                j <= n + 3,
                blanks_fed == j - n,
                blanks_fed >= 2,
                self.st() == (HwState {
                    configured: true,
                    loop_on: true,
                    done0: false,
                    loops_done: false,
                    a_counted: false,
                    armed0: Some(feed(colors@, j - 2)),
                    armed1: Some(feed(colors@, j - 1)),
                    played: p0 + feed_upto(colors@, j - 2),
                }),
            decreases n + 3 - j,
        {
            // A side: wait for seq0's own completion, then refill buffer A
            // while B is still playing.
            self.wait_seqend0();
            let mut a = self.hw.take_seq0();
            assert(a@.len() == 24);
            if j < n {
                fill_at(&colors[j], &mut a, 0);
            } else {
                fill_idle_at(&mut a, 0, 24);
                blanks_fed = blanks_fed + 1;
            }
            assert(a@ =~= feed(colors@, j as int));
            // B side: wait for the whole A+B loop, restart seq0 at once to
            // minimize the gap, then refill buffer B.
            self.wait_loops_done();
            self.hw.start_seq0(a);
            self.hw.clear_loops_done();
            let mut b = self.hw.take_seq1();
            assert(b@.len() == 24);
            if j + 1 < n {
                fill_at(&colors[j + 1], &mut b, 0);
            } else {
                fill_idle_at(&mut b, 0, 24);
                blanks_fed = blanks_fed + 1;
            }
            assert(b@ =~= feed(colors@, j as int + 1));
            self.hw.set_seq1(b);
            proof {
                assert(feed_upto(colors@, j as int) == feed_upto(colors@, j - 1) + feed(
                    colors@,
                    j - 1,
                ));
                assert(feed_upto(colors@, j - 1) == feed_upto(colors@, j - 2) + feed(
                    colors@,
                    j - 2,
                ));
                assert(p0 + feed_upto(colors@, j - 2) + feed(colors@, j - 2) + Seq::<u16>::empty()
                    + feed(colors@, j - 1) =~= p0 + feed_upto(colors@, j as int));
            }
            j += 2;
            // Once at least two idle frames are queued, a full idle A+B
            // cycle is in flight and the strip will be latched.
            if blanks_fed >= 2 {
                break ;
            }
        }
        // Wait until that last armed pair has actually played out, then
        // release the two idle buffers: both channels are free again.
        self.wait_loops_done();
        let _a = self.hw.take_seq0();
        let _b = self.hw.take_seq1();
        proof {
            lemma_feed_upto_full(colors@, j as int);
            assert(j - n == pad_frames(n as nat));
            assert(feed_upto(colors@, j as int) == feed_upto(colors@, j - 1) + feed(
                colors@,
                j - 1,
            ));
            assert(feed_upto(colors@, j - 1) == feed_upto(colors@, j - 2) + feed(colors@, j - 2));
            assert(p0 + feed_upto(colors@, j - 2) + feed(colors@, j - 2) + feed(colors@, j - 1)
                =~= p0 + feed_upto(colors@, j as int));
            assert(p0 + feed_upto(colors@, j as int) =~= old(self).st().played + frames_spec(
                colors@,
            ) + idle_run(24 * pad_frames(colors@.len())));
            assert(final(self).st() =~= (HwState {
                loop_on: true,
                done0: true,
                loops_done: true,
                a_counted: true,
                armed0: None,
                armed1: None,
                played: old(self).st().played + frames_spec(colors@) + idle_run(
                    24 * pad_frames(colors@.len()),
                ),
                ..old(self).st()
            }));
        }
    }

    /// Write every color a sequence produces, blocking until the strip has
    /// been latched, using internally owned scratch buffers.
    ///
    /// The sequence is its trace: colors, then `None` from the point it
    /// ends. A value after a prior absence is a protocol violation and fails
    /// the whole write before any hardware is touched.
    pub fn write(&mut self, items: &[Option<Rgb8>]) -> (r: Result<(), Error>)
        requires
            old(self).st().configured,
            old(self).st().armed0 is None,
            old(self).st().armed1 is None,
            items@.len() + 3 <= usize::MAX,
        ensures
            r is Ok <==> well_formed(items@),
            r is Err ==> r == Err::<(), Error>(Error::MalformedSequence) && final(self).st()
                == old(self).st(),
            r is Ok ==> (colors_of(items@).len() == 0 ==> final(self).st() == old(self).st()) && (
            colors_of(items@).len() >= 1 ==> final(self).st() == (HwState {
                loop_on: true,
                done0: true,
                loops_done: true,
                a_counted: true,
                armed0: None,
                armed1: None,
                played: old(self).st().played + frames_spec(colors_of(items@)) + idle_run(
                    24 * pad_frames(colors_of(items@).len()),
                ),
                ..old(self).st()
            })),
    {
        let len = items.len();
        let mut colors: Vec<Rgb8> = Vec::new();
        let mut k: usize = 0;
        while k < len
            invariant_except_break
                k <= len,
                len == items@.len(),
                forall|t: int| 0 <= t < k ==> items@[t] is Some,
                colors@ == Seq::new(k as nat, |t: int| items@[t].unwrap()),
            ensures
                k <= len,
                len == items@.len(),
                forall|t: int| 0 <= t < k ==> items@[t] is Some,
                colors@ == Seq::new(k as nat, |t: int| items@[t].unwrap()),
                k == len || items@[k as int] is None,
            decreases len - k,
        {
            match items[k] {
                Some(c) => {
                    colors.push(c);
                    assert(colors@ =~= Seq::new((k + 1) as nat, |t: int| items@[t].unwrap()));
                    k += 1;
                },
                None => {
                    break ;
                },
            }
        }
        // Anything after the first end marker must be an end marker too.
        let mut m: usize = k;
        while m < len
            invariant
                k <= m && m <= len,
                len == items@.len(),
                k == len || items@[k as int] is None,
                forall|t: int| 0 <= t < k ==> items@[t] is Some,
                forall|t: int| k <= t < m ==> items@[t] is None,
            decreases len - m,
        {
            match items[m] {
                Some(_) => {
                    proof {
                        if k == m {
                            assert(items@[k as int] is None);
                        }
                        assert(items@[k as int] is None);
                        assert(!well_formed(items@));
                    }
                    return Err(Error::MalformedSequence);
                },
                None => {
                    m += 1;
                },
            }
        }
        proof {
            assert forall|i: int, j: int|
                0 <= i < j < items@.len() && (#[trigger] items@[i]) is None implies (
            #[trigger] items@[j]) is None by {
                assert(i >= k);
            }
            lemma_colors_of_prefix(items@, k as int);
        }
        self.write_colors(colors.as_slice());
        Ok(())
    }
}

} // verus!
