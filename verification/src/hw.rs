//! The PWM hardware interface, and a software register block.
//!
//! [`Instance`] abstracts what the driver needs from one PWM register block:
//! one-time configuration, the two sequence descriptors, the start task, and
//! the two completion events. Its contracts are stated over an abstract
//! register state, [`HwState`], which also records the samples the engine has
//! shifted out, so that the driver's own contracts can say exactly what
//! reaches the LED strip.
//!
//! A sequence descriptor is modelled by ownership: arming a channel hands the
//! sample buffer to the hardware, and it can only be taken back for refilling
//! once the matching completion event has been observed. That is the memory
//! discipline the real DMA engine demands — never mutate a buffer that is an
//! active DMA source.
//!
//! Completion is asynchronous, so the polling methods are nondeterministic:
//! each poll either observes no progress or observes the armed samples played.
//! [`SimPwm`] implements the interface with instant playout, which lets every
//! driver path run off-target.

use vstd::prelude::*;

verus! {

/// Lowest address of the static-RAM window the DMA engine can read.
pub const SRAM_LOWER: usize = 0x2000_0000;

/// Highest address of the static-RAM window the DMA engine can read.
pub const SRAM_UPPER: usize = 0x3000_0000;

/// Port and pin of the GPIO output the driver owns for its lifetime.
#[derive(Clone, Copy, PartialEq, Eq, Structural, Debug)]
pub struct PinId {
    pub port: u8,
    pub pin: u8,
}

/// Abstract state of one PWM register block.
///
/// `armed0` / `armed1` are the sample buffers the two sequence descriptors
/// point at, owned by the hardware while armed. `played` is every sample
/// shifted out since configuration. `a_counted` says whether the current
/// seq0 playout has already been accounted into `played` by a poll.
#[verifier::ext_equal]
pub ghost struct HwState {
    /// One-time configuration (timing base, decode mode, pin routing) done.
    pub configured: bool,
    /// Loop register set to one: play seq0 then seq1, then raise loops-done.
    pub loop_on: bool,
    /// The seq0-end event.
    pub done0: bool,
    /// The loops-done event.
    pub loops_done: bool,
    /// The current seq0 playout is already included in `played`.
    pub a_counted: bool,
    /// Samples armed on sequence channel 0, while the hardware owns them.
    pub armed0: Option<Seq<u16>>,
    /// Samples armed on sequence channel 1, while the hardware owns them.
    pub armed1: Option<Seq<u16>>,
    /// Every sample shifted out since configuration, in order.
    pub played: Seq<u16>,
}

/// The samples of the seq0 descriptor not yet accounted in `played`.
pub open spec fn seq0_pending(s: HwState) -> Seq<u16> {
    if s.armed0 is Some && !s.a_counted {
        s.armed0.unwrap()
    } else {
        Seq::empty()
    }
}

/// The state of a freshly configured register block.
pub open spec fn fresh_state() -> HwState {
    HwState {
        configured: true,
        loop_on: false,
        done0: false,
        loops_done: false,
        a_counted: true,
        armed0: None,
        armed1: None,
        played: Seq::empty(),
    }
}

/// One independent PWM sequence engine, as the driver sees it.
pub trait Instance: Sized {
    /// Abstract view of the register block. Unless an implementation says
    /// otherwise, nothing is known of it.
    open spec fn st(&self) -> HwState {
        vstd::pervasive::arbitrary()
    }

    /// An upper bound on the fruitless event-register reads left before the
    /// engine finishes what is armed: playout completes in bounded time, so
    /// busy-waiting on an event that can come is finite.
    open spec fn fuel(&self) -> nat {
        vstd::pervasive::arbitrary()
    }

    /// One-time configuration: route the output pin, select up-counting mode
    /// at a 20-tick period, common-load refresh-per-count decoding, no loop,
    /// and clear both events.
    fn configure(&mut self, pin: &PinId)
        ensures
            final(self).st() == fresh_state(),
    ;

    /// Set the loop count to one: play seq0, then seq1, then raise loops-done.
    fn set_loop_on(&mut self)
        requires
            old(self).st().configured,
        ensures
            final(self).st() == (HwState { loop_on: true, ..old(self).st() }),
    ;

    /// Disable looping: a started sequence is a one-shot.
    fn set_loop_off(&mut self)
        requires
            old(self).st().configured,
        ensures
            final(self).st() == (HwState { loop_on: false, ..old(self).st() }),
    ;

    /// Clear the loops-done event.
    fn clear_loops_done(&mut self)
        requires
            old(self).st().configured,
        ensures
            final(self).st() == (HwState { loops_done: false, ..old(self).st() }),
    ;

    /// Arm sequence channel 0 with `buf`, clear the seq0-end event and trigger
    /// the start task. The hardware owns `buf` until it is taken back.
    fn start_seq0(&mut self, buf: Vec<u16>)
        requires
            old(self).st().configured,
            old(self).st().armed0 is None,
            buf.len() >= 1,
        ensures
            final(self).st() == (HwState {
                armed0: Some(buf@),
                done0: false,
                a_counted: false,
                ..old(self).st()
            }),
    ;

    /// Take back the seq0 buffer for refilling. Only legal once the playout
    /// has been observed complete: the DMA engine must not be reading it.
    fn take_seq0(&mut self) -> (r: Vec<u16>)
        requires
            old(self).st().configured,
            old(self).st().armed0 is Some,
            old(self).st().a_counted,
        ensures
            r@ == old(self).st().armed0.unwrap(),
            final(self).st() == (HwState { armed0: None, ..old(self).st() }),
    ;

    /// Arm sequence channel 1 with `buf`, without starting anything.
    fn set_seq1(&mut self, buf: Vec<u16>)
        requires
            old(self).st().configured,
            old(self).st().armed1 is None,
            buf.len() >= 1,
        ensures
            final(self).st() == (HwState { armed1: Some(buf@), ..old(self).st() }),
    ;

    /// Take back the seq1 buffer for refilling. The seq1 samples are latched
    /// when the loops-done event is observed, so a refill is in time as long
    /// as it completes while the restarted seq0 is still playing; staying
    /// within that real-time budget is the caller's scheduling obligation.
    fn take_seq1(&mut self) -> (r: Vec<u16>)
        requires
            old(self).st().configured,
            old(self).st().armed1 is Some,
        ensures
            r@ == old(self).st().armed1.unwrap(),
            final(self).st() == (HwState { armed1: None, ..old(self).st() }),
    ;

    /// Read the seq0-end event register once. Either no progress is observed,
    /// or the armed seq0 samples have been shifted out.
    fn poll_seqend0(&mut self) -> (r: bool)
        requires
            old(self).st().configured,
        ensures
            r == final(self).st().done0,
            old(self).st().done0 ==> final(self).st() == old(self).st(),
            !old(self).st().done0 ==> final(self).st() == old(self).st() || (old(
                self,
            ).st().armed0 is Some && !old(self).st().a_counted && final(self).st() == (HwState {
                done0: true,
                a_counted: true,
                played: old(self).st().played + old(self).st().armed0.unwrap(),
                ..old(self).st()
            })),
            !old(self).st().done0 && old(self).st().armed0 is Some && !old(self).st().a_counted
                && final(self).st() == old(self).st() ==> final(self).fuel() < old(self).fuel(),
    ;

    /// Read the loops-done event register once. Either no progress is
    /// observed, or the full seq0-then-seq1 loop has been shifted out.
    fn poll_loops_done(&mut self) -> (r: bool)
        requires
            old(self).st().configured,
        ensures
            r == final(self).st().loops_done,
            old(self).st().loops_done ==> final(self).st() == old(self).st(),
            !old(self).st().loops_done ==> final(self).st() == old(self).st() || (old(
                self,
            ).st().loop_on && old(self).st().armed1 is Some && final(self).st() == (HwState {
                loops_done: true,
                done0: true,
                a_counted: true,
                played: old(self).st().played + seq0_pending(old(self).st()) + old(
                    self,
                ).st().armed1.unwrap(),
                ..old(self).st()
            })),
            !old(self).st().loops_done && old(self).st().loop_on && old(self).st().armed1 is Some
                && final(self).st() == old(self).st() ==> final(self).fuel() < old(self).fuel(),
    ;

    /// Read the seq0-end event register without any chance of progress being
    /// recorded: a plain, side-effect-free register read.
    fn read_seqend0(&self) -> (r: bool)
        ensures
            r == self.st().done0,
    ;

    /// The address the DMA engine would read `buf` from. On the target, every
    /// sample buffer lives in static RAM, inside the DMA window.
    fn buf_addr(&self, buf: &Vec<u16>) -> (r: usize)
        ensures
            SRAM_LOWER <= r <= SRAM_UPPER,
    ;
}

/// A software register block: an [`Instance`] whose playout is instant, for
/// running the driver off-target and observing what would reach the strip.
pub struct SimPwm {
    configured: bool,
    loop_on: bool,
    done0: bool,
    loops_done: bool,
    a_counted: bool,
    armed0: Option<Vec<u16>>,
    armed1: Option<Vec<u16>>,
    played: Vec<u16>,
}

impl SimPwm {
    /// A power-on register block, not yet configured.
    pub fn new() -> (r: SimPwm)
        ensures
            r.st() == (HwState {
                configured: false,
                loop_on: false,
                done0: false,
                loops_done: false,
                a_counted: true,
                armed0: None,
                armed1: None,
                played: Seq::empty(),
            }),
    {
        let r = SimPwm {
            configured: false,
            loop_on: false,
            done0: false,
            loops_done: false,
            a_counted: true,
            armed0: None,
            armed1: None,
            played: Vec::new(),
        };
        proof {
            assert(r.st() =~= (HwState {
                configured: false,
                loop_on: false,
                done0: false,
                loops_done: false,
                a_counted: true,
                armed0: None,
                armed1: None,
                played: Seq::empty(),
            }));
        }
        r
    }

    /// Every sample the engine has shifted out since configuration.
    pub fn played(&self) -> (r: &Vec<u16>)
        ensures
            r@ == self.st().played,
    {
        &self.played
    }

    /// The loops-done event register.
    pub fn loops_done_reg(&self) -> (r: bool)
        ensures
            r == self.st().loops_done,
    {
        self.loops_done
    }
}

/// Append `src` to `dst`.
fn append_copy(dst: &mut Vec<u16>, src: &Vec<u16>)
    ensures
        final(dst)@ == old(dst)@ + src@,
{
    let mut i: usize = 0;
    while i < src.len()
        invariant
            i <= src.len(),
            dst@ == old(dst)@ + src@.take(i as int),
        decreases src.len() - i,
    {
        dst.push(src[i]);
        assert(dst@ =~= old(dst)@ + src@.take(i + 1));
        i += 1;
    }
    assert(dst@ =~= old(dst)@ + src@);
}

impl Instance for SimPwm {
    closed spec fn fuel(&self) -> nat {
        0
    }

    closed spec fn st(&self) -> HwState {
        HwState {
            configured: self.configured,
            loop_on: self.loop_on,
            done0: self.done0,
            loops_done: self.loops_done,
            a_counted: self.a_counted,
            armed0: match self.armed0 {
                Some(v) => Some(v@),
                None => None,
            },
            armed1: match self.armed1 {
                Some(v) => Some(v@),
                None => None,
            },
            played: self.played@,
        }
    }

    fn configure(&mut self, _pin: &PinId) {
        self.configured = true;
        self.loop_on = false;
        self.done0 = false;
        self.loops_done = false;
        self.a_counted = true;
        self.armed0 = None;
        self.armed1 = None;
        self.played = Vec::new();
        proof {
            assert(self.st() =~= fresh_state());
        }
    }

    fn set_loop_on(&mut self) {
        self.loop_on = true;
        proof {
            assert(self.st() =~= (HwState { loop_on: true, ..old(self).st() }));
        }
    }

    fn set_loop_off(&mut self) {
        self.loop_on = false;
        proof {
            assert(self.st() =~= (HwState { loop_on: false, ..old(self).st() }));
        }
    }

    fn clear_loops_done(&mut self) {
        self.loops_done = false;
        proof {
            assert(self.st() =~= (HwState { loops_done: false, ..old(self).st() }));
        }
    }

    fn start_seq0(&mut self, buf: Vec<u16>) {
        let ghost b = buf@;
        self.armed0 = Some(buf);
        self.done0 = false;
        self.a_counted = false;
        proof {
            assert(self.st() =~= (HwState {
                armed0: Some(b),
                done0: false,
                a_counted: false,
                ..old(self).st()
            }));
        }
    }

    fn take_seq0(&mut self) -> (r: Vec<u16>) {
        let taken = self.armed0.take();
        proof {
            assert(self.st() =~= (HwState { armed0: None, ..old(self).st() }));
        }
        match taken {
            Some(v) => v,
            None => {
                proof {
                    assert(false);
                }
                Vec::new()
            },
        }
    }

    fn set_seq1(&mut self, buf: Vec<u16>) {
        let ghost b = buf@;
        self.armed1 = Some(buf);
        proof {
            assert(self.st() =~= (HwState { armed1: Some(b), ..old(self).st() }));
        }
    }

    fn take_seq1(&mut self) -> (r: Vec<u16>) {
        let taken = self.armed1.take();
        proof {
            assert(self.st() =~= (HwState { armed1: None, ..old(self).st() }));
        }
        match taken {
            Some(v) => v,
            None => {
                proof {
                    assert(false);
                }
                Vec::new()
            },
        }
    }

    fn poll_seqend0(&mut self) -> (r: bool) {
        if self.done0 {
            return true;
        }
        if self.a_counted {
            return false;
        }
        match &self.armed0 {
            Some(buf) => {
                append_copy(&mut self.played, buf);
                self.done0 = true;
                self.a_counted = true;
                proof {
                    assert(self.st() =~= (HwState {
                        done0: true,
                        a_counted: true,
                        played: old(self).st().played + old(self).st().armed0.unwrap(),
                        ..old(self).st()
                    }));
                }
                true
            },
            None => false,
        }
    }

    fn poll_loops_done(&mut self) -> (r: bool) {
        if self.loops_done {
            return true;
        }
        if !self.loop_on {
            return false;
        }
        match &self.armed1 {
            Some(_) => {},
            None => {
                return false;
            },
        }
        if !self.a_counted {
            match &self.armed0 {
                Some(buf) => {
                    append_copy(&mut self.played, buf);
                },
                None => {},
            }
        }
        self.a_counted = true;
        match &self.armed1 {
            Some(buf) => {
                append_copy(&mut self.played, buf);
            },
            None => {},
        }
        self.done0 = true;
        self.loops_done = true;
        proof {
            assert(self.st() =~= (HwState {
                loops_done: true,
                done0: true,
                a_counted: true,
                played: old(self).st().played + seq0_pending(old(self).st()) + old(
                    self,
                ).st().armed1.unwrap(),
                ..old(self).st()
            }));
        }
        true
    }

    fn read_seqend0(&self) -> (r: bool) {
        self.done0
    }

    fn buf_addr(&self, buf: &Vec<u16>) -> (r: usize) {
        SRAM_LOWER
    }
}

} // verus!
