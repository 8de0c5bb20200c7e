use nrf_smartled::encode::{fill_buf, SYM_IDLE};
use nrf_smartled::{
    u16s_needed_ct, u16s_needed_slice, Error, PinId, Pwm, Rgb8, SimPwm, SRAM_LOWER,
};

fn pin() -> PinId {
    PinId { port: 0, pin: 16 }
}

fn frame_of(c: &Rgb8) -> Vec<u16> {
    let mut buf = vec![0u16; 24];
    fill_buf(c, &mut buf).unwrap();
    buf
}

#[test]
fn required_length_formula() {
    assert_eq!(u16s_needed_ct(0), 40);
    assert_eq!(u16s_needed_ct(1), 64);
    assert_eq!(u16s_needed_ct(7), 7 * 24 + 40);
    assert_eq!(u16s_needed_slice(&[]), 40);
    let three = [Rgb8 { r: 1, g: 2, b: 3 }; 3];
    assert_eq!(u16s_needed_slice(&three), 112);
}

#[test]
fn start_on_empty_buffer_fails_without_touching_flags() {
    let mut pwm = Pwm::new(SimPwm::new(), pin());
    let done_before = pwm.is_done_raw();
    match pwm.start_send_raw(SRAM_LOWER, Vec::new()) {
        Err((e, b)) => {
            assert_eq!(e, Error::EmptyTransfer);
            assert!(b.is_empty());
        },
        Ok(()) => panic!("empty transfer must fail"),
    }
    assert_eq!(pwm.is_done_raw(), done_before);
    let sim = pwm.free();
    assert!(sim.played().is_empty());
}

#[test]
fn start_outside_dma_window_fails() {
    let mut pwm = Pwm::new(SimPwm::new(), pin());
    match pwm.start_send_raw(0x1000, vec![SYM_IDLE; 4]) {
        Err((e, b)) => {
            assert_eq!(e, Error::OutOfRangePointer);
            assert_eq!(b, vec![SYM_IDLE; 4]);
        },
        Ok(()) => panic!("address below the window must fail"),
    }
    match pwm.start_send_raw(0x3000_0001, vec![SYM_IDLE; 4]) {
        Err((e, _)) => assert_eq!(e, Error::OutOfRangePointer),
        Ok(()) => panic!("address above the window must fail"),
    }
    assert!(!pwm.is_done_raw());
    let sim = pwm.free();
    assert!(sim.played().is_empty());
}

#[test]
fn set_seq1_has_the_same_preflight_checks() {
    let mut pwm = Pwm::new(SimPwm::new(), pin());
    match pwm.set_seq1_raw(SRAM_LOWER, Vec::new()) {
        Err((e, _)) => assert_eq!(e, Error::EmptyTransfer),
        Ok(()) => panic!("empty descriptor must fail"),
    }
    match pwm.set_seq1_raw(0xfff, vec![SYM_IDLE; 2]) {
        Err((e, _)) => assert_eq!(e, Error::OutOfRangePointer),
        Ok(()) => panic!("address outside the window must fail"),
    }
    assert!(pwm.set_seq1_raw(SRAM_LOWER, vec![SYM_IDLE; 2]).is_ok());
}

#[test]
fn send_full_buf_rejects_short_scratch() {
    let mut pwm = Pwm::new(SimPwm::new(), pin());
    let colors = [Rgb8 { r: 255, g: 0, b: 0 }];
    let mut scratch = vec![3u16; 63];
    assert_eq!(pwm.send_full_buf(&colors, &mut scratch), Err(Error::BufferTooSmall));
    assert_eq!(scratch, vec![3u16; 63]);
    let sim = pwm.free();
    assert!(sim.played().is_empty());
}

#[test]
fn send_one_red_color_frame_and_idle_tail() {
    let mut pwm = Pwm::new(SimPwm::new(), pin());
    let red = Rgb8 { r: 255, g: 0, b: 0 };
    let mut scratch = vec![0u16; 64];
    assert_eq!(pwm.send_full_buf(&[red], &mut scratch), Ok(()));
    let mut expected = frame_of(&red);
    expected.extend(std::iter::repeat(SYM_IDLE).take(40));
    assert_eq!(scratch, expected);
    assert!(pwm.is_done_raw());
    let sim = pwm.free();
    assert_eq!(sim.played(), &expected);
}

#[test]
fn send_keeps_scratch_past_the_transfer() {
    let mut pwm = Pwm::new(SimPwm::new(), pin());
    let c = Rgb8 { r: 1, g: 2, b: 3 };
    let mut scratch = vec![0x1234u16; 70];
    assert_eq!(pwm.send_full_buf(&[c], &mut scratch), Ok(()));
    assert_eq!(scratch.len(), 70);
    for i in 64..70 {
        assert_eq!(scratch[i], 0x1234);
    }
}

#[test]
fn is_done_is_idempotent_after_a_completed_write() {
    let mut pwm = Pwm::new(SimPwm::new(), pin());
    let mut scratch = vec![0u16; 64];
    assert_eq!(pwm.send_full_buf(&[Rgb8 { r: 8, g: 8, b: 8 }], &mut scratch), Ok(()));
    assert!(pwm.is_done_raw());
    assert!(pwm.is_done_raw());
    assert!(pwm.is_done_raw());
    let sim = pwm.free();
    assert_eq!(sim.played().len(), 64);
}

#[test]
fn write_zero_colors_does_nothing_and_succeeds() {
    let mut pwm = Pwm::new(SimPwm::new(), pin());
    assert_eq!(pwm.write(&[]), Ok(()));
    assert!(!pwm.is_done_raw());
    let sim = pwm.free();
    assert!(sim.played().is_empty());
    assert!(!sim.loops_done_reg());
}

#[test]
fn write_one_color_plays_one_frame_and_three_idle_frames() {
    let mut pwm = Pwm::new(SimPwm::new(), pin());
    let red = Rgb8 { r: 255, g: 0, b: 0 };
    assert_eq!(pwm.write(&[Some(red)]), Ok(()));
    assert!(pwm.is_done_raw());
    let sim = pwm.free();
    let played = sim.played();
    assert_eq!(played.len(), 24 + 3 * 24);
    assert_eq!(&played[..24], frame_of(&red).as_slice());
    for s in &played[24..] {
        assert_eq!(*s, SYM_IDLE);
    }
    assert!(sim.loops_done_reg());
}

#[test]
fn write_two_colors_plays_two_frames_and_two_idle_frames() {
    let mut pwm = Pwm::new(SimPwm::new(), pin());
    let a = Rgb8 { r: 10, g: 20, b: 30 };
    let b = Rgb8 { r: 0, g: 0, b: 255 };
    assert_eq!(pwm.write(&[Some(a), Some(b)]), Ok(()));
    let sim = pwm.free();
    let played = sim.played();
    assert_eq!(played.len(), 2 * 24 + 2 * 24);
    assert_eq!(&played[..24], frame_of(&a).as_slice());
    assert_eq!(&played[24..48], frame_of(&b).as_slice());
    for s in &played[48..] {
        assert_eq!(*s, SYM_IDLE);
    }
}

#[test]
fn write_three_colors_ends_with_loop_done_and_idle_pair() {
    let mut pwm = Pwm::new(SimPwm::new(), pin());
    let a = Rgb8 { r: 255, g: 0, b: 0 };
    let b = Rgb8 { r: 0, g: 255, b: 0 };
    let c = Rgb8 { r: 0, g: 0, b: 255 };
    assert_eq!(pwm.write(&[Some(a), Some(b), Some(c)]), Ok(()));
    let sim = pwm.free();
    // 3 real frames plus at least 2 synthetic idle frames, all played out.
    assert!(sim.loops_done_reg());
    let played = sim.played();
    assert_eq!(played.len(), 3 * 24 + 3 * 24);
    assert_eq!(&played[..24], frame_of(&a).as_slice());
    assert_eq!(&played[24..48], frame_of(&b).as_slice());
    assert_eq!(&played[48..72], frame_of(&c).as_slice());
    for s in &played[72..] {
        assert_eq!(*s, SYM_IDLE);
    }
}

#[test]
fn write_tolerates_trailing_end_markers() {
    let mut pwm = Pwm::new(SimPwm::new(), pin());
    let c = Rgb8 { r: 5, g: 6, b: 7 };
    assert_eq!(pwm.write(&[Some(c), None, None]), Ok(()));
    let sim = pwm.free();
    assert_eq!(sim.played().len(), 24 + 3 * 24);
}

#[test]
fn value_after_end_marker_is_a_protocol_violation() {
    let mut pwm = Pwm::new(SimPwm::new(), pin());
    let c = Rgb8 { r: 5, g: 6, b: 7 };
    assert_eq!(pwm.write(&[Some(c), None, Some(c)]), Err(Error::MalformedSequence));
    assert_eq!(pwm.write(&[None, Some(c)]), Err(Error::MalformedSequence));
    let sim = pwm.free();
    assert!(sim.played().is_empty());
    assert!(!sim.loops_done_reg());
}

#[test]
fn write_is_repeatable_on_one_handle() {
    let mut pwm = Pwm::new(SimPwm::new(), pin());
    let a = Rgb8 { r: 1, g: 2, b: 3 };
    let b = Rgb8 { r: 4, g: 5, b: 6 };
    assert_eq!(pwm.write(&[Some(a)]), Ok(()));
    assert_eq!(pwm.write(&[Some(b), None]), Ok(()));
    let sim = pwm.free();
    let played = sim.played();
    // Two complete writes, each one frame plus three idle frames.
    assert_eq!(played.len(), 2 * (24 + 3 * 24));
    assert_eq!(&played[..24], frame_of(&a).as_slice());
    assert_eq!(&played[96..120], frame_of(&b).as_slice());
}

#[test]
fn one_shot_and_loop_ahead_writers_share_the_handle() {
    let mut pwm = Pwm::new(SimPwm::new(), pin());
    let c = Rgb8 { r: 7, g: 8, b: 9 };
    let mut scratch = vec![0u16; 64];
    assert_eq!(pwm.send_full_buf(&[c], &mut scratch), Ok(()));
    assert_eq!(pwm.write(&[Some(c), Some(c)]), Ok(()));
    let sim = pwm.free();
    // 64 one-shot samples, then two frames and two idle frames.
    assert_eq!(sim.played().len(), 64 + 2 * 24 + 2 * 24);
}
