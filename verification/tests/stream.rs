use ampkt::clock_sync::{ClockAction, ClockSync};
use ampkt::frame::{DecoderState, FrameDecoder, FrameEncoder};
use ampkt::qam::QamMod;
use ampkt::sym::Sym;

const N: f32 = 0.3;

/// The nominal constellation point of a stream slot; idle slots map to
/// the zero sample.
fn modulate_slot(slot: Option<Sym>) -> (f32, f32) {
    match slot {
        None => (0.0, 0.0),
        Some(Sym::A) => (N, N),
        Some(Sym::B) => (-N, N),
        Some(Sym::C) => (N, -N),
        Some(Sym::D) => (-N, -N),
    }
}

/// Hard-decision slicing: squelch below magnitude 0.1, otherwise the
/// quadrant of the sample's angle.
fn demod_sample(i: f32, q: f32) -> Option<Sym> {
    let pi = std::f32::consts::PI;
    if (i * i + q * q).sqrt() < 0.1 {
        return None;
    }
    let arg = q.atan2(i);
    if arg > 0.0 && arg < pi / 2.0 {
        Some(Sym::A)
    } else if arg >= pi / 2.0 && arg <= pi {
        Some(Sym::B)
    } else if arg > -pi / 2.0 && arg <= 0.0 {
        Some(Sym::C)
    } else {
        Some(Sym::D)
    }
}

fn loopback(rotate: impl Fn((f32, f32)) -> (f32, f32)) -> Vec<Vec<u8>> {
    let mut encoder = FrameEncoder::create();
    let mut decoder = FrameDecoder::create();
    let qam = QamMod::new(10);

    let payload = vec![0xde, 0xad, 0xbe, 0xef];
    encoder.push_frame(&payload);

    let n_syms = encoder.sym_queue.len();
    let slots = encoder.work(n_syms);
    let (samples, consumed) = qam.work(&slots, n_syms * 10);
    assert_eq!(consumed, n_syms);
    assert_eq!(samples.len(), n_syms * 10);

    // Ideal symbol timing: the ten samples of a chunk are identical, so
    // one hard decision per sps samples recovers the symbol stream.
    let mut decoded = Vec::new();
    for (k, slot) in samples.iter().enumerate() {
        let (i, q) = rotate(modulate_slot(*slot));
        if k % 10 == 5 {
            decoded.push(demod_sample(i, q));
        }
    }
    assert_eq!(decoded.len(), n_syms);

    let frames = decoder.work(&decoded);
    assert_eq!(decoder.state, DecoderState::Sync);
    frames
}

#[test]
fn loopback_no_channel() {
    let frames = loopback(|s| s);
    assert_eq!(frames, vec![vec![0xde, 0xad, 0xbe, 0xef]]);
}

#[test]
fn rotation_by_one_quadrant() {
    // Multiplying by i rotates every sample by 90 degrees.
    let frames = loopback(|(i, q)| (-q, i));
    assert_eq!(frames, vec![vec![0xde, 0xad, 0xbe, 0xef]]);
}

#[test]
fn noise_squelch() {
    let mut decoder = FrameDecoder::create();
    let mut decoded = Vec::new();
    for _ in 0..1_000 {
        decoded.push(demod_sample(0.0, 0.0));
    }
    assert!(decoded.iter().all(|s| s.is_none()));
    let frames = decoder.work(&decoded);
    assert!(frames.is_empty());
    assert_eq!(decoder.state, DecoderState::Sync);
}

#[test]
fn qam_mod_accounting() {
    let qam = QamMod::new(10);
    let input = vec![Some(Sym::A), None, Some(Sym::C), Some(Sym::D), None, Some(Sym::B), Some(Sym::A)];

    // Room for only three full chunks: consumed == produced / sps.
    let (out, consumed) = qam.work(&input, 35);
    assert_eq!(consumed, 3);
    assert_eq!(out.len(), 30);
    for (j, slot) in out.iter().enumerate() {
        assert_eq!(*slot, input[j / 10]);
    }

    // Room for everything.
    let (out, consumed) = qam.work(&input, 1_000);
    assert_eq!(consumed, 7);
    assert_eq!(out.len(), 70);
}

#[test]
fn clock_tick_schedule() {
    let mut cs = ClockSync::new(10);

    // One uncorrected cycle: seven passes, then capture, emit, correct.
    for _ in 0..7 {
        assert_eq!(cs.tick(), ClockAction::Pass);
    }
    assert_eq!(cs.tick(), ClockAction::Capture);
    assert_eq!(cs.tick(), ClockAction::CaptureEmit);
    assert_eq!(cs.tick(), ClockAction::Correct);

    // A maximal positive correction stretches the next cycle to 15.
    cs.apply_error(5);
    for _ in 0..12 {
        assert_eq!(cs.tick(), ClockAction::Pass);
    }
    assert_eq!(cs.tick(), ClockAction::Capture);
    assert_eq!(cs.tick(), ClockAction::CaptureEmit);
    assert_eq!(cs.tick(), ClockAction::Correct);

    // A maximal negative correction shrinks it to 5.
    cs.apply_error(-5);
    for _ in 0..2 {
        assert_eq!(cs.tick(), ClockAction::Pass);
    }
    assert_eq!(cs.tick(), ClockAction::Capture);
    assert_eq!(cs.tick(), ClockAction::CaptureEmit);
    assert_eq!(cs.tick(), ClockAction::Correct);
}
