use ampkt::frame::{ByteDecoder, DecoderState, FrameDecoder, FrameEncoder};
use ampkt::sym::Sym;

fn run(mut sym_transform: impl FnMut(Sym) -> Sym) {
    let mut encoder = FrameEncoder::create();
    let mut decoder = FrameDecoder::create();

    let payload = vec![0xde, 0xad, 0xbe, 0xef];

    encoder.push_frame(&payload);

    let mut it = encoder.sym_queue.iter().peekable();

    while let Some(sym) = it.next() {
        let v = decoder.push_sym(sym_transform(sym.unwrap()));

        if it.peek().is_none() {
            assert!(matches!(v, Some(_payload)));
        } else {
            assert!(v.is_none())
        }
    }
}

#[test]
fn encode_decode() {
    run(|s| s)
}

#[test]
fn encode_decode_rot_1() {
    run(|s| s.add(1))
}

#[test]
fn encode_decode_rot_2() {
    run(|s| s.add(2))
}

#[test]
fn encode_decode_rot_3() {
    run(|s| s.add(3))
}

#[test]
fn encode_decode_exact_payload() {
    for r in 0..4usize {
        let mut encoder = FrameEncoder::create();
        let mut decoder = FrameDecoder::create();

        let payload = vec![0xde, 0xad, 0xbe, 0xef];
        encoder.push_frame(&payload);

        let mut delivered = Vec::new();
        for sym in encoder.sym_queue.iter() {
            if let Some(frame) = decoder.push_sym(sym.unwrap().add(r)) {
                delivered.push(frame);
            }
        }

        assert_eq!(delivered, vec![payload.clone()]);
    }
}

#[test]
fn byte_round_trip_all() {
    for b in 0..=255u8 {
        let mut d = ByteDecoder::new();
        let syms = Sym::syms_from_byte(b);
        assert!(d.push_sym(syms[0]).is_none());
        assert!(d.push_sym(syms[1]).is_none());
        assert!(d.push_sym(syms[2]).is_none());
        assert_eq!(d.push_sym(syms[3]), Some(b));
    }
}

#[test]
fn frame_symbol_length() {
    for len in [0usize, 1, 2, 17, 1500] {
        let mut encoder = FrameEncoder::create();
        let payload = vec![0xa5u8; len];
        encoder.push_frame(&payload);
        assert_eq!(encoder.sym_queue.len(), 40 + 4 * len);
    }
}

#[test]
fn encoder_idle_fill() {
    let mut encoder = FrameEncoder::create();
    let out = encoder.work(16);
    assert_eq!(out.len(), 16);
    assert!(out.iter().all(|s| s.is_none()));
    assert!(encoder.sym_queue.is_empty());
}

#[test]
fn encoder_partial_fill() {
    let mut encoder = FrameEncoder::create();
    encoder.push_frame(&vec![0x01]);
    // 44 symbols queued; production equals the symbols actually written.
    let out = encoder.work(30);
    assert_eq!(out.len(), 30);
    assert!(out.iter().all(|s| s.is_some()));
    assert_eq!(encoder.sym_queue.len(), 14);

    let out = encoder.work(30);
    assert_eq!(out.len(), 14);
    assert!(encoder.sym_queue.is_empty());
}

#[test]
fn empty_frame_policy() {
    // A zero payload length delivers an empty frame immediately after
    // the length field, on its last symbol.
    let mut encoder = FrameEncoder::create();
    let mut decoder = FrameDecoder::create();

    encoder.push_frame(&Vec::new());
    assert_eq!(encoder.sym_queue.len(), 40);

    let mut it = encoder.sym_queue.iter().peekable();
    while let Some(sym) = it.next() {
        let v = decoder.push_sym(sym.unwrap());
        if it.peek().is_none() {
            assert_eq!(v, Some(Vec::new()));
        } else {
            assert!(v.is_none());
        }
    }
    assert_eq!(decoder.state, DecoderState::Sync);
}

#[test]
fn concatenated_frames() {
    let mut encoder = FrameEncoder::create();
    let mut decoder = FrameDecoder::create();

    encoder.push_frame(&vec![0x01]);
    encoder.push_frame(&vec![0x02, 0x03]);

    let stream: Vec<_> = encoder.sym_queue.iter().copied().collect();
    let frames = decoder.work(&stream);

    assert_eq!(frames, vec![vec![0x01], vec![0x02, 0x03]]);
}

#[test]
fn decoder_idle_stream() {
    let mut decoder = FrameDecoder::create();
    let frames = decoder.work(&vec![None; 10_000]);
    assert!(frames.is_empty());
    assert_eq!(decoder.state, DecoderState::Sync);
}
