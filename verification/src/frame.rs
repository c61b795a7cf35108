//! Frame encoding and the framing/synchronization state machine.
//!
//! On the wire a frame is `[SYNC][SYNC][LEN_HI][LEN_LO][PAYLOAD...]`: the
//! 16-symbol preamble twice, a 16-bit big-endian payload length as 8
//! symbols, then each payload byte as 4 symbols, most significant bit
//! pair first.  The decoder is a state machine over `Sync`, `Sz` and
//! `Data`; a preamble match is honored in every state, including `Data`,
//! and restarts framing with the matched rotation.  A zero payload
//! length emits an empty frame immediately after the length field.

use std::collections::VecDeque;

use vstd::prelude::*;

use crate::sym::{byte_syms, spec_sub, sym_of_val, sym_val, Sym, Symbol};
use crate::sym_sync::{sync_lookup, sync_seq, sync_syms, word_push, SymSync};

verus! {

/// The symbols of `bytes`, four per byte, in order.
pub open spec fn payload_syms(bytes: Seq<u8>) -> Seq<Sym>
    decreases bytes.len(),
{
    if bytes.len() == 0 {
        Seq::empty()
    } else {
        payload_syms(bytes.drop_last()) + byte_syms(bytes.last())
    }
}

/// The 8 symbols of the 16-bit big-endian length field.
pub open spec fn sz_syms(len: u16) -> Seq<Sym> {
    byte_syms((len / 256) as u8) + byte_syms((len % 256) as u8)
}

/// The complete symbol stream of one frame for `bytes`.
pub open spec fn frame_syms(bytes: Seq<u8>) -> Seq<Sym> {
    sync_seq() + sync_seq() + sz_syms(bytes.len() as u16) + payload_syms(bytes)
}

/// Symbols wrapped as occupied stream slots.
pub open spec fn as_slots(syms: Seq<Sym>) -> Seq<Symbol> {
    syms.map_values(|s: Sym| Some(s))
}

/// A payload of `n` bytes takes four symbols per byte.
pub proof fn lemma_payload_syms_len(bytes: Seq<u8>)
    ensures
        payload_syms(bytes).len() == 4 * bytes.len(),
    decreases bytes.len(),
{
    if bytes.len() > 0 {
        lemma_payload_syms_len(bytes.drop_last());
    }
}

/// The frame length invariant: a frame for `n` payload bytes is exactly
/// 32 sync symbols, 8 length symbols and `4 * n` payload symbols.
pub proof fn lemma_frame_syms_len(bytes: Seq<u8>)
    ensures
        frame_syms(bytes).len() == 40 + 4 * bytes.len(),
{
    lemma_payload_syms_len(bytes);
}

/// Message-in, stream-out: expands whole byte frames into the pending
/// symbol FIFO and fills output slices from it.
pub struct FrameEncoder {
    /// Pending symbols, front first; every enqueued slot is occupied.
    pub sym_queue: VecDeque<Symbol>,
}

impl FrameEncoder {
    /// A fresh encoder with an empty queue.
    pub fn create() -> (e: FrameEncoder)
        ensures
            e.sym_queue@ == Seq::<Symbol>::empty(),
    {
        FrameEncoder { sym_queue: VecDeque::new() }
    }

    /// Enqueue one SYNC preamble.
    pub fn push_sync(&mut self)
        ensures
            final(self).sym_queue@ == old(self).sym_queue@ + as_slots(sync_seq()),
    {
        let syms = sync_syms();
        let ghost base = old(self).sym_queue@;
        let mut i: usize = 0;
        while i < 16
            invariant
                i <= 16,
                syms@ == sync_seq(),
                self.sym_queue@.len() == base.len() + i,
                forall|j: int| 0 <= j < base.len() ==> self.sym_queue@[j] == base[j],
                forall|j: int|
                    0 <= j < i ==> self.sym_queue@[base.len() + j] == Some(sync_seq()[j]),
            decreases 16 - i,
        {
            self.sym_queue.push_back(Some(syms[i]));
            i += 1;
        }
        proof {
            assert(self.sym_queue@ =~= base + as_slots(sync_seq()));
        }
    }

    /// Enqueue the 16-bit big-endian length as 8 symbols.
    pub fn push_sz(&mut self, len: u16)
        ensures
            final(self).sym_queue@ == old(self).sym_queue@ + as_slots(sz_syms(len)),
    {
        proof {
            assert(len >> 8 == len / 256 && (len & 0xff) == len % 256) by (bit_vector);
        }
        self.push_byte((len >> 8) as u8);
        self.push_byte((len & 0xff) as u8);
        proof {
            assert(self.sym_queue@ =~= old(self).sym_queue@ + as_slots(sz_syms(len)));
        }
    }

    /// Enqueue one byte as its four symbols.
    pub fn push_byte(&mut self, byte: u8)
        ensures
            final(self).sym_queue@ == old(self).sym_queue@ + as_slots(byte_syms(byte)),
    {
        let syms = Sym::syms_from_byte(byte);
        self.sym_queue.push_back(Some(syms[0]));
        self.sym_queue.push_back(Some(syms[1]));
        self.sym_queue.push_back(Some(syms[2]));
        self.sym_queue.push_back(Some(syms[3]));
        proof {
            assert(self.sym_queue@ =~= old(self).sym_queue@ + as_slots(byte_syms(byte)));
        }
    }

    /// Enqueue every byte of `bytes`, four symbols each, in order.
    pub fn push_bytes(&mut self, bytes: &Vec<u8>)
        ensures
            final(self).sym_queue@ == old(self).sym_queue@ + as_slots(payload_syms(bytes@)),
    {
        let ghost base = old(self).sym_queue@;
        let mut i: usize = 0;
        while i < bytes.len()
            invariant
                i <= bytes.len(),
                self.sym_queue@ == base + as_slots(payload_syms(bytes@.take(i as int))),
            decreases bytes.len() - i,
        {
            self.push_byte(bytes[i]);
            proof {
                assert(bytes@.take(i + 1).drop_last() =~= bytes@.take(i as int));
                assert(bytes@.take(i + 1).last() == bytes@[i as int]);
                assert(payload_syms(bytes@.take(i + 1)) == payload_syms(bytes@.take(i as int))
                    + byte_syms(bytes@[i as int]));
                assert(self.sym_queue@ =~= base + as_slots(payload_syms(bytes@.take(i + 1))));
            }
            i += 1;
        }
        proof {
            assert(bytes@.take(bytes@.len() as int) =~= bytes@);
        }
    }

    /// Enqueue one whole frame: two SYNC preambles, the length field,
    /// then the payload.  Frames longer than 65535 bytes are rejected
    /// upstream.
    pub fn push_frame(&mut self, bytes: &Vec<u8>)
        requires
            bytes@.len() <= 0xffff,
        ensures
            final(self).sym_queue@ == old(self).sym_queue@ + as_slots(frame_syms(bytes@)),
    {
        self.push_sync();
        self.push_sync();
        self.push_sz(bytes.len() as u16);
        self.push_bytes(bytes);
        proof {
            assert(self.sym_queue@ =~= old(self).sym_queue@ + as_slots(frame_syms(bytes@)));
        }
    }

    /// Fill an output slice of `out_len` slots.  An empty queue yields
    /// all idle slots and full production; otherwise production equals
    /// the symbols actually written, with no idle padding after a
    /// partial fill.
    pub fn work(&mut self, out_len: usize) -> (out: Vec<Symbol>)
        ensures
            old(self).sym_queue@.len() == 0 ==> {
                &&& out@ == Seq::new(out_len as nat, |j: int| None::<Sym>)
                &&& final(self).sym_queue@ == old(self).sym_queue@
            },
            old(self).sym_queue@.len() > 0 ==> ({
                let k = if out_len <= old(self).sym_queue@.len() {
                    out_len as int
                } else {
                    old(self).sym_queue@.len() as int
                };
                &&& out@ == old(self).sym_queue@.take(k)
                &&& final(self).sym_queue@ == old(self).sym_queue@.skip(k)
            }),
    {
        let ghost q0 = self.sym_queue@;
        let mut out: Vec<Symbol> = Vec::new();
        if self.sym_queue.len() == 0 {
            let mut i: usize = 0;
            while i < out_len
                invariant
                    i <= out_len,
                    self.sym_queue@ == q0,
                    out@ =~= Seq::new(i as nat, |j: int| None::<Sym>),
                decreases out_len - i,
            {
                out.push(None);
                proof {
                    assert(out@ =~= Seq::new((i + 1) as nat, |j: int| None::<Sym>));
                }
                i += 1;
            }
            return out;
        }
        let k = if out_len <= self.sym_queue.len() {
            out_len
        } else {
            self.sym_queue.len()
        };
        let mut i: usize = 0;
        while i < k
            invariant
                i <= k,
                k <= q0.len(),
                out@ == q0.take(i as int),
                self.sym_queue@ == q0.skip(i as int),
            decreases k - i,
        {
            match self.sym_queue.pop_front() {
                Some(s) => {
                    out.push(s);
                    proof {
                        assert(q0.skip(i as int)[0] == q0[i as int]);
                        assert(out@ =~= q0.take(i + 1));
                        assert(q0.skip(i as int).subrange(1, q0.skip(i as int).len() as int)
                            =~= q0.skip(i + 1));
                    }
                },
                None => {
                    proof {
                        assert(false);
                    }
                },
            }
            i += 1;
        }
        out
    }
}

/// Packs symbols into a byte two bits at a time, most significant pair
/// first; a byte completes after four symbols.
#[derive(Clone, Copy, PartialEq, Eq, Structural, Debug)]
pub struct ByteDecoder {
    /// The partially assembled byte, already shifted up for the next pair.
    pub cur_byte: u8,
    /// How many bits of the current byte have arrived (0, 2, 4 or 6).
    pub bits_pushed: u8,
}

/// A byte accumulator with nothing pushed yet.
pub open spec fn byte_dec_init() -> ByteDecoder {
    ByteDecoder { cur_byte: 0, bits_pushed: 0 }
}

/// One step of the byte accumulator: the completed byte, if any, and the
/// successor state.
pub open spec fn byte_step(d: ByteDecoder, s: Sym) -> (ByteDecoder, Option<u8>) {
    let filled = d.cur_byte | sym_val(s);
    if d.bits_pushed == 6 {
        (byte_dec_init(), Some(filled))
    } else {
        (
            ByteDecoder { cur_byte: filled << 2, bits_pushed: (d.bits_pushed + 2) as u8 },
            None,
        )
    }
}

impl ByteDecoder {
    /// Only whole symbol pairs are pending, never a full byte.
    pub open spec fn wf(&self) -> bool {
        self.bits_pushed == 0 || self.bits_pushed == 2 || self.bits_pushed == 4
            || self.bits_pushed == 6
    }

    /// A fresh accumulator.
    pub fn new() -> (d: ByteDecoder)
        ensures
            d == byte_dec_init(),
    {
        ByteDecoder { cur_byte: 0, bits_pushed: 0 }
    }

    /// Push one symbol; returns the byte completed by it, if any.
    pub fn push_sym(&mut self, s: Sym) -> (r: Option<u8>)
        requires
            old(self).wf(),
        ensures
            final(self).wf(),
            (*final(self), r) == byte_step(*old(self), s),
    {
        self.cur_byte |= s.val();
        self.bits_pushed += 2;

        if self.bits_pushed == 8 {
            let ret = self.cur_byte;
            self.reset();
            Some(ret)
        } else {
            self.cur_byte <<= 2;
            None
        }
    }

    /// Drop any partial byte and start over.
    pub fn reset(&mut self)
        ensures
            *final(self) == byte_dec_init(),
    {
        self.bits_pushed = 0;
        self.cur_byte = 0;
    }
}

/// Assembles two consecutive bytes into a 16-bit big-endian value.
#[derive(Clone, Copy, PartialEq, Eq, Structural, Debug)]
pub struct U16Decoder {
    /// The byte accumulator for the running byte.
    pub bd: ByteDecoder,
    /// The completed high byte, while waiting for the low byte.
    pub high_byte: Option<u8>,
}

/// A 16-bit accumulator with nothing pushed yet.
pub open spec fn u16_dec_init() -> U16Decoder {
    U16Decoder { bd: byte_dec_init(), high_byte: None }
}

/// One step of the 16-bit accumulator.
pub open spec fn u16_step(d: U16Decoder, s: Sym) -> (U16Decoder, Option<u16>) {
    let (bd2, ob) = byte_step(d.bd, s);
    match ob {
        Some(byte) => match d.high_byte {
            Some(hb) => (
                U16Decoder { bd: bd2, high_byte: None },
                Some((hb as u16) << 8 | byte as u16),
            ),
            None => (U16Decoder { bd: bd2, high_byte: Some(byte) }, None),
        },
        None => (U16Decoder { bd: bd2, high_byte: d.high_byte }, None),
    }
}

impl U16Decoder {
    /// The embedded byte accumulator is in step.
    pub open spec fn wf(&self) -> bool {
        self.bd.wf()
    }

    /// A fresh accumulator.
    pub fn new() -> (d: U16Decoder)
        ensures
            d == u16_dec_init(),
    {
        U16Decoder { bd: ByteDecoder::new(), high_byte: None }
    }

    /// Push one symbol; returns the 16-bit value completed by it, if any.
    pub fn push_sym(&mut self, s: Sym) -> (r: Option<u16>)
        requires
            old(self).wf(),
        ensures
            final(self).wf(),
            (*final(self), r) == u16_step(*old(self), s),
    {
        if let Some(byte) = self.bd.push_sym(s) {
            if let Some(high_byte) = self.high_byte {
                self.high_byte = None;
                Some((high_byte as u16) << 8 | byte as u16)
            } else {
                self.high_byte = Some(byte);
                None
            }
        } else {
            None
        }
    }

    /// Drop any partial value and start over.
    pub fn reset(&mut self)
        ensures
            *final(self) == u16_dec_init(),
    {
        self.high_byte = None;
        self.bd.reset();
    }
}

/// Pushing the four symbols of a byte through a fresh byte accumulator
/// yields nothing three times and then exactly that byte, leaving the
/// accumulator fresh again.
pub proof fn lemma_byte_round_trip(b: u8)
    ensures
        ({
            let s = byte_syms(b);
            let (d1, r1) = byte_step(byte_dec_init(), s[0]);
            let (d2, r2) = byte_step(d1, s[1]);
            let (d3, r3) = byte_step(d2, s[2]);
            let (d4, r4) = byte_step(d3, s[3]);
            r1 is None && r2 is None && r3 is None && r4 == Some(b) && d4 == byte_dec_init()
        }),
{
    lemma_sym_val_masked(b >> 6);
    lemma_sym_val_masked(b >> 4);
    lemma_sym_val_masked(b >> 2);
    lemma_sym_val_masked(b);
    assert((((((((0u8 | ((b >> 6) & 3)) << 2) | ((b >> 4) & 3)) << 2) | ((b >> 2) & 3)) << 2) | (b
        & 3)) == b) by (bit_vector);
}

/// The symbol of a value carries exactly the value's low two bits.
proof fn lemma_sym_val_masked(v: u8)
    ensures
        sym_val(sym_of_val(v)) == v & 3,
{
    assert(v & 3 < 4) by (bit_vector);
}

/// The decoder's framing phase.
#[derive(Clone, Copy, PartialEq, Eq, Structural, Debug)]
pub enum DecoderState {
    /// Hunting for the preamble; symbols are discarded.
    Sync,
    /// Collecting the 8 symbols of the length field.
    Sz,
    /// Collecting payload bytes.
    Data,
}

/// The decoder's state as a mathematical value.
#[verifier::ext_equal]
pub ghost struct DecModel {
    /// The correlation register of the preamble correlator.
    pub reg: u32,
    /// The framing phase.
    pub state: DecoderState,
    /// The decoded payload length of the current frame.
    pub frame_sz: u16,
    /// The carrier rotation recovered at the last preamble match.
    pub rotation: nat,
    /// The length-field accumulator.
    pub sz_dec: U16Decoder,
    /// The payload collected so far.
    pub data: Seq<u8>,
    /// The payload byte accumulator.
    pub data_dec: ByteDecoder,
}

/// One decoder step on a present symbol: the successor state and the
/// frame it delivers, if any.  A preamble match is authoritative in
/// every phase and restarts framing with the matched rotation; a zero
/// decoded length delivers an empty frame at once.
pub open spec fn dec_step(m: DecModel, s: Sym) -> (DecModel, Option<Seq<u8>>) {
    let reg2 = word_push(m.reg, s);
    match sync_lookup(reg2) {
        Some(r) => (
            DecModel {
                reg: reg2,
                state: DecoderState::Sz,
                frame_sz: 0,
                rotation: r as nat,
                sz_dec: u16_dec_init(),
                data: Seq::empty(),
                data_dec: byte_dec_init(),
            },
            None,
        ),
        None => {
            let s2 = spec_sub(s, m.rotation);
            match m.state {
                DecoderState::Sync => (
                    DecModel {
                        reg: reg2,
                        state: m.state,
                        frame_sz: m.frame_sz,
                        rotation: m.rotation,
                        sz_dec: m.sz_dec,
                        data: m.data,
                        data_dec: m.data_dec,
                    },
                    None,
                ),
                DecoderState::Sz => {
                    let (sd2, osz) = u16_step(m.sz_dec, s2);
                    match osz {
                        None => (
                            DecModel {
                                reg: reg2,
                                state: m.state,
                                frame_sz: m.frame_sz,
                                rotation: m.rotation,
                                sz_dec: sd2,
                                data: m.data,
                                data_dec: m.data_dec,
                            },
                            None,
                        ),
                        Some(sz) => if sz == 0 {
                            (
                                DecModel {
                                    reg: reg2,
                                    state: DecoderState::Sync,
                                    frame_sz: 0,
                                    rotation: m.rotation,
                                    sz_dec: u16_dec_init(),
                                    data: Seq::empty(),
                                    data_dec: byte_dec_init(),
                                },
                                Some(Seq::empty()),
                            )
                        } else {
                            (
                                DecModel {
                                    reg: reg2,
                                    state: DecoderState::Data,
                                    frame_sz: sz,
                                    rotation: m.rotation,
                                    sz_dec: sd2,
                                    data: m.data,
                                    data_dec: m.data_dec,
                                },
                                None,
                            )
                        },
                    }
                },
                DecoderState::Data => {
                    let (dd2, ob) = byte_step(m.data_dec, s2);
                    match ob {
                        None => (
                            DecModel {
                                reg: reg2,
                                state: m.state,
                                frame_sz: m.frame_sz,
                                rotation: m.rotation,
                                sz_dec: m.sz_dec,
                                data: m.data,
                                data_dec: dd2,
                            },
                            None,
                        ),
                        Some(byte) => {
                            let data2 = m.data.push(byte);
                            if data2.len() == m.frame_sz {
                                (
                                    DecModel {
                                        reg: reg2,
                                        state: DecoderState::Sync,
                                        frame_sz: 0,
                                        rotation: m.rotation,
                                        sz_dec: u16_dec_init(),
                                        data: Seq::empty(),
                                        data_dec: byte_dec_init(),
                                    },
                                    Some(data2),
                                )
                            } else {
                                (
                                    DecModel {
                                        reg: reg2,
                                        state: m.state,
                                        frame_sz: m.frame_sz,
                                        rotation: m.rotation,
                                        sz_dec: m.sz_dec,
                                        data: data2,
                                        data_dec: dd2,
                                    },
                                    None,
                                )
                            }
                        },
                    }
                },
            }
        },
    }
}

/// The decoder state and the frames delivered after feeding `input`,
/// idle slots skipped, in order.
pub open spec fn dec_run(m: DecModel, input: Seq<Symbol>) -> (DecModel, Seq<Seq<u8>>)
    decreases input.len(),
{
    if input.len() == 0 {
        (m, Seq::empty())
    } else {
        let (m1, outs) = dec_run(m, input.drop_last());
        match input.last() {
            None => (m1, outs),
            Some(s) => {
                let (m2, o) = dec_step(m1, s);
                match o {
                    None => (m2, outs),
                    Some(f) => (m2, outs.push(f)),
                }
            },
        }
    }
}

/// Stream-in, message-out: recovers whole byte frames from the decoded
/// symbol stream.
pub struct FrameDecoder {
    /// The sliding preamble correlator.
    pub sym_sync: SymSync,
    /// The framing phase.
    pub state: DecoderState,
    /// The decoded payload length of the current frame.
    pub frame_sz: u16,
    /// The carrier rotation recovered at the last preamble match.
    pub rotation: usize,
    /// The length-field accumulator.
    pub frame_sz_decoder: U16Decoder,
    /// The payload collected so far.
    pub data: Vec<u8>,
    /// The payload byte accumulator.
    pub data_decoder: ByteDecoder,
}

impl View for FrameDecoder {
    type V = DecModel;

    open spec fn view(&self) -> DecModel {
        DecModel {
            reg: self.sym_sync.n,
            state: self.state,
            frame_sz: self.frame_sz,
            rotation: self.rotation as nat,
            sz_dec: self.frame_sz_decoder,
            data: self.data@,
            data_dec: self.data_decoder,
        }
    }
}

impl FrameDecoder {
    /// The correlator table is intact, the accumulators are in step, the
    /// rotation is a quadrant, and the payload buffer is strictly short
    /// of the frame length while collecting and empty otherwise.
    pub open spec fn wf(&self) -> bool {
        &&& self.sym_sync.wf()
        &&& self.frame_sz_decoder.wf()
        &&& self.data_decoder.wf()
        &&& self.rotation < 4
        &&& (self.state is Data ==> self.data@.len() < self.frame_sz)
        &&& (!(self.state is Data) ==> self.data@.len() == 0)
    }

    /// A fresh decoder, hunting for the preamble with rotation 0.
    pub fn create() -> (d: FrameDecoder)
        ensures
            d.wf(),
            d@ == (DecModel {
                reg: 0,
                state: DecoderState::Sync,
                frame_sz: 0,
                rotation: 0,
                sz_dec: u16_dec_init(),
                data: Seq::empty(),
                data_dec: byte_dec_init(),
            }),
    {
        let d = FrameDecoder {
            sym_sync: SymSync::new(),
            state: DecoderState::Sync,
            rotation: 0,
            frame_sz: 0,
            frame_sz_decoder: U16Decoder::new(),
            data: Vec::new(),
            data_decoder: ByteDecoder::new(),
        };
        proof {
            assert(d@ =~= (DecModel {
                reg: 0,
                state: DecoderState::Sync,
                frame_sz: 0,
                rotation: 0,
                sz_dec: u16_dec_init(),
                data: Seq::empty(),
                data_dec: byte_dec_init(),
            }));
        }
        d
    }

    /// Process one present symbol; returns the frame it completes, if
    /// any.
    pub fn push_sym(&mut self, s: Sym) -> (r: Option<Vec<u8>>)
        requires
            old(self).wf(),
        ensures
            final(self).wf(),
            final(self)@ == dec_step(old(self)@, s).0,
            match (r, dec_step(old(self)@, s).1) {
                (Some(v), Some(f)) => v@ == f,
                (None, None) => true,
                _ => false,
            },
    {
        if let Some(rotation) = self.sym_sync.push_sym(s) {
            self.rotation = rotation;
            self.reset();
            self.state = DecoderState::Sz;
            proof {
                assert(self@ =~= dec_step(old(self)@, s).0);
            }
            return None;
        }

        let d = s.sub(self.rotation);

        match self.state {
            DecoderState::Sync => {
                proof {
                    assert(self@ =~= dec_step(old(self)@, s).0);
                }
                None
            },
            DecoderState::Sz => {
                if let Some(sz) = self.frame_sz_decoder.push_sym(d) {
                    if sz == 0 {
                        self.reset();
                        proof {
                            assert(self@ =~= dec_step(old(self)@, s).0);
                        }
                        return Some(Vec::new());
                    }
                    self.frame_sz = sz;
                    self.state = DecoderState::Data;
                }
                proof {
                    assert(self@ =~= dec_step(old(self)@, s).0);
                }
                None
            },
            DecoderState::Data => {
                if let Some(byte) = self.data_decoder.push_sym(d) {
                    self.data.push(byte);

                    if self.data.len() == self.frame_sz as usize {
                        let mut frame: Vec<u8> = Vec::new();
                        core::mem::swap(&mut frame, &mut self.data);
                        self.reset();
                        proof {
                            assert(self@ =~= dec_step(old(self)@, s).0);
                        }
                        return Some(frame);
                    }
                }
                proof {
                    assert(self@ =~= dec_step(old(self)@, s).0);
                }
                None
            },
        }
    }

    /// Abandon the current frame and hunt for the preamble again; the
    /// correlator register and the stored rotation are kept.
    pub fn reset(&mut self)
        ensures
            final(self).sym_sync == old(self).sym_sync,
            final(self).rotation == old(self).rotation,
            final(self).state == DecoderState::Sync,
            final(self).frame_sz == 0,
            final(self).frame_sz_decoder == u16_dec_init(),
            final(self).data@ == Seq::<u8>::empty(),
            final(self).data_decoder == byte_dec_init(),
    {
        self.state = DecoderState::Sync;
        self.data.clear();
        self.frame_sz = 0;
        self.frame_sz_decoder.reset();
        self.data_decoder.reset();
    }

    /// Drive the decoder over a slice of stream slots, idle slots
    /// skipped; returns the frames delivered, in order.
    pub fn work(&mut self, input: &Vec<Symbol>) -> (frames: Vec<Vec<u8>>)
        requires
            old(self).wf(),
        ensures
            final(self).wf(),
            final(self)@ == dec_run(old(self)@, input@).0,
            frames@.len() == dec_run(old(self)@, input@).1.len(),
            forall|j: int|
                0 <= j < frames@.len() ==> frames@[j]@ == dec_run(old(self)@, input@).1[j],
    {
        let mut frames: Vec<Vec<u8>> = Vec::new();
        let mut i: usize = 0;
        while i < input.len()
            invariant
                i <= input.len(),
                self.wf(),
                self@ == dec_run(old(self)@, input@.take(i as int)).0,
                frames@.len() == dec_run(old(self)@, input@.take(i as int)).1.len(),
                forall|j: int|
                    0 <= j < frames@.len() ==> frames@[j]@ == dec_run(
                        old(self)@,
                        input@.take(i as int),
                    ).1[j],
            decreases input.len() - i,
        {
            proof {
                assert(input@.take(i + 1).drop_last() =~= input@.take(i as int));
                assert(input@.take(i + 1).last() == input@[i as int]);
            }
            match input[i] {
                None => {},
                Some(s) => {
                    if let Some(f) = self.push_sym(s) {
                        frames.push(f);
                    }
                },
            }
            i += 1;
        }
        proof {
            assert(input@.take(input@.len() as int) =~= input@);
        }
        frames
    }
}

} // verus!
