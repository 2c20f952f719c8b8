//! Live transcription over a realtime session: what is sent to the server, and what is made of
//! its events.

use base64::Engine;
use vstd::prelude::*;
use vstd::string::*;

use crate::audio;
use crate::audio::{copy_bytes, keep_recent, pcm_bytes_wide, CHUNK_BYTES, SAMPLE_RATE};
use crate::clock::Duration;
use crate::double;
use crate::double::Double;
use crate::event;
use crate::event::{parse_event, RealtimeEvent, RealtimeHypothesis};
use crate::json;
use crate::speech;
use crate::speech::{pcm_rms_s16le, DEFAULT_SPEECH_RMS_FLOOR};
use crate::text;

verus! {

/// How much silence is sent to warm the server up, in milliseconds.
pub const REALTIME_WARMUP_DURATION: u64 = 500;

/// How long the final transcript is waited for, in milliseconds.
pub const REALTIME_COMPLETION_TIMEOUT: u64 = 30_000;

/// How long the server's last events are waited for where no final transcript is wanted, in
/// milliseconds.
pub const REALTIME_NO_FINAL_DRAIN_TIMEOUT: u64 = 500;

/// How often new sound is looked for, in milliseconds.
pub const REALTIME_AUDIO_POLL: u64 = 40;

/// How much sound from before a session is sent at most, in milliseconds.
pub const REALTIME_PREROLL_LIMIT: u64 = 30_000;

/// How much sound from before the speech is sent, in milliseconds.
pub const REALTIME_SPEECH_GATE_PREROLL: u64 = 300;

/// The bytes of a frame in which loudness is measured: 20 milliseconds.
pub const REALTIME_SPEECH_GATE_FRAME_BYTES: usize = 960;

/// The bytes of loud sound on end that are speech: 160 milliseconds.
pub const REALTIME_SPEECH_GATE_MIN_SPEECH_BYTES: usize = 7_680;

/// What keeps silence from being sent: nothing passes until speech has begun.
#[derive(Debug, Clone)]
pub struct RealtimeSpeechGate {
    speech_started: bool,
    pending: Vec<u8>,
    max_pending_bytes: usize,
}

/// The state of a [`RealtimeSpeechGate`].
pub struct GateView {
    pub started: bool,
    /// The last sound, while no speech has begun.
    pub pending: Seq<u8>,
    /// How much of it is kept.
    pub max_pending: nat,
}

/// How many pieces of at most `size` bytes some bytes have.
pub open spec fn piece_count(len: nat, size: nat) -> nat {
    (len + size - 1) as nat / size
}

/// The piece that begins after `k` pieces of `size` bytes. The last one may be shorter.
pub open spec fn piece_at(bytes: Seq<u8>, size: nat, k: int) -> Seq<u8> {
    bytes.subrange(
        k * size,
        if (k + 1) * size <= bytes.len() {
            (k + 1) * size
        } else {
            bytes.len() as int
        },
    )
}

/// The bytes in pieces of at most `size` bytes.
pub open spec fn pieces_of(bytes: Seq<u8>, size: nat) -> Seq<Seq<u8>> {
    Seq::new(piece_count(bytes.len(), size), |k: int| piece_at(bytes, size, k))
}

/// The views of some pieces.
pub open spec fn piece_views(pieces: Seq<Vec<u8>>) -> Seq<Seq<u8>> {
    pieces.map_values(|p: Vec<u8>| p@)
}

/// One more piece begins exactly if bytes are left.
proof fn another_piece(len: nat, size: nat, k: nat)
    requires
        size > 0,
    ensures
        k * size < len <==> k < piece_count(len, size),
{
    let m = (len + size - 1) as nat;
    let q = m / size;
    vstd::arithmetic::div_mod::lemma_fundamental_div_mod(m as int, size as int);
    if k < q {
        assert(k * size + size <= size * q) by (nonlinear_arith)
            requires
                0 <= k < q,
                size > 0,
        ;
    } else {
        assert(k * size >= size * q) by (nonlinear_arith)
            requires
                k >= q,
                size > 0,
        ;
    }
}

/// The bytes in pieces of at most `size` bytes.
pub fn split_pieces(bytes: &[u8], size: usize) -> (r: Vec<Vec<u8>>)
    requires
        size > 0,
    ensures
        piece_views(r@) == pieces_of(bytes@, size as nat),
{
    let len: usize = bytes.len();
    let mut out: Vec<Vec<u8>> = Vec::new();
    let mut start: usize = 0;
    let ghost mut k: nat = 0;
    proof {
        assert(0 * size == 0) by (nonlinear_arith);
        another_piece(len as nat, size as nat, 0);
    }
    while start < len
        invariant
            len == bytes@.len(),
            size > 0,
            start <= len,
            start == k * size || (start == len && k * size >= len),
            out@.len() == k,
            k <= piece_count(len as nat, size as nat),
            forall|j: int|
                0 <= j < k ==> (#[trigger] out@[j])@ == piece_at(bytes@, size as nat, j),
        decreases len - start,
    {
        let end: usize = if size <= len - start {
            start + size
        } else {
            len
        };
        proof {
            another_piece(len as nat, size as nat, k);
            assert((k + 1) * size == k * size + size) by (nonlinear_arith);
        }
        let ghost before = out@;
        out.push(copy_bytes(bytes, start, end));
        proof {
            assert forall|j: int| 0 <= j < k + 1 implies (#[trigger] out@[j])@ == piece_at(
                bytes@,
                size as nat,
                j,
            ) by {
                if j < k {
                    assert(out@[j] == before[j]);
                }
            }
        }
        start = end;
        proof {
            k = k + 1;
        }
    }
    proof {
        another_piece(len as nat, size as nat, k);
        assert(piece_views(out@) =~= pieces_of(bytes@, size as nat));
    }
    out
}

/// Whether a frame is loud enough to be speech.
pub open spec fn loud(frame: Seq<u8>) -> bool {
    speech::rms(frame) >= double::parts(DEFAULT_SPEECH_RMS_FLOOR)
}

/// How many bytes of loud frames there are on end, up to the `k`th frame.
pub open spec fn loud_bytes_up_to(pcm: Seq<u8>, k: int) -> nat
    decreases k,
{
    if k <= 0 {
        0
    } else {
        let frame = piece_at(pcm, REALTIME_SPEECH_GATE_FRAME_BYTES as nat, k - 1);
        if loud(frame) {
            loud_bytes_up_to(pcm, k - 1) + frame.len()
        } else {
            0
        }
    }
}

/// Whether there is enough loud sound on end to be speech.
pub open spec fn sustained_speech(pcm: Seq<u8>) -> bool {
    exists|k: int|
        0 <= k <= piece_count(pcm.len(), REALTIME_SPEECH_GATE_FRAME_BYTES as nat)
            && #[trigger] loud_bytes_up_to(pcm, k) >= REALTIME_SPEECH_GATE_MIN_SPEECH_BYTES
}

/// Whether there is enough loud sound on end to be speech.
pub fn pending_contains_sustained_speech(pcm: &[u8]) -> (r: bool)
    ensures
        r == sustained_speech(pcm@),
{
    let frames = split_pieces(pcm, REALTIME_SPEECH_GATE_FRAME_BYTES);
    let ghost all = pieces_of(pcm@, REALTIME_SPEECH_GATE_FRAME_BYTES as nat);
    let mut sustained: usize = 0;
    let mut k: usize = 0;
    proof {
        assert(frames@.len() == all.len());
    }
    while k < frames.len()
        invariant
            k <= frames@.len(),
            frames@.len() == all.len(),
            piece_views(frames@) == all,
            all == pieces_of(pcm@, REALTIME_SPEECH_GATE_FRAME_BYTES as nat),
            sustained < REALTIME_SPEECH_GATE_MIN_SPEECH_BYTES,
            sustained == loud_bytes_up_to(pcm@, k as int),
            forall|j: int|
                0 <= j <= k ==> #[trigger] loud_bytes_up_to(pcm@, j)
                    < REALTIME_SPEECH_GATE_MIN_SPEECH_BYTES,
        decreases frames@.len() - k,
    {
        proof {
            assert(frames@[k as int]@ == all[k as int]);
            assert((k + 1) * REALTIME_SPEECH_GATE_FRAME_BYTES == k
                * REALTIME_SPEECH_GATE_FRAME_BYTES + REALTIME_SPEECH_GATE_FRAME_BYTES);
            another_piece(pcm@.len(), REALTIME_SPEECH_GATE_FRAME_BYTES as nat, k as nat);
            assert(all[k as int].len() <= REALTIME_SPEECH_GATE_FRAME_BYTES);
        }
        let floor = Double { bits: DEFAULT_SPEECH_RMS_FLOOR };
        if !pcm_rms_s16le(&frames[k]).is_below(floor) {
            sustained = sustained + frames[k].len();
            if sustained >= REALTIME_SPEECH_GATE_MIN_SPEECH_BYTES {
                proof {
                    assert(loud_bytes_up_to(pcm@, k + 1) == sustained);
                }
                return true;
            }
        } else {
            sustained = 0;
        }
        proof {
            assert(loud_bytes_up_to(pcm@, k + 1) == sustained);
        }
        k += 1;
    }
    false
}

/// The speech gate after a piece of sound.
pub open spec fn gate_after(gate: GateView, piece: Seq<u8>) -> GateView {
    let pending = audio::recent(gate.pending + piece, gate.max_pending);
    if gate.started {
        gate
    } else if sustained_speech(pending) {
        GateView { started: true, pending: seq![], ..gate }
    } else {
        GateView { pending, ..gate }
    }
}

/// What a speech gate lets pass when a piece of sound comes: nothing before speech, then the
/// last sound that was held back, then every piece.
pub open spec fn gate_passes(gate: GateView, piece: Seq<u8>) -> Seq<Seq<u8>> {
    let pending = audio::recent(gate.pending + piece, gate.max_pending);
    if gate.started {
        seq![piece]
    } else if sustained_speech(pending) {
        pieces_of(pending, CHUNK_BYTES as nat)
    } else {
        seq![]
    }
}

/// The speech gate after several pieces of sound.
pub open spec fn gate_after_all(gate: GateView, pieces: Seq<Seq<u8>>) -> GateView
    decreases pieces.len(),
{
    if pieces.len() == 0 {
        gate
    } else {
        gate_after(gate_after_all(gate, pieces.drop_last()), pieces.last())
    }
}

/// What a speech gate lets pass of several pieces of sound.
pub open spec fn gate_passes_all(gate: GateView, pieces: Seq<Seq<u8>>) -> Seq<Seq<u8>>
    decreases pieces.len(),
{
    if pieces.len() == 0 {
        seq![]
    } else {
        gate_passes_all(gate, pieces.drop_last()) + gate_passes(
            gate_after_all(gate, pieces.drop_last()),
            pieces.last(),
        )
    }
}

impl RealtimeSpeechGate {
    /// The state of this speech gate.
    pub closed spec fn view(&self) -> GateView {
        GateView {
            started: self.speech_started,
            pending: self.pending@,
            max_pending: self.max_pending_bytes as nat,
        }
    }

    /// A closed gate for sound of the given rate.
    pub fn new(sample_rate: u32) -> (r: Self)
        ensures
            !r@.started,
            r@.pending.len() == 0,
            r@.max_pending == speech::frame_step(
                sample_rate,
                REALTIME_SPEECH_GATE_PREROLL as nat * 1_000_000,
            ),
    {
        let wide = pcm_bytes_wide(
            sample_rate,
            Duration::from_millis(REALTIME_SPEECH_GATE_PREROLL),
        );
        proof {
            let nanos = REALTIME_SPEECH_GATE_PREROLL as nat * 1_000_000;
            assert(nanos * sample_rate <= 300_000_000 * 0xffff_ffff) by (nonlinear_arith)
                requires
                    nanos == 300_000_000,
                    sample_rate <= 0xffff_ffff,
            ;
            double::counts_are_right_but_for_one(sample_rate, nanos);
        }
        let max_pending_bytes: usize = if wide < 2 {
            2
        } else {
            wide as usize
        };
        Self { speech_started: false, pending: Vec::new(), max_pending_bytes }
    }

    /// The same speech gate once speech has begun.
    pub fn opened(self) -> (r: Self)
        ensures
            r@ == (GateView { started: true, ..self@ }),
    {
        let mut gate = self;
        gate.speech_started = true;
        gate
    }

    /// What of new sound is to be sent.
    pub fn filter_new_audio(&mut self, new_audio: &[u8]) -> (r: Vec<Vec<u8>>)
        ensures
            final(self)@ == gate_after_all(
                old(self)@,
                pieces_of(new_audio@, CHUNK_BYTES as nat),
            ),
            piece_views(r@) == gate_passes_all(
                old(self)@,
                pieces_of(new_audio@, CHUNK_BYTES as nat),
            ),
    {
        let ghost before = self@;
        let chunks = split_pieces(new_audio, CHUNK_BYTES);
        let ghost all = piece_views(chunks@);
        let mut outgoing: Vec<Vec<u8>> = Vec::new();
        let mut i: usize = 0;
        proof {
            assert(piece_views(outgoing@) =~= seq![]);
        }
        while i < chunks.len()
            invariant
                i <= chunks@.len(),
                all == piece_views(chunks@),
                self@ == gate_after_all(before, all.take(i as int)),
                piece_views(outgoing@) == gate_passes_all(before, all.take(i as int)),
            decreases chunks@.len() - i,
        {
            let ghost sent = outgoing@;
            let ghost gate = self@;
            proof {
                assert(all.take(i + 1).drop_last() =~= all.take(i as int));
                assert(all.take(i + 1).last() == chunks@[i as int]@);
            }
            if self.speech_started {
                let copy = copy_bytes(&chunks[i], 0, chunks[i].len());
                outgoing.push(copy);
                proof {
                    assert(copy@ =~= chunks@[i as int]@);
                    assert(piece_views(outgoing@) =~= piece_views(sent) + seq![
                        chunks@[i as int]@,
                    ]);
                }
            } else {
                self.pending.extend_from_slice(&chunks[i]);
                proof {
                    assert(self.pending@ =~= gate.pending + chunks@[i as int]@);
                }
                keep_recent(&mut self.pending, self.max_pending_bytes);
                if pending_contains_sustained_speech(&self.pending) {
                    self.speech_started = true;
                    let mut held = split_pieces(&self.pending, CHUNK_BYTES);
                    let ghost held_back = held@;
                    outgoing.append(&mut held);
                    proof {
                        assert(piece_views(outgoing@) =~= piece_views(sent) + piece_views(
                            held_back,
                        ));
                    }
                    self.pending.clear();
                } else {
                    proof {
                        assert(piece_views(outgoing@) =~= piece_views(sent) + Seq::<
                            Seq<u8>,
                        >::empty());
                    }
                }
            }
            i += 1;
        }
        proof {
            assert(all.take(i as int) =~= all);
        }
        outgoing
    }
}

/// Pieces one behind the other.
pub open spec fn all_bytes(pieces: Seq<Seq<u8>>) -> Seq<u8>
    decreases pieces.len(),
{
    if pieces.len() == 0 {
        seq![]
    } else {
        all_bytes(pieces.drop_last()) + pieces.last()
    }
}

/// While no speech has begun, nothing is sent; and an open speech gate stays open.
pub proof fn nothing_is_sent_before_speech(gate: GateView, pieces: Seq<Seq<u8>>)
    ensures
        !gate_after_all(gate, pieces).started ==> gate_passes_all(gate, pieces) == Seq::<
            Seq<u8>,
        >::empty(),
        gate.started ==> gate_after_all(gate, pieces).started,
    decreases pieces.len(),
{
    if pieces.len() > 0 {
        nothing_is_sent_before_speech(gate, pieces.drop_last());
        if !gate_after_all(gate, pieces).started {
            assert(gate_passes_all(gate, pieces) =~= Seq::<Seq<u8>>::empty());
        }
    }
}

/// Once speech has begun, everything is sent, in order.
pub proof fn everything_is_sent_after_speech(gate: GateView, pieces: Seq<Seq<u8>>)
    requires
        gate.started,
    ensures
        gate_passes_all(gate, pieces) == pieces,
        gate_after_all(gate, pieces) == gate,
    decreases pieces.len(),
{
    if pieces.len() > 0 {
        everything_is_sent_after_speech(gate, pieces.drop_last());
        assert(gate_passes(gate, pieces.last()) == seq![pieces.last()]);
        assert(gate_passes_all(gate, pieces) == pieces.drop_last() + seq![pieces.last()]);
        assert(pieces.drop_last() + seq![pieces.last()] =~= pieces);
        assert(gate_after(gate, pieces.last()) == gate);
    } else {
        assert(pieces =~= seq![]);
    }
}

/// Pieces put one behind the other are the bytes that they were cut from.
pub proof fn pieces_give_back_the_bytes(bytes: Seq<u8>, size: nat)
    requires
        size > 0,
    ensures
        all_bytes(pieces_of(bytes, size)) == bytes,
{
    let n = piece_count(bytes.len(), size);
    first_pieces(bytes, size, n);
    another_piece(bytes.len(), size, n);
    let all = pieces_of(bytes, size);
    assert(all.take(n as int) =~= all);
    let end: int = if n * size <= bytes.len() {
        (n * size) as int
    } else {
        bytes.len() as int
    };
    assert(bytes.take(end) =~= bytes);
}

/// The first pieces put one behind the other are the start of the bytes.
proof fn first_pieces(bytes: Seq<u8>, size: nat, k: nat)
    requires
        size > 0,
        k <= piece_count(bytes.len(), size),
    ensures
        all_bytes(pieces_of(bytes, size).take(k as int)) == bytes.take(
            if k * size <= bytes.len() {
                (k * size) as int
            } else {
                bytes.len() as int
            },
        ),
    decreases k,
{
    let all = pieces_of(bytes, size);
    if k == 0 {
        assert(0 * size == 0) by (nonlinear_arith);
        assert(all.take(0) =~= seq![]);
        assert(bytes.take(0) =~= seq![]);
    } else {
        let m = (k - 1) as nat;
        first_pieces(bytes, size, m);
        another_piece(bytes.len(), size, m);
        assert(k * size == m * size + size) by (nonlinear_arith)
            requires
                k == m + 1,
        ;
        assert(all.take(k as int).drop_last() =~= all.take(m as int));
        assert(all.take(k as int).last() == piece_at(bytes, size, m as int));
        let end: int = if k * size <= bytes.len() {
            (k * size) as int
        } else {
            bytes.len() as int
        };
        let start = (m * size) as int;
        assert(bytes.take(start) + bytes.subrange(start, end) =~= bytes.take(end));
    }
}

/// Whether some bytes are the last ones of others.
pub open spec fn is_end_of(part: Seq<u8>, whole: Seq<u8>) -> bool {
    part.len() <= whole.len() && part == whole.skip(whole.len() - part.len())
}

/// A speech gate that is given sound in two goes does with it what it does in one.
pub proof fn sound_may_come_in_parts(gate: GateView, first: Seq<Seq<u8>>, second: Seq<Seq<u8>>)
    ensures
        gate_after_all(gate, first + second) == gate_after_all(
            gate_after_all(gate, first),
            second,
        ),
        gate_passes_all(gate, first + second) == gate_passes_all(gate, first) + gate_passes_all(
            gate_after_all(gate, first),
            second,
        ),
    decreases second.len(),
{
    let middle = gate_after_all(gate, first);
    if second.len() == 0 {
        assert(first + second =~= first);
        assert(gate_passes_all(gate, first) + gate_passes_all(middle, second) =~= gate_passes_all(
            gate,
            first,
        ));
    } else {
        let most = second.drop_last();
        sound_may_come_in_parts(gate, first, most);
        assert((first + second).drop_last() =~= first + most);
        assert((first + second).last() == second.last());
        let last = gate_passes(gate_after_all(middle, most), second.last());
        assert((gate_passes_all(gate, first) + gate_passes_all(middle, most)) + last
            =~= gate_passes_all(gate, first) + (gate_passes_all(middle, most) + last));
    }
}

/// What a speech gate has let pass, put together, is the end of the sound that it was given, with
/// what it held back at first in front: it drops nothing but the sound before speech, and adds
/// nothing.
pub proof fn what_passes_is_the_end_of_the_sound(gate: GateView, pieces: Seq<Seq<u8>>)
    requires
        gate.started ==> gate.pending.len() == 0,
    ensures
        is_end_of(all_bytes(gate_passes_all(gate, pieces)), gate.pending + all_bytes(pieces)),
        !gate_after_all(gate, pieces).started ==> is_end_of(
            gate_after_all(gate, pieces).pending,
            gate.pending + all_bytes(pieces),
        ),
    decreases pieces.len(),
{
    let heard = gate.pending + all_bytes(pieces);
    if gate.started {
        everything_is_sent_after_speech(gate, pieces);
        assert(heard =~= all_bytes(pieces));
        assert(heard.skip(0) =~= heard);
    } else if pieces.len() == 0 {
        assert(heard =~= gate.pending);
        assert(heard.skip(0) =~= heard);
        assert(heard.skip(heard.len() as int) =~= seq![]);
    } else {
        let most = pieces.drop_last();
        let piece = pieces.last();
        let before = gate_after_all(gate, most);
        let passed = gate_passes_all(gate, most);
        let known = gate.pending + all_bytes(most);
        what_passes_is_the_end_of_the_sound(gate, most);
        assert(heard =~= known + piece);
        if before.started {
            one_more_piece(passed, piece);
            let part = all_bytes(passed);
            assert(part + piece =~= heard.skip(heard.len() - (part + piece).len()));
        } else {
            nothing_is_sent_before_speech(gate, most);
            let all = before.pending + piece;
            assert(all =~= heard.skip(heard.len() - all.len()));
            let pending = audio::recent(all, before.max_pending);
            assert(pending =~= heard.skip(heard.len() - pending.len()));
            if sustained_speech(pending) {
                pieces_give_back_the_bytes(pending, CHUNK_BYTES as nat);
                assert(gate_passes_all(gate, pieces) =~= pieces_of(pending, CHUNK_BYTES as nat));
            } else {
                assert(gate_passes_all(gate, pieces) =~= seq![]);
                assert(heard.skip(heard.len() as int) =~= seq![]);
            }
        }
    }
}

/// One more piece stands behind the others.
proof fn one_more_piece(pieces: Seq<Seq<u8>>, piece: Seq<u8>)
    ensures
        all_bytes(pieces + seq![piece]) == all_bytes(pieces) + piece,
{
    assert((pieces + seq![piece]).drop_last() =~= pieces);
}

/// What of a recording has not been sent yet, and is to be sent now. The recording only grows;
/// `cursor` tells how much of it was looked at.
pub fn realtime_audio_chunks_since(
    snapshot: &[u8],
    cursor: &mut usize,
    speech_gate: &mut RealtimeSpeechGate,
) -> (r: Vec<Vec<u8>>)
    ensures
        *final(cursor) == snapshot@.len(),
        if *old(cursor) >= snapshot@.len() {
            r@.len() == 0 && final(speech_gate)@ == old(speech_gate)@
        } else {
            let fresh = pieces_of(snapshot@.skip(*old(cursor) as int), CHUNK_BYTES as nat);
            piece_views(r@) == gate_passes_all(old(speech_gate)@, fresh) && final(speech_gate)@
                == gate_after_all(old(speech_gate)@, fresh)
        },
{
    let len: usize = snapshot.len();
    if *cursor >= len {
        *cursor = len;
        return Vec::new();
    }
    let fresh = copy_bytes(snapshot, *cursor, len);
    proof {
        assert(fresh@ =~= snapshot@.skip(*cursor as int));
    }
    let chunks = speech_gate.filter_new_audio(&fresh);
    *cursor = len;
    chunks
}

/// What is done with the connection once the sound has been sent.
#[derive(Debug, Clone, Copy, PartialEq, Eq, Structural)]
pub enum SenderEnd {
    /// Nothing was sent, or no final transcript is wanted.
    Close,
    /// The server is asked for the final transcript.
    Commit,
}

/// What sends the sound of a session.
#[derive(Debug, Clone)]
pub struct RealtimeSender {
    cursor: usize,
    total_sent: usize,
    speech_gate: RealtimeSpeechGate,
    final_pass: bool,
}

/// The state of a [`RealtimeSender`].
pub struct SenderView {
    /// How much of the recording was looked at.
    pub cursor: nat,
    /// How many bytes were sent, as far as a machine number can tell.
    pub total: nat,
    pub gate: GateView,
    pub final_pass: bool,
}

/// How many bytes some pieces have, as far as a machine number can tell, counted on from `start`.
pub open spec fn total_bytes(pieces: Seq<Seq<u8>>, start: nat) -> nat
    decreases pieces.len(),
{
    if pieces.len() == 0 {
        start
    } else {
        let sum = total_bytes(pieces.drop_last(), start) + pieces.last().len();
        if sum > usize::MAX {
            usize::MAX as nat
        } else {
            sum
        }
    }
}

/// The pieces of a recording that are new to a sender.
pub open spec fn fresh_pieces(snapshot: Seq<u8>, cursor: nat) -> Seq<Seq<u8>> {
    if cursor >= snapshot.len() {
        seq![]
    } else {
        pieces_of(snapshot.skip(cursor as int), CHUNK_BYTES as nat)
    }
}

impl RealtimeSender {
    /// The state of the sender.
    pub closed spec fn view(&self) -> SenderView {
        SenderView {
            cursor: self.cursor as nat,
            total: self.total_sent as nat,
            gate: self.speech_gate@,
            final_pass: self.final_pass,
        }
    }

    /// A sender that has sent nothing.
    pub fn new(sample_rate: u32, final_pass: bool) -> (r: Self)
        ensures
            r@.cursor == 0,
            r@.total == 0,
            r@.final_pass == final_pass,
            !r@.gate.started,
            r@.gate.pending.len() == 0,
            r@.gate.max_pending == speech::frame_step(
                sample_rate,
                REALTIME_SPEECH_GATE_PREROLL as nat * 1_000_000,
            ),
    {
        Self {
            cursor: 0,
            total_sent: 0,
            speech_gate: RealtimeSpeechGate::new(sample_rate),
            final_pass,
        }
    }

    /// What is to be sent, given the recording so far.
    pub fn take_audio(&mut self, snapshot: &[u8]) -> (r: Vec<Vec<u8>>)
        ensures
            piece_views(r@) == gate_passes_all(
                old(self)@.gate,
                fresh_pieces(snapshot@, old(self)@.cursor),
            ),
            final(self)@ == (SenderView {
                cursor: snapshot@.len(),
                total: total_bytes(piece_views(r@), old(self)@.total),
                gate: gate_after_all(
                    old(self)@.gate,
                    fresh_pieces(snapshot@, old(self)@.cursor),
                ),
                final_pass: old(self)@.final_pass,
            }),
    {
        let ghost before = self@;
        let chunks = realtime_audio_chunks_since(
            snapshot,
            &mut self.cursor,
            &mut self.speech_gate,
        );
        let ghost sent = piece_views(chunks@);
        proof {
            if before.cursor >= snapshot@.len() {
                assert(sent =~= seq![]);
            }
        }
        let mut i: usize = 0;
        while i < chunks.len()
            invariant
                i <= chunks@.len(),
                sent == piece_views(chunks@),
                self@.total == total_bytes(sent.take(i as int), before.total),
                self@.cursor == snapshot@.len(),
                self@.final_pass == before.final_pass,
                self@.gate == gate_after_all(
                    before.gate,
                    fresh_pieces(snapshot@, before.cursor),
                ),
            decreases chunks@.len() - i,
        {
            proof {
                assert(sent.take(i + 1).drop_last() =~= sent.take(i as int));
                assert(sent.take(i + 1).last() == chunks@[i as int]@);
            }
            self.total_sent = self.total_sent.saturating_add(chunks[i].len());
            i += 1;
        }
        proof {
            assert(sent.take(i as int) =~= sent);
        }
        chunks
    }

    /// What is done with the connection once the sound has been sent.
    pub fn end(&self) -> (r: SenderEnd)
        ensures
            r == if self@.total > 0 && self@.final_pass {
                SenderEnd::Commit
            } else {
                SenderEnd::Close
            },
    {
        if self.total_sent > 0 && self.final_pass {
            SenderEnd::Commit
        } else {
            SenderEnd::Close
        }
    }

    /// How many bytes were sent.
    pub fn total_sent(&self) -> (r: usize)
        ensures
            r == self@.total,
    {
        self.total_sent
    }
}

/// What stopping a session waits for, once the sound has been sent.
#[derive(Debug, Clone, Copy, PartialEq, Eq, Structural)]
pub enum StopWait {
    /// The server's last events; the transcript is empty.
    Drain,
    /// The final transcript.
    Completion,
}

/// What stopping a session waits for, once the sound has been sent.
pub fn stop_wait(total_audio_bytes: usize, final_pass: bool) -> (r: StopWait)
    ensures
        r == if total_audio_bytes > 0 && final_pass {
            StopWait::Completion
        } else {
            StopWait::Drain
        },
{
    if total_audio_bytes == 0 || !final_pass {
        StopWait::Drain
    } else {
        StopWait::Completion
    }
}

/// The transcript of a realtime session.
#[derive(Debug)]
pub struct RealtimeTranscriptAccumulator {
    completed_segments: Vec<String>,
    current_confirmed: String,
    current_text: String,
}

/// The state of a [`RealtimeTranscriptAccumulator`].
pub struct TranscriptView {
    /// The texts of the items that are complete.
    pub completed: Seq<Seq<char>>,
    /// What the server confirmed of the current item.
    pub confirmed: Seq<char>,
    /// The current item as the server last told it.
    pub current: Seq<char>,
}

/// Whether a character is written behind a word without a space.
pub open spec fn leading_punctuation(c: char) -> bool {
    c == '.' || c == ',' || c == ';' || c == ':' || c == '!' || c == '?' || c == ')' || c == ']'
        || c == '}' || c == '%' || c == '\'' || c == '"'
}

/// A text with a segment behind it, and a space between them where one is due.
pub open spec fn with_segment(combined: Seq<char>, segment: Seq<char>) -> Seq<char> {
    if combined.len() == 0 || text::white_space(combined.last()) || (segment.len() > 0
        && leading_punctuation(segment[0])) {
        combined + segment
    } else {
        combined.push(' ') + segment
    }
}

/// Segments in one text. Empty ones are left out.
pub open spec fn combined(segments: Seq<Seq<char>>) -> Seq<char>
    decreases segments.len(),
{
    if segments.len() == 0 {
        seq![]
    } else {
        let head = combined(segments.drop_last());
        match text::non_empty(segments.last()) {
            Some(segment) => with_segment(head, segment),
            None => head,
        }
    }
}

/// A text, unless it is empty.
pub open spec fn unless_empty(s: Seq<char>) -> Option<Seq<char>> {
    if s.len() == 0 {
        None
    } else {
        Some(s)
    }
}

/// The whole transcript, unless it is empty.
pub open spec fn whole(transcript: TranscriptView) -> Option<Seq<char>> {
    unless_empty(combined(transcript.completed.push(transcript.current)))
}

/// The transcript after more text of the current item.
pub open spec fn after_delta(transcript: TranscriptView, delta: Seq<char>) -> TranscriptView {
    match text::non_empty(delta) {
        None => transcript,
        Some(segment) => {
            let confirmed = with_segment(transcript.confirmed, segment);
            TranscriptView { confirmed, current: confirmed, ..transcript }
        },
    }
}

/// The transcript after a guess at the current item.
pub open spec fn after_hypothesis(transcript: TranscriptView, guess: Seq<char>) -> TranscriptView {
    match text::non_empty(guess) {
        None => transcript,
        Some(guess) => TranscriptView { current: guess, ..transcript },
    }
}

/// The transcript after the current item was completed.
pub open spec fn after_completion(
    transcript: TranscriptView,
    final_transcript: Seq<char>,
) -> TranscriptView {
    TranscriptView {
        completed: match text::non_empty(final_transcript) {
            Some(segment) => transcript.completed.push(segment),
            None => transcript.completed,
        },
        confirmed: seq![],
        current: seq![],
    }
}

/// Whether a character is written behind a word without a space.
pub fn is_leading_punctuation(c: char) -> (r: bool)
    ensures
        r == leading_punctuation(c),
{
    c == '.' || c == ',' || c == ';' || c == ':' || c == '!' || c == '?' || c == ')' || c == ']'
        || c == '}' || c == '%' || c == '\'' || c == '"'
}

/// A text with a segment behind it, and a space between them where one is due.
fn push_transcript_segment(combined: &mut String, segment: &str)
    ensures
        final(combined)@ == with_segment(old(combined)@, segment@),
{
    let len = combined.as_str().unicode_len();
    let attached = len == 0 || text::is_white_space(combined.as_str().get_char(len - 1)) || (
    segment.unicode_len() > 0 && is_leading_punctuation(segment.get_char(0)));
    if !attached {
        combined.push(' ');
    }
    combined.append(segment);
}

/// Segments in one text.
fn combine_transcript_segments(segments: &Vec<String>, last: &str) -> (r: Option<String>)
    ensures
        text::opt_view(r) == unless_empty(combined(text::views(segments@).push(last@))),
{
    let ghost all = text::views(segments@);
    let mut out = String::new();
    let mut i: usize = 0;
    while i < segments.len()
        invariant
            i <= segments@.len(),
            all == text::views(segments@),
            out@ == combined(all.take(i as int)),
        decreases segments@.len() - i,
    {
        proof {
            assert(all.take(i + 1).drop_last() =~= all.take(i as int));
            assert(all.take(i + 1).last() == segments@[i as int]@);
        }
        if let Some(segment) = text::non_empty_str(segments[i].as_str()) {
            push_transcript_segment(&mut out, segment);
        }
        i += 1;
    }
    proof {
        assert(all.take(i as int) =~= all);
        assert(all.push(last@).drop_last() =~= all);
    }
    if let Some(segment) = text::non_empty_str(last) {
        push_transcript_segment(&mut out, segment);
    }
    if out.as_str().unicode_len() == 0 {
        None
    } else {
        Some(out)
    }
}

impl Default for RealtimeTranscriptAccumulator {
    fn default() -> (r: Self)
        ensures
            r@ == (TranscriptView { completed: seq![], confirmed: seq![], current: seq![] }),
    {
        let r = Self {
            completed_segments: Vec::new(),
            current_confirmed: String::new(),
            current_text: String::new(),
        };
        proof {
            assert(r@.completed =~= seq![]);
            assert(r@.confirmed =~= seq![]);
            assert(r@.current =~= seq![]);
        }
        r
    }
}

impl RealtimeTranscriptAccumulator {
    /// The state of the transcript.
    pub closed spec fn view(&self) -> TranscriptView {
        TranscriptView {
            completed: text::views(self.completed_segments@),
            confirmed: self.current_confirmed@,
            current: self.current_text@,
        }
    }

    /// Takes more text of the current item. Answers the whole transcript, unless nothing came.
    pub fn observe_delta(&mut self, delta: &str) -> (r: Option<String>)
        ensures
            final(self)@ == after_delta(old(self)@, delta@),
            text::opt_view(r) == if text::trimmed(delta@).len() == 0 {
                None
            } else {
                whole(final(self)@)
            },
    {
        let segment = match text::non_empty_str(delta) {
            Some(segment) => segment,
            None => {
                return None;
            },
        };
        push_transcript_segment(&mut self.current_confirmed, segment);
        self.current_text = self.current_confirmed.clone();
        self.current()
    }

    /// Takes a guess at the current item. Answers the whole transcript, unless nothing came.
    pub fn observe_hypothesis(&mut self, hypothesis: &RealtimeHypothesis) -> (r: Option<String>)
        ensures
            final(self)@ == after_hypothesis(old(self)@, hypothesis.transcript@),
            text::opt_view(r) == if text::trimmed(hypothesis.transcript@).len() == 0 {
                None
            } else {
                whole(final(self)@)
            },
    {
        let guess = match text::non_empty_str(hypothesis.transcript.as_str()) {
            Some(guess) => guess,
            None => {
                return None;
            },
        };
        self.current_text = guess.to_owned();
        self.current()
    }

    /// Takes the final text of the current item, which is then complete. Answers the whole
    /// transcript.
    pub fn observe_completion(&mut self, final_transcript: &str) -> (r: Option<String>)
        ensures
            final(self)@ == after_completion(old(self)@, final_transcript@),
            text::opt_view(r) == whole(final(self)@),
    {
        if let Some(segment) = text::non_empty_str(final_transcript) {
            text::push_text(&mut self.completed_segments, segment);
        }
        self.current_confirmed = String::new();
        self.current_text = String::new();
        proof {
            assert(self@.confirmed =~= seq![]);
            assert(self@.current =~= seq![]);
        }
        self.current()
    }

    /// The whole transcript, unless it is empty.
    pub fn current(&self) -> (r: Option<String>)
        ensures
            text::opt_view(r) == whole(self@),
    {
        combine_transcript_segments(&self.completed_segments, self.current_text.as_str())
    }
}

/// Why a realtime session failed.
#[derive(Debug, Clone, PartialEq, Eq)]
pub enum RealtimeError {
    /// A message was no JSON document.
    InvalidEvent { message: String, cause: String },
    /// A message was no text.
    NotText,
    /// The server reported a failure.
    Failed(String),
    /// The server closed the session before anything was understood.
    Closed,
    /// The server could not be warmed up.
    WarmupFailed(String),
    /// The server closed the session while it was warmed up.
    WarmupClosed,
}

/// The text of a [`RealtimeError`].
pub open spec fn realtime_error_text(error: RealtimeError) -> Seq<char> {
    match error {
        RealtimeError::InvalidEvent { message, cause } => "invalid server event JSON: "@ + message@
            + ": "@ + cause@,
        RealtimeError::NotText => "received non-UTF8 binary websocket message"@,
        RealtimeError::Failed(error) => "realtime transcription failed: "@ + error@,
        RealtimeError::Closed => "realtime websocket closed before transcription completed"@,
        RealtimeError::WarmupFailed(error) => "realtime warmup failed: "@ + error@,
        RealtimeError::WarmupClosed => "realtime warmup websocket closed before completion"@,
    }
}

impl RealtimeError {
    /// The text of this error.
    pub fn message(&self) -> (r: String)
        ensures
            r@ == realtime_error_text(*self),
    {
        match self {
            RealtimeError::InvalidEvent { message, cause } => {
                let mut out = "invalid server event JSON: ".to_owned();
                out.append(message.as_str());
                out.append(": ");
                out.append(cause.as_str());
                out
            },
            RealtimeError::NotText => "received non-UTF8 binary websocket message".to_owned(),
            RealtimeError::Failed(error) => {
                let mut out = "realtime transcription failed: ".to_owned();
                out.append(error.as_str());
                out
            },
            RealtimeError::Closed =>
                "realtime websocket closed before transcription completed".to_owned(),
            RealtimeError::WarmupFailed(error) => {
                let mut out = "realtime warmup failed: ".to_owned();
                out.append(error.as_str());
                out
            },
            RealtimeError::WarmupClosed =>
                "realtime warmup websocket closed before completion".to_owned(),
        }
    }
}

/// A message of a websocket.
#[derive(Debug, Clone, PartialEq, Eq)]
pub enum WebsocketMessage {
    Text(String),
    Binary(Vec<u8>),
    /// One that carries no event.
    Control,
}

/// The text of a message, if it carries one.
pub fn websocket_text(message: WebsocketMessage) -> (r: Result<Option<String>, RealtimeError>)
    ensures
        match message {
            WebsocketMessage::Text(text) => r == Ok::<Option<String>, RealtimeError>(Some(text)),
            WebsocketMessage::Binary(bytes) => if vstd::utf8::valid_utf8(bytes@) {
                r is Ok && text::opt_view(r->Ok_0) == Some(vstd::utf8::decode_utf8(bytes@))
            } else {
                r == Err::<Option<String>, RealtimeError>(RealtimeError::NotText)
            },
            WebsocketMessage::Control => r == Ok::<Option<String>, RealtimeError>(None),
        },
{
    match message {
        WebsocketMessage::Text(text) => Ok(Some(text)),
        WebsocketMessage::Binary(bytes) => match text::text_from_utf8(bytes) {
            Some(text) => Ok(Some(text)),
            None => Err(RealtimeError::NotText),
        },
        WebsocketMessage::Control => Ok(None),
    }
}

/// Whether the server complains that it has too little sound for a transcript.
pub open spec fn buffer_size_error(error: Seq<char>) -> bool {
    text::occurs(error, "buffer too small"@) || text::occurs(error, "buffer is empty"@)
}

/// Whether the server complains that it has too little sound for a transcript.
pub fn is_realtime_commit_buffer_size_error(error: &str) -> (r: bool)
    ensures
        r == buffer_size_error(error@),
{
    text::contains(error, "buffer too small") || text::contains(error, "buffer is empty")
}

/// The transcript that is taken although the server reports an error: after the stop, where it only
/// has too little sound left.
pub fn completed_or_live_after_stop(
    transcript: &RealtimeTranscriptAccumulator,
    error: &str,
    stop_requested: bool,
) -> (r: Option<String>)
    ensures
        text::opt_view(r) == if stop_requested && buffer_size_error(error@) {
            whole(transcript@)
        } else {
            None
        },
{
    if stop_requested && is_realtime_commit_buffer_size_error(error) {
        transcript.current()
    } else {
        None
    }
}

/// What is made of an event: a transcript to show, if any, and the end of the session, if it has
/// come.
#[derive(Debug, Clone, PartialEq, Eq)]
pub struct ReceiverStep {
    pub update: Option<String>,
    pub end: Option<Result<String, RealtimeError>>,
}

/// The transcript after an event.
pub open spec fn transcript_after(
    transcript: TranscriptView,
    event: event::EventView,
) -> TranscriptView {
    match event {
        event::EventView::LiveDelta(delta) => after_delta(transcript, delta),
        event::EventView::LiveHypothesis { transcript: guess, .. } => after_hypothesis(
            transcript,
            guess,
        ),
        event::EventView::Completed(text) => after_completion(transcript, text),
        _ => transcript,
    }
}

/// The transcript that an event brings to be shown.
pub open spec fn update_of(transcript: TranscriptView, event: event::EventView) -> Option<
    Seq<char>,
> {
    let news = match event {
        event::EventView::LiveDelta(delta) => text::trimmed(delta).len() > 0,
        event::EventView::LiveHypothesis { transcript: guess, .. } => text::trimmed(guess).len()
            > 0,
        event::EventView::Completed(_) => true,
        _ => false,
    };
    if news {
        whole(transcript_after(transcript, event))
    } else {
        None
    }
}

/// Whether an event ends the session as `end` says: a completion after the stop does, with the
/// whole transcript; a failure does, with the transcript so far where the server only has too
/// little sound left after the stop, else with the failure.
pub open spec fn ends_with(
    transcript: TranscriptView,
    event: event::EventView,
    stop_requested: bool,
    end: Option<Result<String, RealtimeError>>,
) -> bool {
    match event {
        event::EventView::Completed(_) => if stop_requested {
            end matches Some(Ok(text)) && text@ == text::or_empty(
                whole(transcript_after(transcript, event)),
            )
        } else {
            end is None
        },
        event::EventView::Failed(error) | event::EventView::Error(error) => if stop_requested
            && buffer_size_error(error) && whole(transcript) is Some {
            end matches Some(Ok(text)) && text@ == whole(transcript)->0
        } else {
            end matches Some(Err(RealtimeError::Failed(text))) && text@ == error
        },
        _ => end is None,
    }
}

/// What receives the events of a session.
#[derive(Debug)]
pub struct RealtimeReceiver {
    transcript: RealtimeTranscriptAccumulator,
}

impl Default for RealtimeReceiver {
    fn default() -> (r: Self)
        ensures
            r@ == (TranscriptView { completed: seq![], confirmed: seq![], current: seq![] }),
    {
        Self { transcript: RealtimeTranscriptAccumulator::default() }
    }
}

impl RealtimeReceiver {
    /// The transcript so far.
    pub closed spec fn view(&self) -> TranscriptView {
        self.transcript@
    }

    /// Takes an event of the server.
    pub fn on_event(&mut self, event: &RealtimeEvent, stop_requested: bool) -> (r: ReceiverStep)
        ensures
            final(self)@ == transcript_after(old(self)@, event@),
            text::opt_view(r.update) == update_of(old(self)@, event@),
            ends_with(old(self)@, event@, stop_requested, r.end),
    {
        match event {
            RealtimeEvent::LiveDelta(delta) => ReceiverStep {
                update: self.transcript.observe_delta(delta.as_str()),
                end: None,
            },
            RealtimeEvent::LiveHypothesis(hypothesis) => ReceiverStep {
                update: self.transcript.observe_hypothesis(hypothesis),
                end: None,
            },
            RealtimeEvent::Completed(final_transcript) => {
                let update = self.transcript.observe_completion(final_transcript.as_str());
                let end = if stop_requested {
                    let text = match &update {
                        Some(text) => text.clone(),
                        None => String::new(),
                    };
                    proof {
                        assert(text@ =~= text::or_empty(whole(self@)));
                    }
                    Some(Ok(text))
                } else {
                    None
                };
                ReceiverStep { update, end }
            },
            RealtimeEvent::Failed(error) | RealtimeEvent::Error(error) => {
                let end = match completed_or_live_after_stop(
                    &self.transcript,
                    error.as_str(),
                    stop_requested,
                ) {
                    Some(text) => Ok(text),
                    None => Err(RealtimeError::Failed(error.clone())),
                };
                ReceiverStep { update: None, end: Some(end) }
            },
            RealtimeEvent::Other(_) => ReceiverStep { update: None, end: None },
        }
    }

    /// Takes a message of the server. One that is no JSON document ends the session.
    pub fn on_message(&mut self, message: &str, stop_requested: bool) -> (r: ReceiverStep)
        ensures
            match json::parsed_document(message@) {
                Ok(document) => {
                    let event = event::classified(document);
                    &&& final(self)@ == transcript_after(old(self)@, event)
                    &&& text::opt_view(r.update) == update_of(old(self)@, event)
                    &&& ends_with(old(self)@, event, stop_requested, r.end)
                },
                Err(error) => {
                    &&& final(self)@ == old(self)@
                    &&& r.update is None
                    &&& r.end matches Some(Err(RealtimeError::InvalidEvent { message: m, cause }))
                        && m@ == message@ && cause@ == error
                },
            },
    {
        match parse_event(message) {
            Ok(event) => self.on_event(&event, stop_requested),
            Err(cause) => ReceiverStep {
                update: None,
                end: Some(
                    Err(RealtimeError::InvalidEvent { message: message.to_owned(), cause }),
                ),
            },
        }
    }

    /// Takes note that no more messages come, or that nobody wants the transcript any more.
    pub fn on_closed(&self) -> (r: Result<String, RealtimeError>)
        ensures
            match r {
                Ok(text) => whole(self@) == Some(text@),
                Err(error) => whole(self@) is None && error == RealtimeError::Closed,
            },
    {
        match self.transcript.current() {
            Some(text) => Ok(text),
            None => Err(RealtimeError::Closed),
        }
    }
}

/// What is made of an event while the server is warmed up: nothing but the end of a transcription
/// counts.
pub fn warmup_step(event: &RealtimeEvent) -> (r: Option<Result<(), RealtimeError>>)
    ensures
        match event@ {
            event::EventView::Completed(_) => r == Some(Ok::<(), RealtimeError>(())),
            event::EventView::Failed(error) | event::EventView::Error(error) => r matches Some(
                Err(RealtimeError::WarmupFailed(text)),
            ) && text@ == error,
            _ => r is None,
        },
{
    match event {
        RealtimeEvent::Completed(_) => Some(Ok(())),
        RealtimeEvent::Failed(error) | RealtimeEvent::Error(error) => Some(
            Err(RealtimeError::WarmupFailed(error.clone())),
        ),
        _ => None,
    }
}

/// The bytes of silence that warm the server up.
pub fn warmup_audio(sample_rate: u32) -> (r: Vec<u8>)
    requires
        audio::pcm_bytes(sample_rate, REALTIME_WARMUP_DURATION as nat * 1_000_000) <= usize::MAX,
    ensures
        r@ == Seq::new(
            audio::pcm_bytes(sample_rate, REALTIME_WARMUP_DURATION as nat * 1_000_000),
            |i: int| 0u8,
        ),
{
    let len = audio::pcm_bytes_for_duration(
        sample_rate,
        Duration::from_millis(REALTIME_WARMUP_DURATION),
    );
    let silence: Vec<u8> = vec![0u8; len];
    proof {
        assert(silence@ =~= Seq::new(len as nat, |i: int| 0u8));
    }
    silence
}

/// The character of a number below 64 in Base64.
pub open spec fn base64_char(n: int) -> char {
    if n < 26 {
        (65 + n) as char
    } else if n < 52 {
        (97 + (n - 26)) as char
    } else if n < 62 {
        (48 + (n - 52)) as char
    } else if n == 62 {
        '+'
    } else {
        '/'
    }
}

/// Bytes in Base64: four characters for each three bytes, filled up with equals signs.
pub open spec fn base64(bytes: Seq<u8>) -> Seq<char>
    decreases bytes.len(),
{
    if bytes.len() == 0 {
        seq![]
    } else if bytes.len() == 1 {
        seq![
            base64_char(bytes[0] as int / 4),
            base64_char(bytes[0] as int % 4 * 16),
            '=',
            '=',
        ]
    } else if bytes.len() == 2 {
        seq![
            base64_char(bytes[0] as int / 4),
            base64_char(bytes[0] as int % 4 * 16 + bytes[1] as int / 16),
            base64_char(bytes[1] as int % 16 * 4),
            '=',
        ]
    } else {
        seq![
            base64_char(bytes[0] as int / 4),
            base64_char(bytes[0] as int % 4 * 16 + bytes[1] as int / 16),
            base64_char(bytes[1] as int % 16 * 4 + bytes[2] as int / 64),
            base64_char(bytes[2] as int % 64),
        ] + base64(bytes.skip(3))
    }
}

/// Each number below 64 has a character of its own.
proof fn base64_chars_differ(m: int, n: int)
    requires
        0 <= m < 64,
        0 <= n < 64,
        base64_char(m) == base64_char(n),
    ensures
        m == n,
{
    assert(base64_char(m) as u32 == base64_char(n) as u32);
}

/// How some bytes stand in Base64: the sign for the third and the fourth character tells how many
/// bytes the first four characters stand for.
proof fn base64_group(bytes: Seq<u8>)
    requires
        bytes.len() > 0,
    ensures
        base64(bytes).len() >= 4,
        base64(bytes)[0] == base64_char(bytes[0] as int / 4),
        base64(bytes)[2] == '=' <==> bytes.len() == 1,
        base64(bytes)[3] == '=' <==> bytes.len() <= 2,
        bytes.len() == 1 ==> base64(bytes).len() == 4 && base64(bytes)[1] == base64_char(
            bytes[0] as int % 4 * 16,
        ),
        bytes.len() >= 2 ==> base64(bytes)[1] == base64_char(
            bytes[0] as int % 4 * 16 + bytes[1] as int / 16,
        ),
        bytes.len() == 2 ==> base64(bytes).len() == 4 && base64(bytes)[2] == base64_char(
            bytes[1] as int % 16 * 4,
        ),
        bytes.len() >= 3 ==> base64(bytes)[2] == base64_char(
            bytes[1] as int % 16 * 4 + bytes[2] as int / 64,
        ) && base64(bytes)[3] == base64_char(bytes[2] as int % 64) && base64(bytes).skip(4)
            == base64(bytes.skip(3)),
{
    assert('=' as u32 == 61);
    assert forall|n: int| 0 <= n < 64 implies #[trigger] base64_char(n) != '=' by {
        assert(base64_char(n) as u32 != 61);
    }
    if bytes.len() >= 3 {
        assert(base64(bytes).skip(4) =~= base64(bytes.skip(3)));
    }
}

/// Different sounds are sent to the server differently.
pub proof fn base64_tells_sounds_apart(a: Seq<u8>, b: Seq<u8>)
    requires
        base64(a) == base64(b),
    ensures
        a == b,
    decreases a.len(),
{
    if a.len() > 0 {
        base64_group(a);
    }
    if b.len() > 0 {
        base64_group(b);
    }
    if a.len() > 0 && b.len() > 0 {
        base64_chars_differ(a[0] as int / 4, b[0] as int / 4);
        if a.len() == 1 {
            base64_chars_differ(a[0] as int % 4 * 16, b[0] as int % 4 * 16);
        } else {
            base64_chars_differ(
                a[0] as int % 4 * 16 + a[1] as int / 16,
                b[0] as int % 4 * 16 + b[1] as int / 16,
            );
            if a.len() == 2 {
                base64_chars_differ(a[1] as int % 16 * 4, b[1] as int % 16 * 4);
            } else {
                base64_chars_differ(
                    a[1] as int % 16 * 4 + a[2] as int / 64,
                    b[1] as int % 16 * 4 + b[2] as int / 64,
                );
                base64_chars_differ(a[2] as int % 64, b[2] as int % 64);
                base64_tells_sounds_apart(a.skip(3), b.skip(3));
                assert forall|i: int| 3 <= i < a.len() implies a[i] == b[i] by {
                    assert(a[i] == a.skip(3)[i - 3]);
                    assert(b[i] == b.skip(3)[i - 3]);
                }
                assert(a.skip(3).len() == b.skip(3).len());
            }
        }
    }
    assert(a =~= b);
}

/// `base64::engine::general_purpose::STANDARD.encode`: bytes in Base64 with the standard alphabet
/// and padding. The result has to fit into memory.
#[verifier::external_body]
pub(crate) fn encode_base64(bytes: &[u8]) -> (r: String)
    requires
        2 * bytes@.len() <= isize::MAX,
    ensures
        r@ == base64(bytes@),
{
    base64::engine::general_purpose::STANDARD.encode(bytes)
}

/// The members of the event that brings sound to the server.
pub open spec fn append_members(audio: Seq<u8>) -> Seq<(Seq<char>, Seq<char>)> {
    seq![("type"@, "input_audio_buffer.append"@), ("audio"@, base64(audio))]
}

/// The members of the event that asks for the final transcript.
pub open spec fn commit_members() -> Seq<(Seq<char>, Seq<char>)> {
    seq![("type"@, "input_audio_buffer.commit"@)]
}

/// The event that brings sound to the server: it says so, and carries the sound in Base64.
pub fn audio_append_event(audio: &[u8]) -> (r: String)
    requires
        2 * audio@.len() <= isize::MAX,
    ensures
        r@ == json::object_text(append_members(audio@)),
        json::parsed_document(r@) is Ok,
        json::text_member(json::parsed_document(r@)->Ok_0, "type"@) == Some(
            "input_audio_buffer.append"@,
        ),
        json::text_member(json::parsed_document(r@)->Ok_0, "audio"@) == Some(base64(audio@)),
{
    let members: Vec<(String, String)> = vec![
        ("type".to_owned(), "input_audio_buffer.append".to_owned()),
        ("audio".to_owned(), encode_base64(audio)),
    ];
    proof {
        reveal_strlit("type");
        reveal_strlit("audio");
        assert("type"@.len() != "audio"@.len());
        assert(json::member_views(members@) =~= append_members(audio@));
        assert(json::distinct_names(json::member_views(members@)));
        assert(members@[0].0@ == "type"@);
        assert(members@[1].0@ == "audio"@);
    }
    json::write_object(members)
}

/// The event that asks for the final transcript.
pub fn commit_event() -> (r: String)
    ensures
        r@ == json::object_text(commit_members()),
        json::parsed_document(r@) is Ok,
        json::text_member(json::parsed_document(r@)->Ok_0, "type"@) == Some(
            "input_audio_buffer.commit"@,
        ),
{
    let members: Vec<(String, String)> = vec![
        ("type".to_owned(), "input_audio_buffer.commit".to_owned()),
    ];
    proof {
        assert(json::member_views(members@) =~= commit_members());
        assert(json::distinct_names(json::member_views(members@)));
        assert(members@[0].0@ == "type"@);
    }
    json::write_object(members)
}

/// A completed item stays in the transcript, in front of what comes later.
pub proof fn completed_items_stay(transcript: TranscriptView, event: event::EventView)
    ensures
        transcript.completed.len() <= transcript_after(transcript, event).completed.len(),
        transcript_after(transcript, event).completed.take(transcript.completed.len() as int)
            == transcript.completed,
{
    assert(transcript_after(transcript, event).completed.take(transcript.completed.len() as int)
        =~= transcript.completed);
}

/// Before the stop, only a failure ends a session.
pub proof fn only_failures_end_a_running_session(
    transcript: TranscriptView,
    event: event::EventView,
    end: Option<Result<String, RealtimeError>>,
)
    requires
        ends_with(transcript, event, false, end),
    ensures
        end is Some ==> end->0 is Err && (event is Failed || event is Error),
{
}

/// A guess at the current item replaces what was thought of it before, be that longer or shorter:
/// the last guess alone tells the item. What was completed or confirmed stays.
pub proof fn the_last_guess_counts(
    transcript: TranscriptView,
    guess: Seq<char>,
    confirmed_prefix: Seq<char>,
    provisional: Seq<char>,
)
    requires
        text::trimmed(guess).len() > 0,
    ensures
        ({
            let event = event::EventView::LiveHypothesis {
                transcript: guess,
                confirmed_prefix,
                provisional,
            };
            let after = transcript_after(transcript, event);
            &&& after.current == text::trimmed(guess)
            &&& after.completed == transcript.completed
            &&& after.confirmed == transcript.confirmed
            &&& update_of(transcript, event) == whole(after)
            &&& transcript.completed.len() == 0 ==> whole(after) == Some(text::trimmed(guess))
        }),
{
    let after = TranscriptView { current: text::trimmed(guess), ..transcript };
    if transcript.completed.len() == 0 {
        one_item_is_the_whole(after);
        text::trimming_twice_is_trimming_once(guess);
    }
}

/// Where nothing was completed, the current item is the whole transcript.
proof fn one_item_is_the_whole(transcript: TranscriptView)
    requires
        transcript.completed.len() == 0,
    ensures
        whole(transcript) == text::non_empty(transcript.current),
{
    let all = transcript.completed.push(transcript.current);
    assert(all.drop_last() =~= transcript.completed);
    assert(all.last() == transcript.current);
    assert(combined(transcript.completed) =~= seq![]);
    if let Some(segment) = text::non_empty(transcript.current) {
        assert(seq![] + segment =~= segment);
    }
}

/// More text of the current item stands behind what was confirmed of it, with a space between where
/// one is due; guesses at it count no more. What was completed stays.
pub proof fn confirmed_text_grows(transcript: TranscriptView, delta: Seq<char>)
    requires
        text::trimmed(delta).len() > 0,
    ensures
        ({
            let event = event::EventView::LiveDelta(delta);
            let after = transcript_after(transcript, event);
            let attached = transcript.confirmed.len() == 0 || text::white_space(
                transcript.confirmed.last(),
            ) || leading_punctuation(text::trimmed(delta)[0]);
            &&& after.confirmed == transcript.confirmed + if attached {
                text::trimmed(delta)
            } else {
                seq![' '] + text::trimmed(delta)
            }
            &&& after.current == after.confirmed
            &&& after.completed == transcript.completed
            &&& update_of(transcript, event) == whole(after)
        }),
{
    let after = transcript_after(transcript, event::EventView::LiveDelta(delta));
    assert(transcript.confirmed.push(' ') + text::trimmed(delta) =~= transcript.confirmed + (
    seq![' '] + text::trimmed(delta)));
}

/// The characters that stand behind a word without a space.
pub proof fn closing_marks_are_attached(c: char)
    ensures
        leading_punctuation(c) <==> seq!['.', ',', ';', ':', '!', '?', ')', ']', '}', '%', '\'', '"']
            .contains(c),
{
    let marks = seq!['.', ',', ';', ':', '!', '?', ')', ']', '}', '%', '\'', '"'];
    if leading_punctuation(c) {
        assert(marks[0] == '.' && marks[1] == ',' && marks[2] == ';' && marks[3] == ':' && marks[4]
            == '!' && marks[5] == '?' && marks[6] == ')' && marks[7] == ']' && marks[8] == '}'
            && marks[9] == '%' && marks[10] == '\'' && marks[11] == '"');
    }
}

/// Events that bring no text change nothing, and show nothing.
pub proof fn blank_events_change_nothing(transcript: TranscriptView, event: event::EventView)
    requires
        match event {
            event::EventView::LiveDelta(delta) => text::trimmed(delta).len() == 0,
            event::EventView::LiveHypothesis { transcript: guess, .. } => text::trimmed(guess).len()
                == 0,
            event::EventView::Completed(_) => false,
            _ => true,
        },
    ensures
        transcript_after(transcript, event) == transcript,
        update_of(transcript, event) is None,
{
}

/// A completed item is put behind the ones before, and the next one begins with nothing. It alone
/// is the whole transcript where it is the first.
pub proof fn completed_items_are_kept(transcript: TranscriptView, final_transcript: Seq<char>)
    ensures
        ({
            let event = event::EventView::Completed(final_transcript);
            let after = transcript_after(transcript, event);
            &&& after.current.len() == 0
            &&& after.confirmed.len() == 0
            &&& text::trimmed(final_transcript).len() > 0 ==> after.completed
                == transcript.completed.push(text::trimmed(final_transcript))
            &&& text::trimmed(final_transcript).len() == 0 ==> after.completed
                == transcript.completed
            &&& update_of(transcript, event) == whole(after)
            &&& transcript.completed.len() == 0 ==> whole(after) == text::non_empty(
                final_transcript,
            )
        }),
{
    let after = transcript_after(transcript, event::EventView::Completed(final_transcript));
    if transcript.completed.len() == 0 {
        let nothing = Seq::<Seq<char>>::empty();
        assert(transcript.completed =~= nothing);
        if text::trimmed(final_transcript).len() > 0 {
            let segment = text::trimmed(final_transcript);
            let alone = TranscriptView { completed: nothing, current: segment, ..transcript };
            one_item_is_the_whole(alone);
            text::trimming_twice_is_trimming_once(final_transcript);
            assert(after.completed.push(after.current).drop_last() =~= nothing.push(segment));
            assert(after.completed.push(after.current).last().len() == 0);
        } else {
            one_item_is_the_whole(after);
        }
    }
}

/// The whole transcript holds all items in their order: a further one stands behind the others, with
/// a space between where one is due, and one that is blank does not count.
pub proof fn items_stand_in_order(items: Seq<Seq<char>>, item: Seq<char>)
    ensures
        combined(Seq::<Seq<char>>::empty()).len() == 0,
        text::trimmed(item).len() == 0 ==> combined(items.push(item)) == combined(items),
        text::trimmed(item).len() > 0 ==> combined(items.push(item)) == combined(items) + if combined(
            items,
        ).len() == 0 || text::white_space(combined(items).last()) || leading_punctuation(
            text::trimmed(item)[0],
        ) {
            text::trimmed(item)
        } else {
            seq![' '] + text::trimmed(item)
        },
{
    assert(items.push(item).drop_last() =~= items);
    assert(combined(items).push(' ') + text::trimmed(item) =~= combined(items) + (seq![' ']
        + text::trimmed(item)));
}

/// The whole transcript is all completed items and the current one; there is none where they are
/// empty.
pub proof fn the_whole_is_all_items(transcript: TranscriptView)
    ensures
        text::or_empty(whole(transcript)) == combined(
            transcript.completed.push(transcript.current),
        ),
        whole(transcript) is Some ==> whole(transcript)->0.len() > 0,
{
}

/// After the stop, the completion of an item ends the session with the whole transcript; before it,
/// the session goes on.
pub proof fn completions_end_stopped_sessions(
    transcript: TranscriptView,
    final_transcript: Seq<char>,
    stop_requested: bool,
    end: Option<Result<String, RealtimeError>>,
)
    requires
        ends_with(
            transcript,
            event::EventView::Completed(final_transcript),
            stop_requested,
            end,
        ),
    ensures
        end is Some <==> stop_requested,
        stop_requested ==> end->0 is Ok && end->0->Ok_0@ == combined(
            transcript.completed.push(final_transcript),
        ),
        stop_requested && transcript.completed.len() == 0 ==> end->0->Ok_0@ == text::trimmed(
            final_transcript,
        ),
{
    completed_items_are_kept(transcript, final_transcript);
    items_stand_in_order(transcript.completed, final_transcript);
    let event = event::EventView::Completed(final_transcript);
    let after = transcript_after(transcript, event);
    items_stand_in_order(after.completed, after.current);
    items_stand_in_order(transcript.completed, text::trimmed(final_transcript));
    text::trimming_twice_is_trimming_once(final_transcript);
    if text::trimmed(final_transcript).len() == 0 {
        assert(text::trimmed(final_transcript) =~= Seq::<char>::empty());
    }
    if transcript.completed.len() == 0 {
        assert(transcript.completed =~= Seq::<Seq<char>>::empty());
    }
}

/// Live text never ends a session, nor does an event of another kind.
pub proof fn live_text_ends_no_session(
    transcript: TranscriptView,
    event: event::EventView,
    stop_requested: bool,
    end: Option<Result<String, RealtimeError>>,
)
    requires
        ends_with(transcript, event, stop_requested, end),
        event is LiveDelta || event is LiveHypothesis || event is Other,
    ensures
        end is None,
{
}

/// A failure ends the session with what the server says. Only where the server has too little sound
/// left after the stop, and something was understood, that is the transcript.
pub proof fn failures_end_sessions(
    transcript: TranscriptView,
    error: Seq<char>,
    stop_requested: bool,
    end: Option<Result<String, RealtimeError>>,
)
    requires
        ends_with(transcript, event::EventView::Failed(error), stop_requested, end) || ends_with(
            transcript,
            event::EventView::Error(error),
            stop_requested,
            end,
        ),
    ensures
        end is Some,
        ({
            let too_little = text::occurs(error, "buffer too small"@) || text::occurs(
                error,
                "buffer is empty"@,
            );
            if stop_requested && too_little && combined(
                transcript.completed.push(transcript.current),
            ).len() > 0 {
                end->0 is Ok && end->0->Ok_0@ == combined(
                    transcript.completed.push(transcript.current),
                )
            } else {
                end->0 matches Err(RealtimeError::Failed(text)) && text@ == error
            }
        }),
{
}

/// All pieces but the last have the full size, and none is empty or larger.
pub proof fn pieces_are_full(bytes: Seq<u8>, size: nat, k: int)
    requires
        size > 0,
        0 <= k < pieces_of(bytes, size).len(),
    ensures
        0 < pieces_of(bytes, size)[k].len() <= size,
        k + 1 < pieces_of(bytes, size).len() ==> pieces_of(bytes, size)[k].len() == size,
{
    another_piece(bytes.len(), size, k as nat);
    another_piece(bytes.len(), size, (k + 1) as nat);
    assert((k + 1) * size == k * size + size) by (nonlinear_arith);
    assert(k * size >= 0) by (nonlinear_arith)
        requires
            k >= 0,
    ;
}

/// The sound before speech: a closed gate lets nothing pass and keeps the last sound, as much as it
/// may. When it opens, all that it kept passes.
pub proof fn opening_lets_all_kept_sound_pass(gate: GateView, piece: Seq<u8>)
    requires
        !gate.started,
    ensures
        ({
            let heard = gate.pending + piece;
            let kept = heard.skip(
                if heard.len() > gate.max_pending {
                    heard.len() - gate.max_pending
                } else {
                    0
                },
            );
            let after = gate_after(gate, piece);
            &&& after.max_pending == gate.max_pending
            &&& after.started <==> sustained_speech(kept)
            &&& after.started ==> all_bytes(gate_passes(gate, piece)) == kept
                && after.pending.len() == 0
            &&& !after.started ==> gate_passes(gate, piece).len() == 0 && after.pending == kept
        }),
{
    let heard = gate.pending + piece;
    assert(heard.skip(0) =~= heard);
    pieces_give_back_the_bytes(audio::recent(heard, gate.max_pending), CHUNK_BYTES as nat);
    assert(gate_after(gate, piece).started ==> gate_after(gate, piece).pending.len() == 0);
}

/// A frame is loud if the root mean square of its samples is 700 or more.
pub proof fn loud_frames_reach_the_floor(frame: Seq<u8>)
    ensures
        loud(frame) <==> speech::rms(frame) >= 700 * double::power(double::ONE as nat),
{
    speech::the_bounds_are_whole();
}

/// Where the bytes up to the `k`th frame end.
spec fn frame_end(pcm: Seq<u8>, k: int) -> int {
    if k * REALTIME_SPEECH_GATE_FRAME_BYTES <= pcm.len() {
        k * REALTIME_SPEECH_GATE_FRAME_BYTES
    } else {
        pcm.len() as int
    }
}

/// Loud frames on end are counted together, from the first of them.
proof fn loud_frames_add_up(pcm: Seq<u8>, j: int, k: int)
    requires
        0 <= j <= k <= piece_count(pcm.len(), REALTIME_SPEECH_GATE_FRAME_BYTES as nat),
        forall|i: int|
            j <= i < k ==> loud(
                #[trigger] piece_at(pcm, REALTIME_SPEECH_GATE_FRAME_BYTES as nat, i),
            ),
    ensures
        loud_bytes_up_to(pcm, k) >= frame_end(pcm, k) - frame_end(pcm, j),
    decreases k - j,
{
    if j < k {
        loud_frames_add_up(pcm, j, k - 1);
        let size = REALTIME_SPEECH_GATE_FRAME_BYTES as nat;
        another_piece(pcm.len(), size, (k - 1) as nat);
        assert(loud(piece_at(pcm, size, k - 1)));
    }
}

/// The bytes that are counted are those of loud frames on end.
proof fn counted_frames_are_loud(pcm: Seq<u8>, k: int) -> (j: int)
    requires
        0 <= k <= piece_count(pcm.len(), REALTIME_SPEECH_GATE_FRAME_BYTES as nat),
    ensures
        0 <= j <= k,
        forall|i: int|
            j <= i < k ==> loud(
                #[trigger] piece_at(pcm, REALTIME_SPEECH_GATE_FRAME_BYTES as nat, i),
            ),
        loud_bytes_up_to(pcm, k) == frame_end(pcm, k) - frame_end(pcm, j),
    decreases k,
{
    if k == 0 {
        0
    } else {
        let size = REALTIME_SPEECH_GATE_FRAME_BYTES as nat;
        another_piece(pcm.len(), size, (k - 1) as nat);
        if loud(piece_at(pcm, size, k - 1)) {
            counted_frames_are_loud(pcm, k - 1)
        } else {
            k
        }
    }
}

/// There is speech exactly where loud frames on end, from the `j`th to before the `k`th, have enough
/// bytes together. A loud click is none, nor are loud frames with a quiet one between.
pub proof fn speech_is_loud_for_a_while(pcm: Seq<u8>)
    ensures
        sustained_speech(pcm) <==> exists|j: int, k: int| #[trigger] loud_stretch(pcm, j, k),
{
    let size = REALTIME_SPEECH_GATE_FRAME_BYTES as nat;
    if sustained_speech(pcm) {
        let k = choose|k: int|
            0 <= k <= piece_count(pcm.len(), size) && #[trigger] loud_bytes_up_to(pcm, k)
                >= REALTIME_SPEECH_GATE_MIN_SPEECH_BYTES;
        let j = counted_frames_are_loud(pcm, k);
        assert(loud_stretch(pcm, j, k));
    }
    if exists|j: int, k: int| #[trigger] loud_stretch(pcm, j, k) {
        let (j, k) = choose|j: int, k: int| #[trigger] loud_stretch(pcm, j, k);
        loud_frames_add_up(pcm, j, k);
        assert(loud_bytes_up_to(pcm, k) >= REALTIME_SPEECH_GATE_MIN_SPEECH_BYTES);
    }
}

/// Whether all frames from the `j`th to before the `k`th are loud, and have the bytes of the
/// shortest speech together.
pub open spec fn loud_stretch(pcm: Seq<u8>, j: int, k: int) -> bool {
    let size = REALTIME_SPEECH_GATE_FRAME_BYTES;
    &&& 0 <= j <= k <= piece_count(pcm.len(), size as nat)
    &&& forall|i: int| j <= i < k ==> loud(#[trigger] piece_at(pcm, size as nat, i))
    &&& (if k * size <= pcm.len() {
        k * size
    } else {
        pcm.len() as int
    }) - (if j * size <= pcm.len() {
        j * size
    } else {
        pcm.len() as int
    }) >= REALTIME_SPEECH_GATE_MIN_SPEECH_BYTES
}

/// Each piece that is sent counts with all its bytes, and a recording that was looked at in part is
/// looked at from there on.
pub proof fn sent_bytes_are_counted(pieces: Seq<Seq<u8>>, start: nat)
    requires
        start + all_bytes(pieces).len() <= usize::MAX,
    ensures
        total_bytes(pieces, start) == start + all_bytes(pieces).len(),
    decreases pieces.len(),
{
    if pieces.len() > 0 {
        sent_bytes_are_counted(pieces.drop_last(), start);
    }
}

/// What is new to a sender is all of the recording that it has not looked at.
pub proof fn all_new_sound_is_looked_at(snapshot: Seq<u8>, cursor: nat)
    ensures
        cursor <= snapshot.len() ==> all_bytes(fresh_pieces(snapshot, cursor)) == snapshot.skip(
            cursor as int,
        ),
        cursor > snapshot.len() ==> fresh_pieces(snapshot, cursor).len() == 0,
{
    if cursor < snapshot.len() {
        pieces_give_back_the_bytes(snapshot.skip(cursor as int), CHUNK_BYTES as nat);
    } else if cursor == snapshot.len() {
        assert(snapshot.skip(cursor as int) =~= seq![]);
        assert(all_bytes(seq![]) =~= seq![]);
    }
}

/// The message of a failure ends with what the server said, or with why a message could not be read.
pub proof fn errors_say_what_is_wrong(error: RealtimeError)
    ensures
        error matches RealtimeError::Failed(said) ==> text::ends(realtime_error_text(error), said@),
        error matches RealtimeError::WarmupFailed(said) ==> text::ends(
            realtime_error_text(error),
            said@,
        ),
        error matches RealtimeError::InvalidEvent { message, cause } ==> text::ends(
            realtime_error_text(error),
            cause@,
        ) && text::occurs(realtime_error_text(error), message@),
{
    match error {
        RealtimeError::Failed(said) => {
            text::parts_are_found("realtime transcription failed: "@, said@, said@);
        },
        RealtimeError::WarmupFailed(said) => {
            text::parts_are_found("realtime warmup failed: "@, said@, said@);
        },
        RealtimeError::InvalidEvent { message, cause } => {
            let head = "invalid server event JSON: "@;
            text::parts_are_found(head + message@ + ": "@, cause@, cause@);
            text::parts_are_found(head, message@, ": "@ + cause@);
            assert(head + message@ + (": "@ + cause@) =~= realtime_error_text(error));
        },
        _ => {},
    }
}

/// One piece of sound does to a speech gate what a piece does, and pieces are taken one after the
/// other; without a piece nothing changes.
pub proof fn pieces_are_taken_one_by_one(gate: GateView, pieces: Seq<Seq<u8>>, piece: Seq<u8>)
    ensures
        gate_after_all(gate, Seq::<Seq<u8>>::empty()) == gate,
        gate_passes_all(gate, Seq::<Seq<u8>>::empty()).len() == 0,
        gate_after_all(gate, pieces.push(piece)) == gate_after(
            gate_after_all(gate, pieces),
            piece,
        ),
        gate_passes_all(gate, pieces.push(piece)) == gate_passes_all(gate, pieces) + gate_passes(
            gate_after_all(gate, pieces),
            piece,
        ),
{
    assert(pieces.push(piece).drop_last() =~= pieces);
}

/// Loudness is measured in frames of 20 milliseconds, and 160 milliseconds of loud sound are speech.
pub proof fn the_speech_gate_is_timed()
    ensures
        REALTIME_SPEECH_GATE_FRAME_BYTES * 1_000 == 2 * SAMPLE_RATE * 20,
        REALTIME_SPEECH_GATE_MIN_SPEECH_BYTES * 1_000 == 2 * SAMPLE_RATE * 160,
        REALTIME_SPEECH_GATE_PREROLL == 300,
        SAMPLE_RATE == 24_000,
{
}

} // verus!
