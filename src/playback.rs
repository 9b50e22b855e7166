//! The playback stage: a state machine that takes frames of PCM from the
//! playback queue and turns each sample into one output pulse. The caller
//! runs the machine: it performs each returned action (drive the output
//! line, sleep) and then asks for the next one.

use crate::bytes::{
    decode_i16_le, le_i16, lemma_i16_round_trip, lemma_pcm_bytes_index, lemma_pcm_bytes_len, pcm_bytes,
};
use crate::frame::{
    frame_bytes, header_of, lemma_frame_round_trip, read_frame_header, release_frame, HEADER_LEN, MAX_PAYLOAD,
};
use crate::ring::{ByteQueue, QueueView, ReadGrant};
use vstd::prelude::*;

verus! {

/// Length of one output pulse in microseconds: one sample period at 8 kHz.
pub const PULSE_PERIOD_US: u32 = 125;

/// One output pulse: the line is held low for `low_us` microseconds, then
/// high for `high_us`.
#[derive(Clone, Copy, Debug, PartialEq, Eq, Structural)]
pub struct Pulse {
    pub low_us: u32,
    pub high_us: u32,
}

/// High time of the pulse for sample `s`: the sample's offset from the
/// most negative value, scaled to the pulse period and rounded down
/// (pulse-width modulation at a fixed period).
pub open spec fn high_time(s: int) -> int {
    (s + 32768) * PULSE_PERIOD_US / 65536
}

/// The pulse for sample `s`.
pub open spec fn pulse_of(s: int) -> Pulse {
    Pulse { low_us: (PULSE_PERIOD_US - high_time(s)) as u32, high_us: high_time(s) as u32 }
}

/// Sample `i` of the payload of the frame at the front of `bytes`.
pub open spec fn sample_at(bytes: Seq<u8>, i: int) -> int {
    le_i16(bytes[HEADER_LEN + 2 * i], bytes[HEADER_LEN + 2 * i + 1])
}

/// A frame written from decoded samples plays back those samples, in
/// order: whatever follows it in the queue, its header announces two bytes
/// per sample and its sample `i` reads back as `samples[i]`.
pub proof fn lemma_played_samples(samples: Seq<i16>, rest: Seq<u8>, i: int)
    requires
        0 <= i < samples.len(),
        2 * samples.len() <= MAX_PAYLOAD,
    ensures
        header_of(frame_bytes(pcm_bytes(samples)) + rest) == 2 * samples.len(),
        samples_in(header_of(frame_bytes(pcm_bytes(samples)) + rest)) == samples.len(),
        sample_at(frame_bytes(pcm_bytes(samples)) + rest, i) == samples[i],
{
    let payload = pcm_bytes(samples);
    lemma_pcm_bytes_len(samples);
    lemma_frame_round_trip(payload, rest);
    lemma_pcm_bytes_index(samples, i);
    lemma_i16_round_trip(samples[i]);
    let s = frame_bytes(payload) + rest;
    assert(s[HEADER_LEN + 2 * i] == payload[2 * i]);
    assert(s[HEADER_LEN + 2 * i + 1] == payload[2 * i + 1]);
}

/// Maps a sample to its output pulse.
pub fn pulse_for_sample(s: i16) -> (p: Pulse)
    ensures
        p == pulse_of(s as int),
        p.low_us + p.high_us == PULSE_PERIOD_US,
{
    let v: u32 = (s as i32 + 32768) as u32;
    let high: u32 = v * PULSE_PERIOD_US / 65536;
    assert(high <= PULSE_PERIOD_US) by {
        assert(v * PULSE_PERIOD_US < 65536 * PULSE_PERIOD_US);
    }
    Pulse { low_us: PULSE_PERIOD_US - high, high_us: high }
}

/// What the caller does next.
#[derive(Clone, Copy, Debug, PartialEq, Eq, Structural)]
pub enum PlayAction {
    /// Nothing to play: poll again after a short interval.
    Wait,
    /// Playback has run dry: drive the output low and mark it idle.
    GoIdle,
    /// Emit this pulse.
    Pulse(Pulse),
    /// A frame has been played to its end and released.
    FrameDone,
}

/// The frame being played.
struct Playing {
    grant: ReadGrant,
    length: usize,
    next: usize,
}

/// How far playback has got in the frame being played: the read grant's
/// length, the frame's payload length in bytes, and the next sample.
pub struct Progress {
    pub grant: nat,
    pub length: nat,
    pub next: nat,
}

/// The model of a `Player`.
pub struct PlayerView {
    pub active: bool,
    pub frame: Option<Progress>,
}

/// A frame's samples: two payload bytes each; a last odd byte is ignored.
pub open spec fn samples_in(length: nat) -> nat {
    length / 2
}

/// The player and the playback queue agree: a frame in play is the frame
/// at the front of the queue, inside the queue's open read grant, and the
/// read grant is open only then.
pub open spec fn consistent(p: PlayerView, q: QueueView) -> bool {
    match p.frame {
        None => q.reading is None,
        Some(f) => {
            &&& q.reading == Some(f.grant)
            &&& HEADER_LEN + f.length <= f.grant
            &&& f.next <= samples_in(f.length)
            &&& f.length == header_of(q.bytes)
        },
    }
}

/// The playback stage's state: whether output is active, and the frame in
/// play.
pub struct Player {
    active: bool,
    playing: Option<Playing>,
}

impl View for Player {
    type V = PlayerView;

    closed spec fn view(&self) -> PlayerView {
        PlayerView {
            active: self.active,
            frame: match self.playing {
                Some(f) => Some(Progress { grant: f.grant@, length: f.length as nat, next: f.next as nat }),
                None => None,
            },
        }
    }
}

impl Player {
    /// An idle player with no frame in play.
    pub fn new() -> (p: Player)
        ensures
            p@ == (PlayerView { active: false, frame: None }),
    {
        Player { active: false, playing: None }
    }

    /// Whether output is active.
    pub fn is_active(&self) -> (r: bool)
        ensures
            r == self@.active,
    {
        self.active
    }
}

/// A step of the play task while a frame is in play: the pulse of the
/// frame's next sample, or, with all samples out, the release of the whole
/// frame. Gives the action, the player and the queue after the step.
pub open spec fn in_frame_step(p: PlayerView, q: QueueView) -> (PlayAction, PlayerView, QueueView) {
    let f = p.frame->0;
    if f.next < samples_in(f.length) {
        (
            PlayAction::Pulse(pulse_of(sample_at(q.bytes, f.next as int))),
            PlayerView { frame: Some(Progress { next: f.next + 1, ..f }), ..p },
            q,
        )
    } else {
        (PlayAction::FrameDone, PlayerView { frame: None, ..p }, q.released((HEADER_LEN + f.length) as nat))
    }
}

/// The actions of `n` steps in play from player `p` and queue `q`.
pub open spec fn frame_actions(p: PlayerView, q: QueueView, n: nat) -> Seq<PlayAction>
    decreases n,
{
    if n == 0 {
        Seq::empty()
    } else {
        let (a, p2, q2) = in_frame_step(p, q);
        seq![a] + frame_actions(p2, q2, (n - 1) as nat)
    }
}

/// The pulses of samples `from..to` of the frame at the front of `bytes`.
pub open spec fn pulses_from(bytes: Seq<u8>, from: nat, to: nat) -> Seq<PlayAction> {
    Seq::new((to - from) as nat, |j: int| PlayAction::Pulse(pulse_of(sample_at(bytes, from + j))))
}

/// A frame in play is played to its end in order: from sample `next` on,
/// the following steps yield the pulse of each remaining sample, one after
/// the other, and then release the frame; no sample is skipped, repeated or
/// taken from another frame.
pub proof fn lemma_frame_played_in_order(p: PlayerView, q: QueueView)
    requires
        p.frame is Some,
        p.frame->0.next <= samples_in(p.frame->0.length),
    ensures
        frame_actions(p, q, (samples_in(p.frame->0.length) - p.frame->0.next + 1) as nat)
            == pulses_from(q.bytes, p.frame->0.next, samples_in(p.frame->0.length)) + seq![PlayAction::FrameDone],
    decreases samples_in(p.frame->0.length) - p.frame->0.next,
{
    let f = p.frame->0;
    let n = samples_in(f.length);
    let steps = (n - f.next + 1) as nat;
    if f.next < n {
        let (a, p2, q2) = in_frame_step(p, q);
        lemma_frame_played_in_order(p2, q2);
        assert(q2 == q);
        assert(frame_actions(p, q, steps) == seq![a] + frame_actions(p2, q2, (steps - 1) as nat));
        assert(pulses_from(q.bytes, f.next, n) =~= seq![a] + pulses_from(q.bytes, f.next + 1, n));
        assert(frame_actions(p, q, steps) =~= pulses_from(q.bytes, f.next, n) + seq![PlayAction::FrameDone]);
    } else {
        let (a, p2, q2) = in_frame_step(p, q);
        assert(frame_actions(p2, q2, 0) =~= Seq::<PlayAction>::empty());
        assert(pulses_from(q.bytes, f.next, n) =~= Seq::<PlayAction>::empty());
        assert(frame_actions(p, q, steps) =~= pulses_from(q.bytes, f.next, n) + seq![PlayAction::FrameDone]);
    }
}

/// One step of the play task. While a frame is in play it yields the pulse
/// of the frame's next sample, and once all samples are out it releases
/// the whole frame (header and payload). Otherwise it opens a read grant
/// on the run at the front of the queue: when the run holds a whole frame
/// it yields the frame's first pulse and marks output active (a frame
/// without samples is released at once); when it does not, it waits. With
/// nothing to read it marks output idle, yielding `GoIdle` if output was
/// active and `Wait` if not.
pub fn play_task(player: &mut Player, queue: &mut ByteQueue) -> (r: PlayAction)
    requires
        old(queue).wf(),
        consistent(old(player)@, old(queue)@),
    ensures
        final(queue).wf(),
        consistent(final(player)@, final(queue)@),
        // a frame in play: its next pulse, or, with all samples out, its release
        old(player)@.frame is Some ==> (r, final(player)@, final(queue)@) == in_frame_step(old(player)@, old(queue)@),
        // nothing to play
        old(player)@.frame is None && old(queue)@.bytes.len() == 0 ==> {
            &&& r == (if old(player)@.active { PlayAction::GoIdle } else { PlayAction::Wait })
            &&& final(queue)@ == old(queue)@.opened()
            &&& final(player)@ == (PlayerView { active: false, frame: None })
        },
        // a new frame at the front of the queue
        old(player)@.frame is None && old(queue)@.bytes.len() > 0 ==> {
            let run = old(queue)@.run_len();
            let length = header_of(old(queue)@.bytes);
            &&& 0 < run <= old(queue)@.bytes.len()
            &&& if run < HEADER_LEN + length {
                &&& r == PlayAction::Wait
                &&& final(queue)@ == (QueueView { read: old(queue)@.run_start(), ..old(queue)@ })
                &&& final(player)@ == old(player)@
            } else if samples_in(length) == 0 {
                &&& r == PlayAction::FrameDone
                &&& final(queue)@ == old(queue)@.opened().released((HEADER_LEN + length) as nat)
                &&& final(player)@ == old(player)@
            } else {
                &&& r == PlayAction::Pulse(pulse_of(sample_at(old(queue)@.bytes, 0)))
                &&& final(queue)@ == old(queue)@.opened()
                &&& final(player)@ == (PlayerView {
                    active: true,
                    frame: Some(Progress { grant: run, length, next: 1 }),
                })
            }
        },
{
    proof {
        queue.lemma_bounds();
    }
    match player.playing.take() {
        Some(f) => {
            if f.next < f.length / 2 {
                let at = HEADER_LEN + 2 * f.next;
                let lo = queue.peek_byte(&f.grant, at).unwrap();
                let hi = queue.peek_byte(&f.grant, at + 1).unwrap();
                let p = pulse_for_sample(decode_i16_le(lo, hi));
                player.playing = Some(Playing { next: f.next + 1, ..f });
                PlayAction::Pulse(p)
            } else {
                let _ = release_frame(queue, f.grant, f.length);
                PlayAction::FrameDone
            }
        },
        None => {
            let grant = match queue.try_read() {
                Ok(g) => g,
                Err(_) => {
                    if player.active {
                        player.active = false;
                        return PlayAction::GoIdle;
                    }
                    return PlayAction::Wait;
                },
            };
            let length = match read_frame_header(queue, &grant) {
                Some(n) => n,
                None => {
                    let _ = queue.release(grant, 0);
                    assert(queue@.bytes =~= old(queue)@.bytes);
                    return PlayAction::Wait;
                },
            };
            if length > grant.len() - HEADER_LEN {
                let _ = queue.release(grant, 0);
                assert(queue@.bytes =~= old(queue)@.bytes);
                return PlayAction::Wait;
            }
            if length / 2 == 0 {
                let _ = release_frame(queue, grant, length);
                return PlayAction::FrameDone;
            }
            let lo = queue.peek_byte(&grant, HEADER_LEN).unwrap();
            let hi = queue.peek_byte(&grant, HEADER_LEN + 1).unwrap();
            let p = pulse_for_sample(decode_i16_le(lo, hi));
            player.active = true;
            player.playing = Some(Playing { grant, length, next: 1 });
            PlayAction::Pulse(p)
        },
    }
}

} // verus!
