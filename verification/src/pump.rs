//! Stream pump: turns relay frames into a continuous
//! transport-stream byte feed.
//!
//! Before any real data, the pump primes the downstream player
//! with three synthetic null packets, and keeps emitting one
//! whenever two seconds pass without a chunk. A frame is forwarded
//! as-is when it is a video frame whose payload opens with the
//! transport-stream sync byte; after the first such frame no
//! padding is ever emitted again. A session that never sees real
//! data within the start window times out; any stop trips the
//! session's cancellation signal.

use vstd::prelude::*;

use crate::cancel::CancelFlag;
use crate::codec::FRAME_TYPE_VIDEO;
use crate::errors::LiveError;

verus! {

/// Length of a transport-stream packet, in bytes.
pub const NULL_PACKET_LEN: usize = 188;

/// The transport-stream sync byte.
pub const TS_SYNC_BYTE: u8 = 0x47;

/// How many null packets are sent before anything else.
pub const PRE_ROLL_PADDING: usize = 3;

/// Seconds without a chunk before another null packet is emitted,
/// while no real data has started.
pub const PADDING_GAP_SECONDS: u64 = 2;

/// Seconds the pump waits for one frame before giving up the read.
pub const READ_TIMEOUT_SECONDS: u64 = 20;

/// Seconds without any real data before the whole stream start
/// times out.
pub const START_TIMEOUT_SECONDS: u64 = 35;

/// Capacity of the outbound chunk channel; the backpressure point
/// for a slow consumer.
pub const OUTBOUND_CHANNEL_CAPACITY: usize = 100;

/// Bytes of one transport-stream null packet: the sync byte, the
/// null-packet identifier, and stuffing.
pub open spec fn null_packet_bytes() -> Seq<u8> {
    seq![0x47u8, 0x1Fu8, 0xFFu8, 0x10u8] + Seq::new(184, |i: int| 0xFFu8)
}

/// Builds one null packet.
pub fn null_packet() -> (r: Vec<u8>)
    ensures
        r@ == null_packet_bytes(),
        r@.len() == NULL_PACKET_LEN,
{
    let mut out: Vec<u8> = vec![0x47u8, 0x1Fu8, 0xFFu8, 0x10u8];
    let ghost head = out@;
    let mut i: usize = 0;
    while i < 184
        invariant
            i <= 184,
            out@ =~= head + Seq::new(i as nat, |k: int| 0xFFu8),
        decreases 184 - i,
    {
        out.push(0xFF);
        assert(out@ =~= head + Seq::new((i + 1) as nat, |k: int| 0xFFu8));
        i = i + 1;
    }
    assert(out@ =~= null_packet_bytes());
    out
}

/// The three null packets that precede everything else in a
/// session.
pub fn initial_padding() -> (r: Vec<Vec<u8>>)
    ensures
        r@.len() == PRE_ROLL_PADDING,
        forall|i: int| 0 <= i < r@.len() ==> #[trigger] r@[i]@ == null_packet_bytes(),
{
    let mut out: Vec<Vec<u8>> = Vec::new();
    out.push(null_packet());
    out.push(null_packet());
    out.push(null_packet());
    out
}

/// A frame that carries real video: the video type tag and a
/// payload opening with the sync byte.
pub open spec fn is_video_payload(tag: u8, payload: Seq<u8>) -> bool {
    tag == FRAME_TYPE_VIDEO && payload.len() > 0 && payload[0] == TS_SYNC_BYTE
}

/// Pump state: whether real data has started, when the session
/// started, and when the last chunk went out.
pub struct Pump {
    pub started: bool,
    pub started_at: u64,
    pub last_chunk_at: u64,
}

/// What one frame asks the driver to do.
pub enum PumpAction {
    /// Forward this payload downstream; real data has started.
    ForwardVideo { payload: Vec<u8> },
    /// Emit one null packet to keep the consumer fed.
    EmitPadding,
    /// Nothing to emit for this frame.
    Idle,
}

/// Spec mirror of a step's effect.
pub enum PumpStepKind {
    Forward,
    Padding,
    Idle,
}

/// State after absorbing one frame: a video payload starts the
/// stream and stamps the chunk clock; a quiet gap while unstarted
/// stamps the chunk clock for its padding; anything else changes
/// nothing.
pub open spec fn pump_step_state(st: Pump, tag: u8, payload: Seq<u8>, now: u64) -> Pump {
    if is_video_payload(tag, payload) {
        Pump { started: true, started_at: st.started_at, last_chunk_at: now }
    } else if !st.started && now - st.last_chunk_at >= PADDING_GAP_SECONDS {
        Pump { started: st.started, started_at: st.started_at, last_chunk_at: now }
    } else {
        st
    }
}

/// What one frame makes the pump do.
pub open spec fn pump_step_kind(st: Pump, tag: u8, payload: Seq<u8>, now: u64) -> PumpStepKind {
    if is_video_payload(tag, payload) {
        PumpStepKind::Forward
    } else if !st.started && now - st.last_chunk_at >= PADDING_GAP_SECONDS {
        PumpStepKind::Padding
    } else {
        PumpStepKind::Idle
    }
}

impl Pump {
    /// A fresh pump for a session starting now.
    pub fn new(now: u64) -> (r: Pump)
        ensures
            r == (Pump { started: false, started_at: now, last_chunk_at: now }),
    {
        Pump { started: false, started_at: now, last_chunk_at: now }
    }

    /// Absorbs one decoded frame at time `now`.
    pub fn on_frame(&mut self, tag: u8, payload: Vec<u8>, now: u64) -> (a: PumpAction)
        requires
            now >= old(self).last_chunk_at,
        ensures
            *final(self) == pump_step_state(*old(self), tag, payload@, now),
            match a {
                PumpAction::ForwardVideo { payload: p } => p == payload && pump_step_kind(
                    *old(self),
                    tag,
                    payload@,
                    now,
                ) is Forward,
                PumpAction::EmitPadding => pump_step_kind(*old(self), tag, payload@, now)
                    is Padding,
                PumpAction::Idle => pump_step_kind(*old(self), tag, payload@, now) is Idle,
            },
    {
        let video = tag == FRAME_TYPE_VIDEO && payload.len() > 0 && *vstd::slice::slice_index_get(
            payload.as_slice(),
            0,
        ) == TS_SYNC_BYTE;
        if video {
            self.started = true;
            self.last_chunk_at = now;
            PumpAction::ForwardVideo { payload }
        } else if !self.started && now - self.last_chunk_at >= PADDING_GAP_SECONDS {
            self.last_chunk_at = now;
            PumpAction::EmitPadding
        } else {
            PumpAction::Idle
        }
    }

    /// The stream never started and the start window has elapsed.
    pub fn start_timed_out(&self, now: u64) -> (r: bool)
        requires
            now >= self.started_at,
        ensures
            r == (!self.started && now - self.started_at >= START_TIMEOUT_SECONDS),
    {
        !self.started && now - self.started_at >= START_TIMEOUT_SECONDS
    }
}

/// Law: a started pump stays started, and a started pump never
/// emits padding again, whatever frames follow.
pub proof fn lemma_no_padding_once_started(st: Pump, tag: u8, payload: Seq<u8>, now: u64)
    requires
        st.started,
    ensures
        pump_step_state(st, tag, payload, now).started,
        !(pump_step_kind(st, tag, payload, now) is Padding),
{
}

/// Law: only a video payload starts the stream.
pub proof fn lemma_started_only_by_video(st: Pump, tag: u8, payload: Seq<u8>, now: u64)
    requires
        !st.started,
        !is_video_payload(tag, payload),
    ensures
        !pump_step_state(st, tag, payload, now).started,
{
}

/// States a pump can pass through over a run of frames.
pub open spec fn pump_states(st: Pump, frames: Seq<(u8, Seq<u8>, u64)>) -> Seq<Pump>
    decreases frames.len(),
{
    if frames.len() == 0 {
        seq![st]
    } else {
        let next = pump_step_state(st, frames.first().0, frames.first().1, frames.first().2);
        seq![st] + pump_states(next, frames.drop_first())
    }
}

/// The step effects of a run of frames.
pub open spec fn pump_kinds(st: Pump, frames: Seq<(u8, Seq<u8>, u64)>) -> Seq<PumpStepKind>
    decreases frames.len(),
{
    if frames.len() == 0 {
        Seq::empty()
    } else {
        let next = pump_step_state(st, frames.first().0, frames.first().1, frames.first().2);
        seq![pump_step_kind(st, frames.first().0, frames.first().1, frames.first().2)]
            + pump_kinds(next, frames.drop_first())
    }
}

/// A run sees as many step effects as frames.
pub proof fn lemma_pump_kinds_len(st: Pump, frames: Seq<(u8, Seq<u8>, u64)>)
    ensures
        pump_kinds(st, frames).len() == frames.len(),
    decreases frames.len(),
{
    if frames.len() > 0 {
        let next = pump_step_state(st, frames.first().0, frames.first().1, frames.first().2);
        lemma_pump_kinds_len(next, frames.drop_first());
    }
}

/// Law: once a video payload has been forwarded, no padding is
/// emitted for the remainder of the run, regardless of subsequent
/// gaps.
pub proof fn lemma_no_padding_after_forward(
    st: Pump,
    frames: Seq<(u8, Seq<u8>, u64)>,
    i: int,
    j: int,
)
    requires
        0 <= i < j < frames.len(),
        pump_kinds(st, frames)[i] is Forward,
    ensures
        !(pump_kinds(st, frames)[j] is Padding),
    decreases frames.len(),
{
    let next = pump_step_state(st, frames.first().0, frames.first().1, frames.first().2);
    let rest = frames.drop_first();
    lemma_pump_kinds_len(next, rest);
    assert(pump_kinds(st, frames) == seq![
        pump_step_kind(st, frames.first().0, frames.first().1, frames.first().2),
    ] + pump_kinds(next, rest));
    assert(pump_kinds(st, frames)[j] == pump_kinds(next, rest)[j - 1]);
    if i == 0 {
        assert(pump_step_kind(st, frames.first().0, frames.first().1, frames.first().2)
            is Forward);
        assert(is_video_payload(frames.first().0, frames.first().1));
        assert(next.started);
        lemma_padding_needs_unstarted(next, rest, j - 1);
    } else {
        assert(pump_kinds(st, frames)[i] == pump_kinds(next, rest)[i - 1]);
        lemma_no_padding_after_forward(next, rest, i - 1, j - 1);
    }
}

/// Helper law: from a started state, no step of a run is a padding
/// step.
proof fn lemma_padding_needs_unstarted(st: Pump, frames: Seq<(u8, Seq<u8>, u64)>, j: int)
    requires
        st.started,
        0 <= j < frames.len(),
    ensures
        !(pump_kinds(st, frames)[j] is Padding),
    decreases frames.len(),
{
    let next = pump_step_state(st, frames.first().0, frames.first().1, frames.first().2);
    let rest = frames.drop_first();
    lemma_pump_kinds_len(next, rest);
    assert(pump_kinds(st, frames) == seq![
        pump_step_kind(st, frames.first().0, frames.first().1, frames.first().2),
    ] + pump_kinds(next, rest));
    assert(next.started);
    if j > 0 {
        assert(pump_kinds(st, frames)[j] == pump_kinds(next, rest)[j - 1]);
        lemma_padding_needs_unstarted(next, rest, j - 1);
    }
}

/// Why the pump stopped.
pub enum PumpStop {
    /// The read window passed without a frame.
    ReadTimeout,
    /// Reading or decoding failed with this error.
    Failed { error: LiveError },
    /// No real data within the start window.
    StartTimeout,
    /// The consumer hung up; silent.
    ConsumerGone,
    /// The session's cancellation signal was observed tripped.
    Cancelled,
}

/// The session error a stop stands for, if any.
pub fn stop_error(s: &PumpStop) -> (e: Option<LiveError>)
    ensures
        match s {
            PumpStop::Failed { error } => e == Some(*error),
            PumpStop::StartTimeout => e == Some(LiveError::StreamStartTimeout),
            _ => e is None,
        },
{
    match s {
        PumpStop::Failed { error } => Some(*error),
        PumpStop::StartTimeout => Some(LiveError::StreamStartTimeout),
        _ => None,
    }
}

/// One thing the read loop can observe, stamped with the session
/// clock in seconds.
pub enum PumpEvent {
    /// A decoded frame arrived.
    Frame { tag: u8, payload: Vec<u8>, now: u64 },
    /// No frame within the read window.
    ReadTimeout { now: u64 },
    /// The read or the decode failed.
    ReadError { error: LiveError, now: u64 },
    /// The cancellation signal was seen tripped.
    Cancelled { now: u64 },
}

/// A pump for a session starting at `start`, before any event.
pub open spec fn initial_pump(start: u64) -> Pump {
    Pump { started: false, started_at: start, last_chunk_at: start }
}

/// The byte strings of a list of chunks.
pub open spec fn chunk_views(v: Seq<Vec<u8>>) -> Seq<Seq<u8>> {
    Seq::new(v.len(), |i: int| v[i]@)
}

/// The three pre-roll null packets, as byte strings.
pub open spec fn pre_roll_chunks() -> Seq<Seq<u8>> {
    Seq::new(PRE_ROLL_PADDING as nat, |i: int| null_packet_bytes())
}

/// Why a run over a script of events stops: the first non-frame
/// event decides its own stop; a frame that leaves the stream
/// unstarted past the start window decides the start timeout; a
/// consumed script decides nothing.
pub open spec fn pump_run_stop(st: Pump, events: Seq<PumpEvent>) -> Option<PumpStop>
    decreases events.len(),
{
    if events.len() == 0 {
        None
    } else {
        match events.first() {
            PumpEvent::Frame { tag, payload, now } => {
                let st2 = pump_step_state(st, tag, payload@, now);
                if !st2.started && now - st2.started_at >= START_TIMEOUT_SECONDS {
                    Some(PumpStop::StartTimeout)
                } else {
                    pump_run_stop(st2, events.drop_first())
                }
            },
            PumpEvent::ReadTimeout { .. } => Some(PumpStop::ReadTimeout),
            PumpEvent::ReadError { error, .. } => Some(PumpStop::Failed { error }),
            PumpEvent::Cancelled { .. } => Some(PumpStop::Cancelled),
        }
    }
}

/// The chunks a run emits beyond the pre-roll: each forwarded
/// payload verbatim, one null packet per padding step, nothing for
/// an idle frame, ending with the frame that decides the start
/// timeout.
pub open spec fn pump_run_chunks(st: Pump, events: Seq<PumpEvent>) -> Seq<Seq<u8>>
    decreases events.len(),
{
    if events.len() == 0 {
        Seq::empty()
    } else {
        match events.first() {
            PumpEvent::Frame { tag, payload, now } => {
                let here = match pump_step_kind(st, tag, payload@, now) {
                    PumpStepKind::Forward => seq![payload@],
                    PumpStepKind::Padding => seq![null_packet_bytes()],
                    PumpStepKind::Idle => Seq::<Seq<u8>>::empty(),
                };
                let st2 = pump_step_state(st, tag, payload@, now);
                if !st2.started && now - st2.started_at >= START_TIMEOUT_SECONDS {
                    here
                } else {
                    here + pump_run_chunks(st2, events.drop_first())
                }
            },
            _ => Seq::empty(),
        }
    }
}

/// When an event happened.
pub open spec fn event_time(e: PumpEvent) -> u64 {
    match e {
        PumpEvent::Frame { now, .. } => now,
        PumpEvent::ReadTimeout { now } => now,
        PumpEvent::ReadError { now, .. } => now,
        PumpEvent::Cancelled { now } => now,
    }
}

/// The event is a frame carrying real video.
pub open spec fn is_video_event(e: PumpEvent) -> bool {
    match e {
        PumpEvent::Frame { tag, payload, .. } => is_video_payload(tag, payload@),
        _ => false,
    }
}

/// The event is a frame without real video: the kind of traffic a
/// session sees while the camera has not started sending.
pub open spec fn is_quiet_frame(e: PumpEvent) -> bool {
    e matches PumpEvent::Frame { .. } && !is_video_event(e)
}

/// Runs a whole pump session against a script of events, consuming
/// them in order until a stop is decided or the script ends.
///
/// The contract fixes the whole run for every script: the chunks
/// out are exactly the three pre-roll null packets followed by
/// what [`pump_run_chunks`] dictates — each forwarded payload
/// verbatim, one null packet per padding step — and the stop is
/// exactly what [`pump_run_stop`] dictates. On top of that exact
/// description it restates three session laws: the first three
/// chunks are always the pre-roll null packets, emitted before any
/// event is consumed; the cancellation signal is tripped by the
/// time the run returns, whatever happened; and a script of
/// nothing but video-less frames that runs past the start window
/// stops with the start timeout.
#[verifier::loop_isolation(false)]
pub fn run_pump(events: &mut Vec<PumpEvent>, start: u64, flag: &mut CancelFlag) -> (r: (
    Vec<Vec<u8>>,
    Option<PumpStop>,
))
    requires
        forall|i: int| 0 <= i < old(events)@.len() ==> event_time(#[trigger] old(events)@[i])
            >= start,
        forall|i: int, j: int| 0 <= i <= j < old(events)@.len() ==> event_time(old(events)@[i])
            <= event_time(old(events)@[j]),
    ensures
        chunk_views(r.0@) == pre_roll_chunks() + pump_run_chunks(initial_pump(start), old(events)@),
        r.1 == pump_run_stop(initial_pump(start), old(events)@),
        r.0@.len() >= PRE_ROLL_PADDING,
        forall|i: int| 0 <= i < PRE_ROLL_PADDING ==> #[trigger] r.0@[i]@ == null_packet_bytes(),
        final(flag).tripped,
        (forall|i: int| 0 <= i < old(events)@.len() ==> is_quiet_frame(#[trigger] old(events)@[i]))
            && old(events)@.len() > 0 && event_time(old(events)@.last()) >= start
            + START_TIMEOUT_SECONDS ==> r.1 == Some(PumpStop::StartTimeout),
        r.1 is None ==> final(events)@.len() == 0,
{
    let ghost script = old(events)@;
    let mut emitted: Vec<Vec<u8>> = initial_padding();
    let mut pump = Pump::new(start);
    let ghost mut done: int = 0;
    let stop: Option<PumpStop>;
    proof {
        assert(chunk_views(emitted@) =~= pre_roll_chunks());
    }
    loop
        invariant
            0 <= done <= script.len(),
            events@ == script.skip(done),
            emitted@.len() >= PRE_ROLL_PADDING,
            forall|i: int| 0 <= i < PRE_ROLL_PADDING ==> #[trigger] emitted@[i]@
                == null_packet_bytes(),
            pump.started_at == start,
            pump.last_chunk_at >= start,
            done < script.len() ==> pump.last_chunk_at <= event_time(script[done]),
            chunk_views(emitted@) + pump_run_chunks(pump, events@) == pre_roll_chunks()
                + pump_run_chunks(initial_pump(start), script),
            pump_run_stop(pump, events@) == pump_run_stop(initial_pump(start), script),
            (forall|i: int| 0 <= i < done ==> !is_video_event(#[trigger] script[i]))
                ==> !pump.started,
            (forall|i: int| 0 <= i < done ==> is_quiet_frame(#[trigger] script[i])) ==> (forall|
                k: int| 0 <= k < done ==> event_time(#[trigger] script[k]) < start
                + START_TIMEOUT_SECONDS),
        decreases events@.len(),
    {
        if events.len() == 0 {
            stop = None;
            break;
        }
        let ghost prev_pump = pump;
        let ghost prev_events = events@;
        let ev = events.remove(0);
        let ghost current = ev;
        proof {
            assert(script.skip(done)[0] == script[done]);
            assert(script.skip(done).remove(0) =~= script.skip(done + 1));
            assert(current == script[done]);
            assert(prev_events.drop_first() =~= events@);
            assert(prev_events.first() == current);
        }
        match ev {
            PumpEvent::Frame { tag, payload, now } => {
                let ghost pv = payload;
                let action = pump.on_frame(tag, payload, now);
                proof {
                    assert(current == (PumpEvent::Frame { tag, payload: pv, now }));
                    assert(pump == pump_step_state(prev_pump, tag, pv@, now));
                }
                let ghost emitted_before = emitted@;
                let ghost here = (match pump_step_kind(prev_pump, tag, pv@, now) {
                    PumpStepKind::Forward => seq![pv@],
                    PumpStepKind::Padding => seq![null_packet_bytes()],
                    PumpStepKind::Idle => Seq::<Seq<u8>>::empty(),
                });
                match action {
                    PumpAction::ForwardVideo { payload } => {
                        let ghost fwd = payload;
                        emitted.push(payload);
                        proof {
                            assert(fwd == pv);
                            assert(chunk_views(emitted@) =~= chunk_views(emitted_before) + here);
                        }
                    },
                    PumpAction::EmitPadding => {
                        emitted.push(null_packet());
                        proof {
                            assert(chunk_views(emitted@) =~= chunk_views(emitted_before) + here);
                        }
                    },
                    PumpAction::Idle => {
                        proof {
                            assert(chunk_views(emitted@) =~= chunk_views(emitted_before) + here);
                        }
                    },
                }
                proof {
                    assert(pump_run_chunks(prev_pump, prev_events) == (if !pump.started && now
                        - pump.started_at >= START_TIMEOUT_SECONDS {
                        here
                    } else {
                        here + pump_run_chunks(pump, events@)
                    }));
                    assert(pump_run_stop(prev_pump, prev_events) == (if !pump.started && now
                        - pump.started_at >= START_TIMEOUT_SECONDS {
                        Some(PumpStop::StartTimeout)
                    } else {
                        pump_run_stop(pump, events@)
                    }));
                }
                if pump.start_timed_out(now) {
                    proof {
                        done = done + 1;
                    }
                    stop = Some(PumpStop::StartTimeout);
                    break;
                }
            },
            PumpEvent::ReadTimeout { now: _ } => {
                proof {
                    done = done + 1;
                }
                stop = Some(PumpStop::ReadTimeout);
                break;
            },
            PumpEvent::ReadError { error, now: _ } => {
                proof {
                    done = done + 1;
                }
                stop = Some(PumpStop::Failed { error });
                break;
            },
            PumpEvent::Cancelled { now: _ } => {
                proof {
                    done = done + 1;
                }
                stop = Some(PumpStop::Cancelled);
                break;
            },
        }
        proof {
            done = done + 1;
            if done < script.len() {
                assert(event_time(script[done - 1]) <= event_time(script[done]));
            }
        }
    }
    flag.trip();
    (emitted, stop)
}

} // verus!
