use crate::channel::{channel_bounded, recv_message, send_with_timeout, PushOutcome};
use crate::frame::{
    can_decode, frame_len, frame_payload, next_read_pos, norm_pos, read_frame_text, FrameError,
};
use crate::ring::SharedRegion;
use vstd::prelude::*;

verus! {

/// The delivery side of the transport: the bounded hand-off channel from
/// the hot path to the worker, and the worker's receiving end, which can
/// be claimed exactly once.
pub struct DeliveryHub {
    sender: crossbeam_channel::Sender<String>,
    worker_end: Option<crossbeam_channel::Receiver<String>>,
    started: bool,
}

impl DeliveryHub {
    /// Whether the worker's end has been claimed, i.e. the one worker is
    /// running.
    pub closed spec fn spec_started(self) -> bool {
        self.started
    }

    /// The receiving end is held until the worker claims it, and never
    /// afterwards.
    pub closed spec fn wf(self) -> bool {
        self.started <==> self.worker_end is None
    }

    /// A hub over a fresh bounded channel; no worker started yet.
    pub fn new(channel_capacity: usize) -> (r: Self)
        requires
            1 <= channel_capacity <= 0x100_0000,
        ensures
            r.wf(),
            !r.spec_started(),
    {
        let (sender, receiver) = channel_bounded(channel_capacity);
        DeliveryHub { sender, worker_end: Some(receiver), started: false }
    }

    /// Claim the worker's receiving end. The first claim yields it and
    /// marks the worker started; every later claim yields nothing, so at
    /// most one worker can ever be started from one hub.
    pub fn claim_worker(&mut self) -> (r: Option<crossbeam_channel::Receiver<String>>)
        requires
            old(self).wf(),
        ensures
            final(self).wf(),
            final(self).spec_started(),
            r is Some <==> !old(self).spec_started(),
    {
        let mut taken: Option<crossbeam_channel::Receiver<String>> = None;
        core::mem::swap(&mut taken, &mut self.worker_end);
        self.started = true;
        taken
    }

    /// Hand one frame's text to the worker, waiting at most `timeout_ms`
    /// for a free slot. Whether a slot frees up depends on the worker, so
    /// only the shape of the outcome can be stated: the frame was either
    /// enqueued or dropped, and the caller is never blocked past the
    /// timeout nor made to fail.
    pub fn push_frame(&self, text: String, timeout_ms: u64) -> (r: PushOutcome) {
        send_with_timeout(&self.sender, text, timeout_ms)
    }
}

/// How many claims yield a worker's end when `n` claims reach a hub one
/// after the other, the first finding it in state `started`. Each claim
/// yields exactly when the hub was not yet started, and leaves it started,
/// as `claim_worker` ensures.
pub open spec fn spec_claims_yielded(started: bool, n: nat) -> nat
    decreases n,
{
    if n == 0 {
        0
    } else {
        (if !started {
            1nat
        } else {
            0nat
        }) + spec_claims_yielded(true, (n - 1) as nat)
    }
}

/// The worker is a singleton: however many claims reach the hub, at most
/// one yields a worker's end, and on a fresh hub the first one does.
pub proof fn lemma_worker_singleton(started: bool, n: nat)
    ensures
        spec_claims_yielded(started, n) <= 1,
        started ==> spec_claims_yielded(started, n) == 0,
        !started && n >= 1 ==> spec_claims_yielded(started, n) == 1,
    decreases n,
{
    if n >= 1 {
        lemma_worker_singleton(true, (n - 1) as nat);
    }
}

/// One message from the channel, or the news that it closed.
pub enum WorkerEvent {
    Frame(String),
    Closed,
}

/// What the delivery worker does next: post one frame's text to the sink,
/// or stop.
pub enum WorkerAction {
    Post(String),
    Stop,
}

/// Block for the worker's next event. What arrives depends on the hot
/// path, so only the shape is stated: a frame to deliver or a closed
/// channel.
pub fn next_event(receiver: &crossbeam_channel::Receiver<String>) -> (ev: WorkerEvent) {
    match recv_message(receiver) {
        Some(text) => WorkerEvent::Frame(text),
        None => WorkerEvent::Closed,
    }
}

/// The worker's decision rule: deliver each frame, in arrival order, by a
/// fire-and-forget post; stop only when the channel closes.
pub fn worker_step(ev: WorkerEvent) -> (act: WorkerAction)
    ensures
        ev matches WorkerEvent::Frame(text) ==> act == WorkerAction::Post(text),
        ev is Closed ==> act is Stop,
{
    match ev {
        WorkerEvent::Frame(text) => WorkerAction::Post(text),
        WorkerEvent::Closed => WorkerAction::Stop,
    }
}

/// What one "data available" notification amounted to.
#[derive(Clone, Copy, Debug, PartialEq, Eq, Structural)]
pub enum UpdateOutcome {
    /// The frame was decoded and enqueued for delivery.
    Enqueued,
    /// The frame was decoded but the channel stayed full past the
    /// timeout; the frame was dropped (overflow, non-fatal).
    DroppedFull,
    /// The frame was decoded but the worker side is gone; dropped.
    Disconnected,
    /// The frame could not be decoded; nothing was enqueued.
    Skipped(FrameError),
}

/// One notification from the host: read the one available frame at the
/// read cursor, persist the advanced cursor, and hand the text to the
/// delivery channel without ever failing towards the caller. A framing
/// error leaves the cursor untouched; an ill-encoded payload is consumed
/// and skipped.
pub fn buffer_updated(region: &mut SharedRegion, hub: &DeliveryHub, timeout_ms: u64) -> (r:
    UpdateOutcome)
    requires
        old(region).wf(),
    ensures
        final(region).wf(),
        final(region).spec_capacity() == old(region).spec_capacity(),
        final(region).spec_data() == old(region).spec_data(),
        final(region).spec_write_pos() == old(region).spec_write_pos(),
        ({
            let cap = old(region).spec_capacity();
            let rp = old(region).spec_read_pos();
            let data = old(region).spec_data();
            let nrp = norm_pos(cap, rp);
            let len = frame_len(data, cap, nrp);
            let payload = frame_payload(data, cap, nrp, len);
            match r {
                UpdateOutcome::Skipped(e) => match e {
                    FrameError::CursorOutOfBounds => {
                        &&& rp > cap
                        &&& final(region).spec_read_pos() == rp
                    },
                    FrameError::Oversized => {
                        &&& rp <= cap
                        &&& len + 2 > cap
                        &&& final(region).spec_read_pos() == rp
                    },
                    FrameError::InvalidUtf8 => {
                        &&& can_decode(data, cap, rp)
                        &&& !vstd::utf8::valid_utf8(payload)
                        &&& final(region).spec_read_pos() == next_read_pos(cap, nrp, len)
                    },
                },
                _ => {
                    &&& can_decode(data, cap, rp)
                    &&& vstd::utf8::valid_utf8(payload)
                    &&& final(region).spec_read_pos() == next_read_pos(cap, nrp, len)
                },
            }
        }),
{
    proof {
        region.lemma_wf();
    }
    match read_frame_text(region) {
        Ok(text) => match hub.push_frame(text, timeout_ms) {
            PushOutcome::Enqueued => UpdateOutcome::Enqueued,
            PushOutcome::DroppedFull => UpdateOutcome::DroppedFull,
            PushOutcome::Disconnected => UpdateOutcome::Disconnected,
        },
        Err(e) => UpdateOutcome::Skipped(e),
    }
}

} // verus!
