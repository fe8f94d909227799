use vstd::prelude::*;

verus! {

/// crossbeam's sending endpoint, declared so that the delivery path can
/// hold and hand it around; its behaviour enters only through the wrappers
/// below.
#[verifier::external_type_specification]
#[verifier::external_body]
#[verifier::reject_recursive_types(T)]
pub struct ExSender<T>(crossbeam_channel::Sender<T>);

/// crossbeam's receiving endpoint, declared like the sender.
#[verifier::external_type_specification]
#[verifier::external_body]
#[verifier::reject_recursive_types(T)]
pub struct ExReceiver<T>(crossbeam_channel::Receiver<T>);

/// What became of an attempt to hand a frame to the delivery worker.
#[derive(Clone, Copy, Debug, PartialEq, Eq, Structural)]
pub enum PushOutcome {
    /// The frame was enqueued within the timeout.
    Enqueued,
    /// The channel stayed full past the timeout; the frame was dropped.
    DroppedFull,
    /// The worker's end of the channel is gone; the frame was dropped.
    Disconnected,
}

/// Relies on crossbeam_channel::bounded: a FIFO channel that holds at most
/// `cap` messages. `bounded` panics only when a slot array of that size
/// cannot be set up, so the capacity is kept small here.
#[verifier::external_body]
pub(crate) fn channel_bounded(cap: usize) -> (r: (
    crossbeam_channel::Sender<String>,
    crossbeam_channel::Receiver<String>,
))
    requires
        1 <= cap <= 0x100_0000,
{
    crossbeam_channel::bounded(cap)
}

/// Relies on crossbeam_channel::Sender::send_timeout: Ok exactly when the
/// message was enqueued; a Timeout error when no slot freed up within the
/// timeout; a Disconnected error when every receiver is gone. Whether a
/// slot frees up depends on the worker on the other side, so nothing more
/// can be promised of the outcome.
#[verifier::external_body]
pub(crate) fn send_with_timeout(
    s: &crossbeam_channel::Sender<String>,
    msg: String,
    timeout_ms: u64,
) -> (r: PushOutcome) {
    match s.send_timeout(msg, std::time::Duration::from_millis(timeout_ms)) {
        Ok(()) => PushOutcome::Enqueued,
        Err(crossbeam_channel::SendTimeoutError::Timeout(_)) => PushOutcome::DroppedFull,
        Err(crossbeam_channel::SendTimeoutError::Disconnected(_)) => PushOutcome::Disconnected,
    }
}

/// Relies on crossbeam_channel::Receiver::recv: blocks until a message
/// arrives (Some, messages in FIFO order) or the channel is empty with
/// every sender gone (None).
#[verifier::external_body]
pub(crate) fn recv_message(r: &crossbeam_channel::Receiver<String>) -> (m: Option<String>) {
    r.recv().ok()
}

} // verus!
