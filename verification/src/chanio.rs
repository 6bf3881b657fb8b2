//! Trusted boundary to the crossbeam channels that carry jobs in and
//! progress and events out of the worker.

use crate::domain::{Event, Job, Progress};
use vstd::prelude::*;

verus! {

#[verifier::external_type_specification]
#[verifier::external_body]
#[verifier::reject_recursive_types(T)]
pub struct ExSender<T>(crossbeam_channel::Sender<T>);

#[verifier::external_type_specification]
#[verifier::external_body]
#[verifier::reject_recursive_types(T)]
pub struct ExReceiver<T>(crossbeam_channel::Receiver<T>);

/// Relies on `crossbeam_channel::Sender::send`: delivers the message unless
/// every receiver is gone. The progress stream is fire-and-forget, so a
/// failure is dropped here as the caller would drop it.
#[verifier::external_body]
pub(crate) fn send_progress(tx: &crossbeam_channel::Sender<Progress>, p: Progress) {
    let _ = tx.send(p);
}

/// Relies on `crossbeam_channel::Sender::send`: delivers the message, or
/// fails when every receiver is gone; the failure's message text comes back.
#[verifier::external_body]
pub(crate) fn send_event(tx: &crossbeam_channel::Sender<Event>, e: Event) -> (r: Result<
    (),
    String,
>) {
    tx.send(e).map_err(|err| err.to_string())
}

/// Relies on `crossbeam_channel::Receiver::recv`: blocks until a job
/// arrives, and gives `None` once the channel is empty and every sender is
/// gone.
#[verifier::external_body]
pub(crate) fn recv_job(rx: &crossbeam_channel::Receiver<Job>) -> (r: Option<Job>) {
    rx.recv().ok()
}

} // verus!
