//! The two channels of a job, as tokio provides them: a watch channel that
//! carries the cancellation signal and a bounded queue that carries edits.
//! Nothing here is proved; the contracts state what tokio documents.

use crate::job::TaskEditType;
use tokio::sync::{mpsc, watch};
use vstd::prelude::*;

verus! {

/// `tokio::sync::watch::Sender`, carried as an opaque value.
#[verifier::external_type_specification]
#[verifier::external_body]
#[verifier::reject_recursive_types(T)]
pub struct ExWatchSender<T>(watch::Sender<T>);

/// `tokio::sync::watch::Receiver`, carried as an opaque value.
#[verifier::external_type_specification]
#[verifier::external_body]
#[verifier::reject_recursive_types(T)]
pub struct ExWatchReceiver<T>(watch::Receiver<T>);

/// `tokio::sync::mpsc::Sender`, carried as an opaque value.
#[verifier::external_type_specification]
#[verifier::external_body]
#[verifier::reject_recursive_types(T)]
pub struct ExQueueSender<T>(mpsc::Sender<T>);

/// `tokio::sync::mpsc::Receiver`, carried as an opaque value.
#[verifier::external_type_specification]
#[verifier::external_body]
#[verifier::reject_recursive_types(T)]
pub struct ExQueueReceiver<T>(mpsc::Receiver<T>);

/// How many edits the queue behind `queue` buffers at most: what tokio's
/// `Sender::max_capacity` returns. It is the capacity that the queue was
/// made with and stays the same for as long as the queue lives, whatever is
/// sent and received.
pub uninterp spec fn queue_limit(queue: mpsc::Sender<TaskEditType>) -> nat;

/// `tokio::sync::watch::channel`: a fresh watch channel holding `init`.
/// Nothing is claimed of the two ends.
#[verifier::external_body]
pub(crate) fn watch_channel(init: u8) -> (ends: (watch::Sender<u8>, watch::Receiver<u8>)) {
    watch::channel(init)
}

/// `tokio::sync::mpsc::channel`: a fresh queue for edits that buffers up to
/// `buffer` of them. tokio panics on a capacity of zero or above an eighth
/// of `usize::MAX`, so those are excluded. The queue's limit is the
/// capacity asked for; nothing else is claimed of the two ends.
#[verifier::external_body]
pub(crate) fn edit_queue(buffer: usize) -> (ends: (
    mpsc::Sender<TaskEditType>,
    mpsc::Receiver<TaskEditType>,
))
    requires
        0 < buffer <= usize::MAX / 8,
    ensures
        queue_limit(ends.0) == buffer,
{
    mpsc::channel(buffer)
}

/// `tokio::sync::watch::Sender::send`: offers `value` to the receivers and
/// tells whether the channel took it. It does not when every receiver is
/// gone, which depends on the other side, so nothing is claimed of the answer.
#[verifier::external_body]
pub(crate) fn watch_send(tx: &watch::Sender<u8>, value: u8) -> (taken: bool) {
    tx.send(value).is_ok()
}

} // verus!
