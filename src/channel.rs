//! Mutation inboxes: bounded multi-producer channels of updates, and the handle that
//! producers use to send into one.

use vstd::prelude::*;
use crossbeam_channel::{Receiver, Sender};
use std::time::Duration;
use crate::identity::{DatasetError, DatasetKind};
use crate::model::{Update, update_fits, update_fits_kind};

verus! {

#[verifier::external_type_specification]
#[verifier::external_body]
#[verifier::reject_recursive_types(T)]
pub struct ExSender<T>(crossbeam_channel::Sender<T>);

#[verifier::external_type_specification]
#[verifier::external_body]
#[verifier::reject_recursive_types(T)]
pub struct ExReceiver<T>(crossbeam_channel::Receiver<T>);

/// Why a channel operation did not move a message.
#[derive(PartialEq, Eq, Structural, Clone, Copy, Debug)]
pub enum ChannelFault {
    /// Nothing was waiting to be received.
    Empty,
    /// The channel stayed full for the whole timeout.
    Timeout,
    /// The other side of the channel is gone.
    Disconnected,
}

/// Relies on crossbeam_channel::bounded: a channel holding at most `cap` messages.
#[verifier::external_body]
pub(crate) fn bounded_channel(cap: usize) -> (r: (Sender<Update>, Receiver<Update>)) {
    crossbeam_channel::bounded(cap)
}

/// Relies on crossbeam_channel's `Sender::clone`: another handle on the same channel.
#[verifier::external_body]
pub(crate) fn clone_sender(s: &Sender<Update>) -> (r: Sender<Update>) {
    s.clone()
}

/// Relies on crossbeam_channel's `Receiver::try_recv`: takes the oldest waiting message
/// without blocking; fails with `Empty` or `Disconnected`.
#[verifier::external_body]
pub(crate) fn try_receive(r: &Receiver<Update>) -> (res: Result<Update, ChannelFault>)
    ensures
        res matches Err(f) ==> f == ChannelFault::Empty || f == ChannelFault::Disconnected,
{
    match r.try_recv() {
        Ok(u) => Ok(u),
        Err(crossbeam_channel::TryRecvError::Empty) => Err(ChannelFault::Empty),
        Err(crossbeam_channel::TryRecvError::Disconnected) => Err(ChannelFault::Disconnected),
    }
}

/// Relies on crossbeam_channel's `Sender::send_timeout`: waits up to `millis` ms for
/// room; fails with `Timeout` or `Disconnected`.
#[verifier::external_body]
fn send_within(s: &Sender<Update>, u: Update, millis: u64) -> (res: Result<(), ChannelFault>)
    ensures
        res matches Err(f) ==> f == ChannelFault::Timeout || f == ChannelFault::Disconnected,
{
    match s.send_timeout(u, Duration::from_millis(millis)) {
        Ok(()) => Ok(()),
        Err(crossbeam_channel::SendTimeoutError::Timeout(_)) => Err(ChannelFault::Timeout),
        Err(crossbeam_channel::SendTimeoutError::Disconnected(_)) => Err(ChannelFault::Disconnected),
    }
}

/// The error that a failed send reports: a full inbox is backpressure.
pub open spec fn send_error(f: ChannelFault) -> DatasetError {
    if f == ChannelFault::Timeout {
        DatasetError::Backpressure
    } else {
        DatasetError::ChannelClosed
    }
}

/// A producer's handle on one dataset's inbox.
pub struct DatasetSender {
    kind: DatasetKind,
    sender: Sender<Update>,
}

impl DatasetSender {
    /// The kind of the dataset this handle sends to.
    pub closed spec fn spec_kind(&self) -> DatasetKind {
        self.kind
    }

    pub(crate) fn new(kind: DatasetKind, sender: Sender<Update>) -> (r: DatasetSender)
        ensures
            r.spec_kind() == kind,
    {
        DatasetSender { kind, sender }
    }

    /// The kind of the dataset this handle sends to.
    pub fn kind(&self) -> (r: DatasetKind)
        ensures
            r == self.spec_kind(),
    {
        self.kind
    }

    /// Another handle on the same inbox.
    pub fn duplicate(&self) -> (r: DatasetSender)
        ensures
            r.spec_kind() == self.spec_kind(),
    {
        DatasetSender { kind: self.kind, sender: clone_sender(&self.sender) }
    }

    /// Whether `u` has the shape of this dataset's kind, as `send` requires.
    pub fn accepts(&self, u: &Update) -> (r: bool)
        ensures
            r == update_fits(self.spec_kind(), *u),
    {
        update_fits_kind(self.kind, u)
    }

    /// Queues `u`, waiting at most `timeout_millis` ms for room. A full inbox yields
    /// `Backpressure` (the update is not queued and may be sent again); an inbox whose
    /// manager is gone yields `ChannelClosed`.
    pub fn send(&self, u: Update, timeout_millis: u64) -> (r: Result<(), DatasetError>)
        requires
            update_fits(self.spec_kind(), u),
        ensures
            r matches Err(e) ==> e == DatasetError::Backpressure || e
                == DatasetError::ChannelClosed,
    {
        match send_within(&self.sender, u, timeout_millis) {
            Ok(()) => Ok(()),
            Err(f) => Err(send_error_of(f)),
        }
    }
}

/// The error that a failed send reports.
pub fn send_error_of(f: ChannelFault) -> (r: DatasetError)
    ensures
        r == send_error(f),
{
    match f {
        ChannelFault::Timeout => DatasetError::Backpressure,
        _ => DatasetError::ChannelClosed,
    }
}

} // verus!
