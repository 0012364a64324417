//! Coalescing wake-up channel for a blocking loop.

use vstd::prelude::*;

verus! {

/// `std::sync::mpsc::SyncSender`, one end of a bounded channel.
#[verifier::external_type_specification]
#[verifier::external_body]
#[verifier::reject_recursive_types(T)]
pub struct ExSyncSender<T>(std::sync::mpsc::SyncSender<T>);

/// `std::sync::mpsc::Receiver`, the other end of a channel.
#[verifier::external_type_specification]
#[verifier::external_body]
#[verifier::reject_recursive_types(T)]
pub struct ExReceiver<T>(std::sync::mpsc::Receiver<T>);

/// `std::sync::mpsc::sync_channel` with room for one message. Nothing is said of the two ends:
/// what a channel holds is shared by its ends and seen only when it is received.
#[verifier::external_body]
fn one_place_channel() -> (ends: (
    std::sync::mpsc::SyncSender<()>,
    std::sync::mpsc::Receiver<()>,
)) {
    std::sync::mpsc::sync_channel(1)
}

/// `SyncSender::try_send`: sends without waiting. Nothing is said of the result: whether there was
/// room depends on the other end.
#[verifier::external_body]
fn send_if_room(sender: &std::sync::mpsc::SyncSender<()>) -> (sent: bool) {
    sender.try_send(()).is_ok()
}

/// `Clone` of `SyncSender`: another handle on the same channel. Nothing is said of the handle.
#[verifier::external_body]
fn another_sender(sender: &std::sync::mpsc::SyncSender<()>) -> (copy: std::sync::mpsc::SyncSender<
    (),
>) {
    sender.clone()
}

/// Cloneable, non-blocking notification handle.
///
/// The channel has capacity one, so bursts coalesce without allowing an unbounded queue or
/// blocking a worker.
pub struct WakeHandle {
    sender: Option<std::sync::mpsc::SyncSender<()>>,
}

impl Clone for WakeHandle {
    fn clone(&self) -> (r: Self)
        ensures
            r.enabled() == self.enabled(),
    {
        match &self.sender {
            Some(sender) => WakeHandle { sender: Some(another_sender(sender)) },
            None => WakeHandle { sender: None },
        }
    }
}

impl Default for WakeHandle {
    fn default() -> (r: Self)
        ensures
            !r.enabled(),
    {
        WakeHandle { sender: None }
    }
}

impl WakeHandle {
    /// There is a loop to be woken.
    pub closed spec fn enabled(self) -> bool {
        self.sender is Some
    }

    pub fn disabled() -> (r: Self)
        ensures
            !r.enabled(),
    {
        WakeHandle { sender: None }
    }

    /// Wakes the loop, unless it is to be woken already.
    pub fn notify(&self) {
        match &self.sender {
            Some(sender) => {
                let _sent = send_if_room(sender);
            },
            None => {},
        }
    }
}

/// Creates a capacity-one wake channel.
pub fn wake_channel() -> (r: (WakeHandle, std::sync::mpsc::Receiver<()>))
    ensures
        r.0.enabled(),
{
    let (sender, receiver) = one_place_channel();
    (WakeHandle { sender: Some(sender) }, receiver)
}

} // verus!
