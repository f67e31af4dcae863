//! The chat window's link to the server: outgoing messages go to a worker
//! that owns the connection, and the worker's replies come back to be polled.
use vstd::prelude::*;

use std::sync::mpsc::{Receiver, Sender};

verus! {

#[verifier::external_type_specification]
#[verifier::external_body]
#[verifier::reject_recursive_types(T)]
pub struct ExSender<T>(Sender<T>);

#[verifier::external_type_specification]
#[verifier::external_body]
#[verifier::reject_recursive_types(T)]
pub struct ExReceiver<T>(Receiver<T>);

/// Relies on `std::sync::mpsc::channel`: a new channel's two ends.
#[verifier::external_body]
fn string_channel() -> (Sender<String>, Receiver<String>) {
    std::sync::mpsc::channel()
}

/// Relies on `Sender::send`: queues the message unless the receiving end is
/// gone; whether it was queued is returned.
#[verifier::external_body]
fn send_on(sender: &Sender<String>, message: String) -> bool {
    sender.send(message).is_ok()
}

/// Relies on `Receiver::try_recv`: a queued message if there is one, without
/// waiting.
#[verifier::external_body]
fn try_recv_on(receiver: &Receiver<String>) -> Option<String> {
    receiver.try_recv().ok()
}

/// The ends the connection worker holds: the messages to send, and where to
/// put the server's replies.
pub struct ConnectionWorker {
    pub outgoing: Receiver<String>,
    pub responses: Sender<String>,
}

/// The window's ends of the two channels.
pub struct WindowConnection {
    sender: Sender<String>,
    receiver: Receiver<String>,
}

impl WindowConnection {
    /// Makes the two channels; the window keeps one end of each and the
    /// worker that owns the connection takes the others.
    pub fn new() -> (WindowConnection, ConnectionWorker) {
        let (tx, rx) = string_channel();
        let (response_tx, response_rx) = string_channel();
        (
            WindowConnection { sender: tx, receiver: response_rx },
            ConnectionWorker { outgoing: rx, responses: response_tx },
        )
    }

    /// Hands a message to the worker; a message for a worker that is gone is
    /// dropped.
    pub fn send(&self, message: String) {
        let _ = send_on(&self.sender, message);
    }

    /// A reply from the server, if one has come, without waiting.
    pub fn try_receive(&self) -> Option<String> {
        try_recv_on(&self.receiver)
    }
}

} // verus!
