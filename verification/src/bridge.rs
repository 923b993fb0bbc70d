//! The bridge between the network connections and the update loop: two
//! bounded queues, commands one way and responses the other, and the
//! decisions of a connection on what it receives.
//!
//! Neither side ever waits for the other.  A full queue drops what is offered
//! to it, and nobody tries again.

use crate::protocol::{WsCommand, WsResponse};
use tokio::sync::mpsc::error::TrySendError;
use tokio::sync::mpsc::{Receiver, Sender};
use vstd::prelude::*;

verus! {

/// How many commands, and how many responses, can wait in their queue.
pub const QUEUE_CAPACITY: usize = 100;

/// The sending end of a bounded `tokio::sync::mpsc` channel.
#[verifier::external_type_specification]
#[verifier::external_body]
#[verifier::reject_recursive_types(T)]
pub struct ExSender<T>(Sender<T>);

/// The receiving end of a bounded `tokio::sync::mpsc` channel.
#[verifier::external_type_specification]
#[verifier::external_body]
#[verifier::reject_recursive_types(T)]
pub struct ExReceiver<T>(Receiver<T>);

/// `Sender::clone`: another handle on the sending end of the same channel.
/// Nothing is claimed of it.
pub assume_specification<T>[ <Sender<T> as Clone>::clone ](sender: &Sender<T>) -> (other: Sender<T>);

/// The number of commands that the channel of `receiver` was made to hold:
/// what `Receiver::max_capacity` returns of it, which stays the same as long
/// as the channel lives.
pub uninterp spec fn command_capacity(receiver: Receiver<WsCommand>) -> nat;

/// The number of responses that the channel of `receiver` was made to hold:
/// what `Receiver::max_capacity` returns of it, which stays the same as long
/// as the channel lives.
pub uninterp spec fn response_capacity(receiver: Receiver<WsResponse>) -> nat;

/// Two new bounded channels, the first for commands and the second for
/// responses, each made to hold up to `capacity` messages.
///
/// Calls `tokio::sync::mpsc::channel` once for each.  It panics on a capacity
/// of zero and on one above an eighth of the address space; the precondition
/// rules both out.  The capacity that it is given is the maximum capacity of
/// the channel that it returns.  Nothing else is claimed of the ends.
#[verifier::external_body]
fn channels(capacity: usize) -> (ends: (
    (Sender<WsCommand>, Receiver<WsCommand>),
    (Sender<WsResponse>, Receiver<WsResponse>),
))
    requires
        0 < capacity <= usize::MAX / 8,
    ensures
        command_capacity(ends.0.1) == capacity,
        response_capacity(ends.1.1) == capacity,
{
    (tokio::sync::mpsc::channel(capacity), tokio::sync::mpsc::channel(capacity))
}

/// Offers `message` to the channel without waiting.
///
/// Calls `Sender::try_send` and tells its three outcomes apart: the message
/// is queued, or the channel is at capacity, or its receiver is gone.  Which
/// of them comes depends on the other end, so nothing is claimed of it.
#[verifier::external_body]
fn try_send<T>(sender: &Sender<T>, message: T) -> (delivery: Delivery) {
    match sender.try_send(message) {
        Ok(()) => Delivery::Sent,
        Err(TrySendError::Full(_)) => Delivery::Full,
        Err(TrySendError::Closed(_)) => Delivery::Closed,
    }
}

/// Takes the oldest command from the channel without waiting for one to
/// arrive, if there is one.
///
/// Calls `Receiver::try_recv`; an empty channel and one whose senders are
/// gone both give none.  What comes depends on the other end, so nothing is
/// claimed of it.  The channel keeps its maximum capacity.
#[verifier::external_body]
fn try_recv(receiver: &mut Receiver<WsCommand>) -> (message: Option<WsCommand>)
    ensures
        command_capacity(*final(receiver)) == command_capacity(*old(receiver)),
{
    receiver.try_recv().ok()
}

/// The number of commands that the channel was made to hold.
///
/// Calls `Receiver::max_capacity`, which returns the capacity that the
/// channel was created with.
#[verifier::external_body]
fn max_capacity(receiver: &Receiver<WsCommand>) -> (limit: usize)
    ensures
        limit == command_capacity(*receiver),
{
    receiver.max_capacity()
}

/// The number of messages that wait in the channel at this moment.
///
/// Calls `Receiver::len`.  Senders may add to the channel at any time, so
/// nothing is claimed of the number.
#[verifier::external_body]
fn queued<T>(receiver: &Receiver<T>) -> (waiting: usize) {
    receiver.len()
}

/// The end of the command queue that the network connections hold.
#[derive(Clone, Debug)]
pub struct CommandSender {
    pub sender: Sender<WsCommand>,
}

/// The ends of the two queues that the update loop holds.
#[derive(Debug)]
pub struct WebSocketChannel {
    pub command_receiver: Receiver<WsCommand>,
    pub response_sender: Sender<WsResponse>,
}

/// Sets up the two queues of the bridge, each made to hold
/// [`QUEUE_CAPACITY`] messages, and returns the command end for the
/// connections, both ends for the update loop, and the end from which
/// responses are read and written to the peer.
pub fn setup_websocket_server() -> (ends: (CommandSender, WebSocketChannel, Receiver<WsResponse>))
    ensures
        command_capacity(ends.1.command_receiver) == QUEUE_CAPACITY,
        response_capacity(ends.2) == QUEUE_CAPACITY,
{
    let ((command_tx, command_rx), (response_tx, response_rx)) = channels(QUEUE_CAPACITY);
    (
        CommandSender { sender: command_tx },
        WebSocketChannel { command_receiver: command_rx, response_sender: response_tx },
        response_rx,
    )
}

impl CommandSender {
    /// Offers a command to the command queue.  The call never waits: a full
    /// queue drops the command.
    pub fn offer(&self, command: WsCommand) -> (delivery: Delivery) {
        try_send(&self.sender, command)
    }
}

impl WebSocketChannel {
    /// Takes the commands that wait in the command queue as the call begins,
    /// oldest first.  The call never waits, and commands that arrive while it
    /// runs stay queued, so it takes no more commands than the queue was made
    /// to hold.  The queues stay what they were.
    pub fn drain(&mut self) -> (commands: Vec<WsCommand>)
        ensures
            commands@.len() <= command_capacity(old(self).command_receiver),
            command_capacity(final(self).command_receiver) == command_capacity(
                old(self).command_receiver,
            ),
            final(self).response_sender == old(self).response_sender,
    {
        let waiting = queued(&self.command_receiver);
        let limit = max_capacity(&self.command_receiver);
        let mut commands: Vec<WsCommand> = Vec::new();
        while commands.len() < waiting && commands.len() < limit
            invariant
                commands@.len() <= limit,
                limit == command_capacity(old(self).command_receiver),
                command_capacity(self.command_receiver) == command_capacity(
                    old(self).command_receiver,
                ),
                self.response_sender == old(self).response_sender,
            decreases limit - commands@.len(),
        {
            match try_recv(&mut self.command_receiver) {
                Some(command) => {
                    commands.push(command);
                },
                None => {
                    break ;
                },
            }
        }
        commands
    }

    /// Offers a response to the response queue.  The call never waits: a
    /// queue that is full or that nobody reads drops the response.
    pub fn respond(&self, response: WsResponse) -> (delivery: Delivery) {
        try_send(&self.response_sender, response)
    }
}

/// What a connection received.
#[derive(Clone, Debug, PartialEq, Eq)]
pub enum Frame {
    /// A text frame, with the command that it decodes to, if it is one.
    Text(Option<WsCommand>),
    /// The peer closes the connection.
    Close,
    /// A frame of another kind.
    Other,
    /// The transport failed.
    Failed,
}

/// What became of a command that was offered to the command queue.
#[derive(Clone, Copy, Debug, PartialEq, Eq)]
pub enum Delivery {
    /// The queue took it.
    Sent,
    /// The queue was full: the command is dropped.
    Full,
    /// Nobody reads the queue any more.
    Closed,
}

impl Frame {
    /// The command that this frame puts on the command queue, if any: a text
    /// frame that decodes gives its command, every other frame gives none.
    pub open spec fn command(self) -> Option<WsCommand> {
        match self {
            Frame::Text(decoded) => decoded,
            _ => None,
        }
    }

    /// Whether the connection ends with this frame.
    pub open spec fn ends_connection(self) -> bool {
        self is Close || self is Failed
    }
}

/// One network connection, open until the peer or the transport ends it.
#[derive(Debug)]
pub struct Connection {
    open: bool,
}

impl Connection {
    /// Whether the connection still handles frames.
    pub closed spec fn is_open(&self) -> bool {
        self.open
    }

    /// A connection that was just accepted.
    pub fn new() -> (connection: Connection)
        ensures
            connection.is_open(),
    {
        Connection { open: true }
    }

    /// Whether the connection still handles frames.
    pub fn open(&self) -> (open: bool)
        ensures
            open == self.is_open(),
    {
        self.open
    }

    /// Handles one inbound frame and returns the command to put on the
    /// command queue, if the frame carries one.
    ///
    /// A text frame that does not decode is discarded and the connection
    /// stays open, as it does on a frame of another kind.  A close frame and
    /// a transport failure end the connection.  A connection that has ended
    /// handles nothing.
    pub fn on_frame(&mut self, frame: Frame) -> (command: Option<WsCommand>)
        ensures
            command == (if old(self).is_open() {
                frame.command()
            } else {
                None
            }),
            final(self).is_open() == (old(self).is_open() && !frame.ends_connection()),
    {
        if !self.open {
            return None;
        }
        match frame {
            Frame::Text(decoded) => decoded,
            Frame::Other => None,
            Frame::Close => {
                self.open = false;
                None
            },
            Frame::Failed => {
                self.open = false;
                None
            },
        }
    }

    /// Handles one inbound frame: a command that it carries is offered to the
    /// command queue, and the connection ends on a close frame, on a
    /// transport failure, and once nobody reads the queue.
    ///
    /// Returns what became of the command, or none where the frame carried
    /// none or the connection had ended.
    pub fn receive(&mut self, frame: Frame, sender: &CommandSender) -> (delivery: Option<Delivery>)
        ensures
            delivery is Some <==> old(self).is_open() && frame.command() is Some,
            final(self).is_open() == (old(self).is_open() && !frame.ends_connection() && delivery
                != Some(Delivery::Closed)),
    {
        match self.on_frame(frame) {
            Some(command) => {
                let delivery = sender.offer(command);
                self.on_delivery(delivery);
                Some(delivery)
            },
            None => None,
        }
    }

    /// Takes note of what became of a forwarded command.  A command that a
    /// full queue dropped is not tried again and not reported to the peer:
    /// the connection goes on.  It ends once nobody reads the queue.
    pub fn on_delivery(&mut self, delivery: Delivery)
        ensures
            final(self).is_open() == (old(self).is_open() && !(delivery is Closed)),
    {
        match delivery {
            Delivery::Closed => {
                self.open = false;
            },
            _ => {},
        }
    }
}

} // verus!
