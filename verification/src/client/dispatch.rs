//! Dispatching events: what follows from what was read from the socket.

use std::sync::Arc;

use vstd::prelude::*;

use super::event::{Delivery, EventOutcome, Swallowed};
use super::Backend;
use crate::protocol::ObjectData;
use crate::wire::{Message, MessageParseError};

verus! {

/// Why the buffers could not be filled from the socket.
pub struct FillError {
    /// There is nothing to read for now.
    pub would_block: bool,
    pub error: std::io::Error,
}

/// What has happened while events are dispatched.
pub enum DispatchEvent {
    /// A message was taken from the buffers, or could not be.
    Read(Result<Message, MessageParseError>),
    /// The buffers were filled from the socket, or could not be.
    Filled(Result<(), FillError>),
    /// The user has got an event.
    Delivered,
    /// The file descriptors of an event that nobody gets were closed.
    Closed,
}

/// What is to be done next while events are dispatched.
pub enum DispatchAction<D> {
    /// Take a message from the buffers.
    Read,
    /// Fill the buffers from the socket.
    Fill,
    /// Close the file descriptors of an event that nobody gets.
    Close(Swallowed),
    /// Give the user an event.
    Deliver(Delivery<D>),
    /// Stop, with the number of events that the user has got, or with an error.
    Return(Result<usize, DispatchError>),
}

/// Why dispatching events has ended.
#[derive(Debug)]
pub enum DispatchError {
    /// The socket has failed.
    Io(std::io::Error),
    /// The server has broken the rules of the protocol.
    Protocol,
}

impl DispatchError {
    /// The error as one of the operating system.
    pub fn into_io_error(self) -> (r: std::io::Error)
        ensures
            self matches DispatchError::Io(e) ==> r == e,
    {
        match self {
            DispatchError::Io(e) => e,
            DispatchError::Protocol => protocol_io_error(),
        }
    }
}

impl<D> DispatchAction<D> {
    /// What is to be done after an event has come to something.
    pub open spec fn follows(self, outcome: EventOutcome<D>) -> bool {
        match outcome {
            EventOutcome::Failed => self == DispatchAction::<D>::Return(
                Err(DispatchError::Protocol),
            ),
            EventOutcome::Swallowed(swallowed) => self == DispatchAction::<D>::Close(swallowed),
            EventOutcome::Delivered(delivery) => self == DispatchAction::Deliver(delivery),
        }
    }
}

/// The error of a connection whose peer breaks the rules of the protocol: converts
/// [`Errno::EPROTO`](nix::errno::Errno::EPROTO) to an [`std::io::Error`]. Nothing is claimed of
/// it: the number of the error is that of the machine.
#[verifier::external_body]
fn protocol_io_error() -> (r: std::io::Error) {
    nix::errno::Errno::EPROTO.into()
}

impl<D: ObjectData> Backend<D> {
    /// Decides, while events are dispatched, what follows from what has happened. Dispatching
    /// begins with taking a message from the buffers; `dispatched` counts the events that the
    /// user has got since.
    pub fn dispatch_events(&mut self, dispatched: &mut usize, event: DispatchEvent) -> (r:
        DispatchAction<D>)
        requires
            old(self)@.wf(),
            event matches DispatchEvent::Read(Ok(message)) ==> old(self)@.event_fault(
                message,
            ) is None,
            event is Delivered ==> *old(dispatched) < usize::MAX,
        ensures
            final(self)@.wf(),
            *final(dispatched) == *old(dispatched) + if event is Delivered {
                1int
            } else {
                0
            },
            r matches DispatchAction::Return(Ok(n)) ==> 0 < n == *old(dispatched),
            r matches DispatchAction::Deliver(delivery) ==> (event matches DispatchEvent::Read(
                Ok(message),
            ) && {
                let object = old(self)@.map.objects[message.sender_id];
                let desc = object.interface.events@[message.opcode as int];
                &&& !object.data.client_destroyed
                &&& object.data.user_data == Some(delivery.user_data)
                &&& delivery.id.id == message.sender_id
                &&& delivery.id.serial == object.data.serial
                &&& delivery.id.interface == object.interface
                &&& delivery.opcode == message.opcode
                &&& delivery.name@ == desc.name@
                &&& delivery.destroyed == desc.is_destructor
                &&& delivery.args@.len() == message.args@.len()
            }),
            r matches DispatchAction::Close(swallowed) ==> (event matches DispatchEvent::Read(
                Ok(message),
            ) && {
                &&& old(self)@.map.objects[message.sender_id].data.client_destroyed
                &&& swallowed.id.id == message.sender_id
                &&& swallowed.args@.len() == message.args@.len()
            }),
            event matches DispatchEvent::Read(Ok(message)) ==> (message.sender_id == 1
                && message.opcode == 1 ==> {
                let id = message.args@[0]->Uint_0;
                let known = old(self)@.map.objects.contains_key(id);
                let object = old(self)@.map.objects[id];
                &&& final(self)@.map.objects.contains_key(id) <==> known
                    && !object.data.client_destroyed
                &&& known && !object.data.client_destroyed
                    ==> final(self)@.map.objects[id].data.server_destroyed
            }),
            match event {
                DispatchEvent::Read(Err(MessageParseError::Malformed)) => {
                    &&& r == DispatchAction::<D>::Return(Err(DispatchError::Protocol))
                    &&& final(self)@ == old(self)@.protocol_failure(
                        "Malformed Wayland message."@,
                    )
                },
                DispatchEvent::Read(Err(_)) => r is Fill && final(self)@ == old(self)@,
                DispatchEvent::Read(Ok(message)) => if message.sender_id == 1 {
                    &&& r is Read
                    &&& final(self)@ == old(self)@.display_event(message.opcode, message.args@)
                    &&& message.opcode == 0 && vstd::utf8::valid_utf8(message.args@[2]->Str_0)
                        ==> final(self)@ == old(self)@.server_error(
                        message.args@[0]->Object_0,
                        message.args@[1]->Uint_0,
                        vstd::utf8::decode_utf8(message.args@[2]->Str_0),
                    )
                } else {
                    exists|children: Seq<Option<Arc<D>>>, outcome: EventOutcome<D>|
                        #[trigger] r.follows(outcome) && #[trigger] old(self)@.has_children(
                            message.sender_id,
                            message.opcode,
                            message.args@,
                            children,
                        ) && old(self)@.event_ends(message, children, final(self)@, outcome)
                },
                DispatchEvent::Filled(Ok(_)) => r is Read && final(self)@ == old(self)@,
                DispatchEvent::Filled(Err(e)) => {
                    &&& r == DispatchAction::<D>::Return(
                        if e.would_block && *old(dispatched) > 0 {
                            Ok(*old(dispatched))
                        } else {
                            Err(DispatchError::Io(e.error))
                        },
                    )
                    &&& final(self)@ == old(self)@
                },
                DispatchEvent::Delivered => r is Read && final(self)@ == old(self)@,
                DispatchEvent::Closed => r is Read && final(self)@ == old(self)@,
            },
    {
        match event {
            DispatchEvent::Read(Ok(message)) => {
                if message.sender_id == 1 {
                    self.handle.handle_display_event(&message);
                    return DispatchAction::Read;
                }
                let outcome = self.handle.handle_event(&message);
                let ghost ended = outcome;
                let action: DispatchAction<D> = match outcome {
                    EventOutcome::Failed => DispatchAction::Return(Err(DispatchError::Protocol)),
                    EventOutcome::Swallowed(swallowed) => DispatchAction::Close(swallowed),
                    EventOutcome::Delivered(delivery) => DispatchAction::Deliver(delivery),
                };
                assert(action.follows(ended));
                action
            },
            DispatchEvent::Read(Err(MessageParseError::Malformed)) => {
                self.handle.fail_protocol("Malformed Wayland message.".to_owned());
                DispatchAction::Return(Err(DispatchError::Protocol))
            },
            DispatchEvent::Read(Err(_)) => DispatchAction::Fill,
            DispatchEvent::Filled(Ok(())) => DispatchAction::Read,
            DispatchEvent::Filled(Err(e)) => if !e.would_block || *dispatched == 0 {
                DispatchAction::Return(Err(DispatchError::Io(e.error)))
            } else {
                DispatchAction::Return(Ok(*dispatched))
            },
            DispatchEvent::Delivered => {
                *dispatched = *dispatched + 1;
                DispatchAction::Read
            },
            DispatchEvent::Closed => DispatchAction::Read,
        }
    }
}

} // verus!
