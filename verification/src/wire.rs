//! Messages, as they travel between the client and the socket.
//!
//! Most messages have few arguments, so the arguments are kept in a
//! [`SmallVec`](smallvec::SmallVec), which stores that many without an allocation.

use smallvec::SmallVec;
use vstd::prelude::*;

use crate::client::Id;
use crate::protocol::{arg_views, Argument, ArgumentView};

verus! {

/// How many arguments of a message are stored without an allocation.
pub const INLINE_ARGS: usize = 4;

/// A number of arguments that no message comes near: the header of a message counts its bytes
/// in sixteen bits. The space for so many is within what can be allocated on any machine.
pub const MAX_ARGS: usize = 0x0100_0000;

/// The arguments of a message, with objects named by their number on the wire.
#[verifier::external_body]
pub struct MessageArgs {
    inner: SmallVec<[Argument<u32>; INLINE_ARGS]>,
}

/// The items of the vector in a [`MessageArgs`], in order.
pub uninterp spec fn message_items(args: MessageArgs) -> Seq<Argument<u32>>;

impl View for MessageArgs {
    type V = Seq<ArgumentView<u32>>;

    open spec fn view(&self) -> Seq<ArgumentView<u32>> {
        arg_views(message_items(*self))
    }
}

/// Calls [`SmallVec::with_capacity`], which makes a vector without items. It panics where the
/// space asked for is more than can be addressed, which the bound rules out.
#[verifier::external_body]
fn message_args_with_capacity(capacity: usize) -> (r: MessageArgs)
    requires
        capacity <= MAX_ARGS,
    ensures
        message_items(r) == Seq::<Argument<u32>>::empty(),
{
    MessageArgs { inner: SmallVec::with_capacity(capacity) }
}

/// Calls [`SmallVec::push`], which puts an item at the end. It panics where the space needed is
/// more than can be addressed, which the bound rules out.
#[verifier::external_body]
fn push_message_arg(args: &mut MessageArgs, arg: Argument<u32>)
    requires
        message_items(*old(args)).len() < MAX_ARGS,
    ensures
        message_items(*final(args)) == message_items(*old(args)).push(arg),
{
    args.inner.push(arg)
}

/// Calls [`SmallVec::as_slice`], which gives all items, in order.
#[verifier::external_body]
fn message_args_slice(args: &MessageArgs) -> (r: &[Argument<u32>])
    ensures
        r@ == message_items(*args),
{
    args.inner.as_slice()
}

impl MessageArgs {
    /// No arguments yet, with room for some.
    pub fn with_capacity(capacity: usize) -> (r: Self)
        requires
            capacity <= MAX_ARGS,
        ensures
            r@ == Seq::<ArgumentView<u32>>::empty(),
    {
        let r = message_args_with_capacity(capacity);
        assert(r@ =~= Seq::<ArgumentView<u32>>::empty());
        r
    }

    /// Adds an argument at the end.
    pub fn push(&mut self, arg: Argument<u32>)
        requires
            old(self)@.len() < MAX_ARGS,
        ensures
            final(self)@ == old(self)@.push(arg@),
    {
        push_message_arg(self, arg);
        assert(self@ =~= old(self)@.push(arg@));
    }

    /// The arguments, in order.
    pub fn as_slice(&self) -> (r: &[Argument<u32>])
        ensures
            arg_views(r@) == self@,
    {
        message_args_slice(self)
    }
}

/// The arguments of a message, with objects named by their identifiers.
#[verifier::external_body]
pub struct EventArgs {
    inner: SmallVec<[Argument<Id>; INLINE_ARGS]>,
}

/// The items of the vector in an [`EventArgs`], in order.
pub uninterp spec fn event_items(args: EventArgs) -> Seq<Argument<Id>>;

impl View for EventArgs {
    type V = Seq<ArgumentView<Id>>;

    open spec fn view(&self) -> Seq<ArgumentView<Id>> {
        arg_views(event_items(*self))
    }
}

/// Calls [`SmallVec::with_capacity`], which makes a vector without items. It panics where the
/// space asked for is more than can be addressed, which the bound rules out.
#[verifier::external_body]
fn event_args_with_capacity(capacity: usize) -> (r: EventArgs)
    requires
        capacity <= MAX_ARGS,
    ensures
        event_items(r) == Seq::<Argument<Id>>::empty(),
{
    EventArgs { inner: SmallVec::with_capacity(capacity) }
}

/// Calls [`SmallVec::push`], which puts an item at the end. It panics where the space needed is
/// more than can be addressed, which the bound rules out.
#[verifier::external_body]
fn push_event_arg(args: &mut EventArgs, arg: Argument<Id>)
    requires
        event_items(*old(args)).len() < MAX_ARGS,
    ensures
        event_items(*final(args)) == event_items(*old(args)).push(arg),
{
    args.inner.push(arg)
}

/// Calls [`SmallVec::as_slice`], which gives all items, in order.
#[verifier::external_body]
fn event_args_slice(args: &EventArgs) -> (r: &[Argument<Id>])
    ensures
        r@ == event_items(*args),
{
    args.inner.as_slice()
}

impl EventArgs {
    /// No arguments yet, with room for some.
    pub fn with_capacity(capacity: usize) -> (r: Self)
        requires
            capacity <= MAX_ARGS,
        ensures
            r@ == Seq::<ArgumentView<Id>>::empty(),
    {
        let r = event_args_with_capacity(capacity);
        assert(r@ =~= Seq::<ArgumentView<Id>>::empty());
        r
    }

    /// Adds an argument at the end.
    pub fn push(&mut self, arg: Argument<Id>)
        requires
            old(self)@.len() < MAX_ARGS,
        ensures
            final(self)@ == old(self)@.push(arg@),
    {
        push_event_arg(self, arg);
        assert(self@ =~= old(self)@.push(arg@));
    }

    /// The arguments, in order.
    pub fn as_slice(&self) -> (r: &[Argument<Id>])
        ensures
            arg_views(r@) == self@,
    {
        event_args_slice(self)
    }
}

/// A message of the wire.
pub struct Message {
    /// The object that the message is sent to, or comes from.
    pub sender_id: u32,
    /// Which message of the object's interface it is.
    pub opcode: u16,
    pub args: MessageArgs,
}

/// Why no message could be read.
#[derive(Clone, Copy, PartialEq, Eq, Structural, Debug)]
pub enum MessageParseError {
    /// The message is not complete yet: bytes are missing.
    MissingData,
    /// The message is not complete yet: file descriptors are missing.
    MissingFD,
    /// What was received is no message.
    Malformed,
}

} // verus!
