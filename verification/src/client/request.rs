//! Sending requests.
//!
//! A request is looked at as a whole before anything is changed: it can be sent, it names an
//! object that does not exist (any more), or it is a misuse of the library, which a caller has
//! to rule out. What is sent, and which callback is due, is handed back to the caller.

use std::sync::Arc;

use vstd::prelude::*;

use super::model::{objects_before, wire_arg, wire_args, HandleView, RequestFault, Verdict};
use super::{Data, Handle, Id};
use crate::map::{lemma_map_wf, Object};
use crate::protocol::{
    arg_views, check_for_signature, fits_signature, lemma_display_messages, same_interface,
    AllowNull, Argument, ArgumentType, ArgumentView, Interface, InvalidId, MessageDesc,
};
use crate::wire::{Message, MessageArgs, MAX_ARGS};

verus! {

/// A request on its way.
pub struct Outgoing<D> {
    /// What is to be written to the socket.
    pub message: Message,
    /// The data of the object, where the request has destroyed it: its user is to be told.
    pub destroyed: Option<Arc<D>>,
}

impl<D> Outgoing<D> {
    /// What goes out for a request: the message, and word of the destruction of its object.
    pub open spec fn carries(
        self,
        id: Id,
        opcode: u16,
        args: Seq<ArgumentView<u32>>,
        destroyed: Option<Arc<D>>,
    ) -> bool {
        &&& self.message.sender_id == id.id
        &&& self.message.opcode == opcode
        &&& self.message.args@ == args
        &&& self.destroyed == destroyed
    }
}

/// Destroying an object other than the display keeps the state well formed.
pub proof fn lemma_client_destroys_wf<D>(handle: HandleView<D>, id: u32)
    requires
        handle.wf(),
        handle.map.objects.contains_key(id),
        id != 1,
    ensures
        handle.client_destroys(id).wf(),
{
    let after = handle.client_destroys(id);
    lemma_map_wf(handle.map, id, after.map.objects[id]);
    assert forall|other: u32| #[trigger] after.map.objects.contains_key(other) implies (
    after.map.objects[other].data.user_data is None <==> other == 1) by {
        assert(handle.map.objects.contains_key(other));
    }
}

/// A request that destroys its object is not one of the display.
pub(crate) proof fn lemma_destructor_is_not_of_display<D>(
    handle: HandleView<D>,
    id: Id,
    opcode: u16,
)
    requires
        handle.wf(),
        handle.get(id) is Some,
        opcode < handle.get(id)->0.interface.requests@.len(),
        handle.request(id, opcode).is_destructor,
    ensures
        id.id != 1,
{
    lemma_display_messages();
}

/// Puts arguments into the form in which they travel.
pub(crate) fn marshal(args: &[Argument<Id>], child: Option<Id>) -> (r: MessageArgs)
    requires
        args@.len() <= MAX_ARGS,
    ensures
        r@ == wire_args(arg_views(args@), child),
{
    let mut out = MessageArgs::with_capacity(args.len());
    let mut i: usize = 0;
    while i < args.len()
        invariant
            i <= args.len(),
            args@.len() <= MAX_ARGS,
            out@ == wire_args(arg_views(args@), child).take(i as int),
        decreases args.len() - i,
    {
        let arg: Argument<Id> = args[i].clone();
        let wired: Argument<u32> = match arg {
            Argument::Int(v) => Argument::Int(v),
            Argument::Uint(v) => Argument::Uint(v),
            Argument::Fixed(v) => Argument::Fixed(v),
            Argument::Str(v) => Argument::Str(v),
            Argument::Object(v) => Argument::Object(v.id),
            Argument::NewId(v) => Argument::NewId(
                match child {
                    Some(c) => c.id,
                    None => v.id,
                },
            ),
            Argument::Array(v) => Argument::Array(v),
            Argument::Fd(v) => Argument::Fd(v),
        };
        out.push(wired);
        proof {
            let all = wire_args(arg_views(args@), child);
            assert(wired@ == all[i as int]);
            assert(all.take(i + 1) =~= all.take(i as int).push(all[i as int]));
        }
        i += 1;
    }
    assert(out@ =~= wire_args(arg_views(args@), child));
    out
}

impl<D> Handle<D> {
    /// The interface of the object of an identifier, where the object `child` is there too.
    fn interface_of(&self, id: Id, child: Option<Id>) -> (r: Option<&'static Interface>)
        ensures
            r == self@.interface_of(id, child),
    {
        match child {
            Some(c) => if c.id == id.id {
                return if c.serial == id.serial {
                    Some(c.interface)
                } else {
                    None
                };
            },
            None => {},
        }
        match self.get_object(id) {
            Ok(object) => Some(object.interface),
            Err(_) => None,
        }
    }

    /// What the arguments of a request do to it.
    pub(super) fn check_args(
        &self,
        desc: &MessageDesc,
        args: &[Argument<Id>],
        child: Option<Id>,
    ) -> (r: Verdict)
        requires
            fits_signature(desc.signature@, arg_views(args@)),
        ensures
            r == self@.args_verdict(*desc, arg_views(args@), 0, child),
    {
        let ghost views = arg_views(args@);
        let mut place: usize = 0;
        let mut i: usize = 0;
        while i < args.len()
            invariant
                i <= args.len(),
                views == arg_views(args@),
                fits_signature(desc.signature@, views),
                place <= i,
                place == objects_before(wire_args(views, child), i as int),
                self@.args_verdict(*desc, views, 0, child) == self@.args_verdict(
                    *desc,
                    views,
                    i as int,
                    child,
                ),
            decreases args.len() - i,
        {
            let ghost wired = wire_args(views, child);
            assert(args@[i as int]@ == views[i as int]);
            assert(wired[i as int] == wire_arg(views[i as int], child));
            match &args[i] {
                Argument::NewId(_) => if child.is_none() {
                    return Verdict::Fault(RequestFault::CreatesObject);
                },
                Argument::Object(o) => if o.id != 0 {
                    match self.interface_of(*o, child) {
                        None => {
                            return Verdict::InvalidId;
                        },
                        Some(found) => {
                            if place >= desc.arg_interfaces.len() {
                                return Verdict::Fault(RequestFault::UnexpectedObject);
                            }
                            let expected: &'static Interface = desc.arg_interfaces[place];
                            if !same_interface(expected, found) {
                                return Verdict::Fault(
                                    RequestFault::WrongInterface { expected, found },
                                );
                            }
                            place += 1;
                        },
                    }
                } else {
                    match desc.signature[i] {
                        ArgumentType::Object(AllowNull::Yes) => {},
                        _ => {
                            return Verdict::Fault(RequestFault::NullObject);
                        },
                    }
                },
                _ => {},
            }
            i += 1;
        }
        Verdict::Accepted
    }

    /// What becomes of a request before its arguments are looked at one by one.
    pub fn check_entry(&self, id: Id, opcode: u16, args: &[Argument<Id>]) -> (r: Verdict)
        ensures
            r == self@.entry_verdict(id, opcode, arg_views(args@)),
    {
        match self.get_object(id) {
            Err(_) => Verdict::InvalidId,
            Ok(object) => if object.data.client_destroyed {
                Verdict::InvalidId
            } else if opcode as usize >= object.interface.requests.len() {
                Verdict::Fault(RequestFault::UnknownOpcode)
            } else if !check_for_signature(
                object.interface.requests[opcode as usize].signature,
                args,
            ) {
                Verdict::Fault(RequestFault::WrongSignature)
            } else {
                Verdict::Accepted
            },
        }
    }

    /// What becomes of a request that creates no object.
    pub fn check_request(&self, id: Id, opcode: u16, args: &[Argument<Id>]) -> (r: Verdict)
        ensures
            r == self@.request_verdict(id, opcode, arg_views(args@)),
    {
        match self.check_entry(id, opcode, args) {
            Verdict::Accepted => match self.get_object(id) {
                Ok(object) => self.check_args(
                    &object.interface.requests[opcode as usize],
                    args,
                    None,
                ),
                Err(_) => Verdict::InvalidId,
            },
            verdict => verdict,
        }
    }

    /// Sends a request that creates no object.
    ///
    /// It fails where the object of the request, or one of its arguments, does not exist (any
    /// more), or where the client has already destroyed the object of the request. Then nothing
    /// changes.
    pub fn send_request(&mut self, id: Id, opcode: u16, args: &[Argument<Id>]) -> (r: Result<
        Outgoing<D>,
        InvalidId,
    >)
        requires
            old(self)@.wf(),
            !(old(self)@.request_verdict(id, opcode, arg_views(args@)) is Fault),
            old(self)@.request_verdict(id, opcode, arg_views(args@)) is Accepted ==> args@.len()
                <= MAX_ARGS,
        ensures
            final(self)@.wf(),
            r is Ok <==> old(self)@.request_verdict(id, opcode, arg_views(args@)) is Accepted,
            r is Err ==> final(self)@ == old(self)@,
            r matches Ok(outgoing) ==> {
                let desc = old(self)@.request(id, opcode);
                &&& outgoing.carries(
                    id,
                    opcode,
                    wire_args(arg_views(args@), None),
                    if desc.is_destructor {
                        old(self)@.get(id)->0.data.user_data
                    } else {
                        None
                    },
                )
                &&& desc.is_destructor ==> outgoing.destroyed is Some
                &&& final(self)@ == old(self)@.after_request(id, desc)
            },
            r matches Ok(outgoing) ==> {
                let object = old(self)@.map.objects[id.id];
                let desc = object.interface.requests@[opcode as int];
                &&& outgoing.message.sender_id == id.id
                &&& outgoing.message.opcode == opcode
                &&& outgoing.message.args@.len() == args@.len()
                &&& outgoing.destroyed == if desc.is_destructor {
                    object.data.user_data
                } else {
                    None
                }
                &&& !desc.is_destructor ==> final(self)@ == old(self)@
                &&& desc.is_destructor ==> final(self)@.map.objects[id.id].data.client_destroyed
            },
    {
        match self.check_request(id, opcode, args) {
            Verdict::Accepted => {},
            _ => {
                return Err(InvalidId);
            },
        }
        let object: Object<Data<D>> = self.get_object(id)?;
        let desc: &MessageDesc = &object.interface.requests[opcode as usize];
        let message = Message { sender_id: id.id, opcode, args: marshal(args, None) };
        let mut destroyed: Option<Arc<D>> = None;
        if desc.is_destructor {
            proof {
                lemma_destructor_is_not_of_display(self@, id, opcode);
                lemma_client_destroys_wf(self@, id.id);
            }
            self.destroy_object(id.id);
            destroyed = object.data.user_data;
        }
        Ok(Outgoing { message, destroyed })
    }
}

} // verus!
