//! Sending requests that create an object.

use std::sync::Arc;

use vstd::prelude::*;

use super::model::{wire_args, HandleView, RequestFault, Verdict};
use super::request::{
    lemma_client_destroys_wf, lemma_destructor_is_not_of_display, marshal, Outgoing,
};
use super::{Data, Handle, Id};
use crate::map::{lemma_lowest_free_is_available, lemma_map_wf, Object};
use crate::protocol::{
    arg_views, same_interface, Argument, ArgumentView, Interface, InvalidId, MessageDesc,
    ObjectData, ObjectInfo,
};
use crate::wire::{Message, MAX_ARGS};

verus! {

/// A request that creates an object, on its way.
pub struct Constructed<D> {
    /// The new object.
    pub id: Id,
    pub outgoing: Outgoing<D>,
}

impl<D> HandleView<D> {
    /// How a constructor ends that has created its object with the data `data`. The object is
    /// there even where one of the arguments turns out not to exist.
    pub open spec fn constructs(
        self,
        id: Id,
        opcode: u16,
        args: Seq<ArgumentView<Id>>,
        data: Arc<D>,
        after: HandleView<D>,
        result: Result<Constructed<D>, InvalidId>,
    ) -> bool {
        let desc = self.request(id, opcode);
        let child = self.child_id(id, opcode);
        match self.args_verdict(desc, args, 0, Some(child)) {
            Verdict::Accepted => {
                &&& result matches Ok(constructed)
                &&& constructed.id == child
                &&& constructed.outgoing.carries(
                    id,
                    opcode,
                    wire_args(args, Some(child)),
                    if desc.is_destructor {
                        self.get(id)->0.data.user_data
                    } else {
                        None
                    },
                )
                &&& desc.is_destructor ==> constructed.outgoing.destroyed is Some
                &&& after == self.with_child(id, opcode, data).after_request(id, desc)
            },
            _ => result is Err && after == self.with_child(id, opcode, data),
        }
    }

    /// The data that a new object can have: what was given, else what the user makes of the data
    /// of its creator.
    pub open spec fn child_data(
        self,
        id: Id,
        opcode: u16,
        given: Option<Arc<D>>,
        data: Arc<D>,
    ) -> bool where D: ObjectData {
        match given {
            Some(d) => data == d,
            None => call_ensures(
                D::make_child,
                (&*(self.get(id)->0.data.user_data->0), &self.child_info(id, opcode)),
                data,
            ),
        }
    }
}

/// Creating an object keeps the state well formed, and leaves every other object as it is.
pub proof fn lemma_with_child<D>(handle: HandleView<D>, id: Id, opcode: u16, data: Arc<D>)
    requires
        handle.wf(),
        handle.map.has_room(),
    ensures
        handle.with_child(id, opcode, data).wf(),
        !handle.map.objects.contains_key(handle.map.lowest_free()),
        handle.map.lowest_free() != 1,
        forall|other: u32|
            other != handle.map.lowest_free() ==> handle.with_child(
                id,
                opcode,
                data,
            ).map.find(other) == #[trigger] handle.map.find(other),
{
    let after = handle.with_child(id, opcode, data);
    let number = handle.map.lowest_free();
    lemma_lowest_free_is_available(handle.map);
    lemma_map_wf(handle.map, number, after.map.objects[number]);
    assert forall|other: u32| #[trigger] after.map.objects.contains_key(other) implies (
    after.map.objects[other].data.user_data is None <==> other == 1) by {
        if other != number {
            assert(handle.map.objects.contains_key(other));
        }
    }
}

/// Whether one of the new ids among the arguments is not a placeholder, whose number is 0.
fn has_foreign_new_id(args: &[Argument<Id>]) -> (r: bool)
    ensures
        r == exists|i: int|
            0 <= i < args@.len() && #[trigger] arg_views(args@)[i] is NewId && arg_views(
                args@,
            )[i]->NewId_0.id != 0,
{
    let mut i: usize = 0;
    while i < args.len()
        invariant
            i <= args.len(),
            forall|j: int|
                0 <= j < i ==> !(#[trigger] arg_views(args@)[j] is NewId && arg_views(
                    args@,
                )[j]->NewId_0.id != 0),
        decreases args.len() - i,
    {
        assert(arg_views(args@)[i as int] == args@[i as int]@);
        match &args[i] {
            Argument::NewId(new_id) => if new_id.id != 0 {
                return true;
            },
            _ => {},
        }
        i += 1;
    }
    false
}

impl<D> Handle<D> {
    /// What becomes of a constructor before its object is created.
    pub fn check_setup(
        &self,
        id: Id,
        opcode: u16,
        args: &[Argument<Id>],
        has_data: bool,
    ) -> (r: Verdict)
        requires
            self@.wf(),
        ensures
            r == self@.setup_verdict(id, opcode, arg_views(args@), has_data),
    {
        match self.check_entry(id, opcode, args) {
            Verdict::Accepted => {},
            verdict => {
                return verdict;
            },
        }
        let object: Object<Data<D>> = match self.get_object(id) {
            Ok(object) => object,
            Err(_) => {
                return Verdict::InvalidId;
            },
        };
        let desc: &MessageDesc = &object.interface.requests[opcode as usize];
        match (self.pending_placeholder, desc.child_interface) {
            (Some((found, version)), Some(expected)) => {
                if !same_interface(expected, found) {
                    return Verdict::Fault(RequestFault::WrongPlaceholder { expected, found });
                }
                if version != object.version {
                    return Verdict::Fault(
                        RequestFault::WrongPlaceholderVersion {
                            expected_version: object.version,
                            found_version: version,
                        },
                    );
                }
            },
            (None, None) => {
                return Verdict::Fault(RequestFault::MissingPlaceholder);
            },
            _ => {},
        }
        if self.map.first_free().is_none() {
            Verdict::Fault(RequestFault::IdsExhausted)
        } else if !has_data && object.data.user_data.is_none() {
            Verdict::Fault(RequestFault::MissingData)
        } else if has_foreign_new_id(args) {
            Verdict::Fault(RequestFault::NotPlaceholder)
        } else {
            Verdict::Accepted
        }
    }

    /// What is known of the object that a constructor is about to create.
    pub fn constructor_info(&self, id: Id, opcode: u16) -> (r: ObjectInfo)
        requires
            self@.wf(),
            self@.get(id) is Some,
            opcode < self@.get(id)->0.interface.requests@.len(),
            self@.child_kind(id, opcode) is Some,
            self@.map.has_room(),
        ensures
            r == self@.child_info(id, opcode),
    {
        let number: u32 = self.map.first_free().unwrap();
        let kind: (&'static Interface, u32) = match self.pending_placeholder {
            Some(kind) => kind,
            None => {
                let object: Object<Data<D>> = self.get_object(id).unwrap();
                let desc: &MessageDesc = &object.interface.requests[opcode as usize];
                (desc.child_interface.unwrap(), object.version)
            },
        };
        ObjectInfo { id: number, interface: kind.0, version: kind.1 }
    }

    /// What becomes of a constructor.
    pub fn check_constructor(
        &self,
        id: Id,
        opcode: u16,
        args: &[Argument<Id>],
        has_data: bool,
    ) -> (r: Verdict)
        requires
            self@.wf(),
        ensures
            r == self@.constructor_verdict(id, opcode, arg_views(args@), has_data),
    {
        match self.check_setup(id, opcode, args, has_data) {
            Verdict::Accepted => {},
            verdict => {
                return verdict;
            },
        }
        let info = self.constructor_info(id, opcode);
        let child = Id {
            serial: self.last_serial.wrapping_add(1),
            id: info.id,
            interface: info.interface,
        };
        match self.get_object(id) {
            Ok(object) => self.check_args(
                &object.interface.requests[opcode as usize],
                args,
                Some(child),
            ),
            Err(_) => Verdict::InvalidId,
        }
    }

    /// Sends a request that creates an object, with the data that the user keeps with it.
    ///
    /// It fails where the object of the request does not exist (any more), or where the client
    /// has already destroyed it. Then nothing changes. It fails, too, where one of the arguments
    /// does not exist. The new object is created even then, and the placeholder is used up.
    pub fn construct(
        &mut self,
        id: Id,
        opcode: u16,
        args: &[Argument<Id>],
        data: Arc<D>,
    ) -> (r: Result<Constructed<D>, InvalidId>)
        requires
            old(self)@.wf(),
            !(old(self)@.constructor_verdict(id, opcode, arg_views(args@), true) is Fault),
            old(self)@.constructor_verdict(id, opcode, arg_views(args@), true) is Accepted
                ==> args@.len() <= MAX_ARGS,
        ensures
            final(self)@.wf(),
            match old(self)@.setup_verdict(id, opcode, arg_views(args@), true) {
                Verdict::Accepted => old(self)@.constructs(
                    id,
                    opcode,
                    arg_views(args@),
                    data,
                    final(self)@,
                    r,
                ),
                _ => r is Err && final(self)@ == old(self)@,
            },
            r matches Ok(constructed) ==> {
                let creator = old(self)@.map.objects[id.id];
                let desc = creator.interface.requests@[opcode as int];
                &&& constructed.outgoing.message.sender_id == id.id
                &&& constructed.outgoing.message.opcode == opcode
                &&& constructed.outgoing.message.args@.len() == args@.len()
                &&& constructed.outgoing.destroyed == if desc.is_destructor {
                    creator.data.user_data
                } else {
                    None
                }
                &&& !old(self)@.map.objects.contains_key(constructed.id.id)
                &&& final(self)@.map.objects.contains_key(constructed.id.id)
                &&& final(self)@.map.objects[constructed.id.id].data.serial
                    == constructed.id.serial
                &&& final(self)@.map.objects[constructed.id.id].interface
                    == constructed.id.interface
                &&& final(self)@.map.objects[id.id].data.client_destroyed == desc.is_destructor
            },
    {
        match self.check_setup(id, opcode, args, true) {
            Verdict::Accepted => {},
            _ => {
                return Err(InvalidId);
            },
        }
        let object: Object<Data<D>> = self.get_object(id)?;
        let desc: &MessageDesc = &object.interface.requests[opcode as usize];
        let info = self.constructor_info(id, opcode);
        let child_id = Id {
            serial: self.last_serial.wrapping_add(1),
            id: info.id,
            interface: info.interface,
        };
        let verdict = self.check_args(desc, args, Some(child_id));

        // Create the object, whatever the arguments are.
        proof {
            lemma_with_child(self@, id, opcode, data);
        }
        self.pending_placeholder = None;
        let serial: u32 = self.next_serial();
        let child = Object {
            interface: info.interface,
            version: info.version,
            data: Data {
                client_destroyed: false,
                server_destroyed: false,
                user_data: Some(data),
                serial,
            },
        };
        self.map.client_insert_new(child);
        assert(self@ == old(self)@.with_child(id, opcode, data));

        match verdict {
            Verdict::Accepted => {},
            _ => {
                return Err(InvalidId);
            },
        }

        let message = Message { sender_id: id.id, opcode, args: marshal(args, Some(child_id)) };
        let mut destroyed: Option<Arc<D>> = None;
        if desc.is_destructor {
            proof {
                lemma_destructor_is_not_of_display(old(self)@, id, opcode);
                assert(old(self)@.map.find(id.id) is Some);
                assert(self@.map.objects.contains_key(id.id));
                lemma_client_destroys_wf(self@, id.id);
            }
            self.destroy_object(id.id);
            destroyed = object.data.user_data;
        }
        Ok(Constructed { id: child_id, outgoing: Outgoing { message, destroyed } })
    }
}

impl<D: ObjectData> Handle<D> {
    /// Sends a request that creates an object.
    ///
    /// Where no data is given for the new object, it is made from that of its creator. Whatever
    /// that data is, the request then ends as one with this data.
    pub fn send_constructor(
        &mut self,
        id: Id,
        opcode: u16,
        args: &[Argument<Id>],
        data: Option<Arc<D>>,
    ) -> (r: Result<Constructed<D>, InvalidId>)
        requires
            old(self)@.wf(),
            !(old(self)@.constructor_verdict(id, opcode, arg_views(args@), data is Some) is Fault),
            old(self)@.constructor_verdict(id, opcode, arg_views(args@), data is Some) is Accepted
                ==> args@.len() <= MAX_ARGS,
        ensures
            final(self)@.wf(),
            match old(self)@.setup_verdict(id, opcode, arg_views(args@), data is Some) {
                Verdict::Accepted => exists|child_data: Arc<D>| #[trigger]
                    old(self)@.child_data(id, opcode, data, child_data) && old(self)@.constructs(
                        id,
                        opcode,
                        arg_views(args@),
                        child_data,
                        final(self)@,
                        r,
                    ),
                _ => r is Err && final(self)@ == old(self)@,
            },
            r matches Ok(constructed) ==> {
                let creator = old(self)@.map.objects[id.id];
                let desc = creator.interface.requests@[opcode as int];
                &&& constructed.outgoing.message.sender_id == id.id
                &&& constructed.outgoing.message.opcode == opcode
                &&& constructed.outgoing.message.args@.len() == args@.len()
                &&& constructed.outgoing.destroyed == if desc.is_destructor {
                    creator.data.user_data
                } else {
                    None
                }
                &&& !old(self)@.map.objects.contains_key(constructed.id.id)
                &&& final(self)@.map.objects.contains_key(constructed.id.id)
                &&& final(self)@.map.objects[constructed.id.id].data.serial
                    == constructed.id.serial
                &&& final(self)@.map.objects[constructed.id.id].interface
                    == constructed.id.interface
                &&& final(self)@.map.objects[id.id].data.client_destroyed == desc.is_destructor
            },
    {
        match self.check_setup(id, opcode, args, data.is_some()) {
            Verdict::Accepted => {},
            _ => {
                return Err(InvalidId);
            },
        }
        let child_data: Arc<D> = match data {
            Some(data) => data,
            None => {
                let object: Object<Data<D>> = self.get_object(id)?;
                let info = self.constructor_info(id, opcode);
                object.data.user_data.unwrap().make_child(&info)
            },
        };
        assert(self@.child_data(id, opcode, data, child_data));
        self.construct(id, opcode, args, child_data)
    }
}

} // verus!
