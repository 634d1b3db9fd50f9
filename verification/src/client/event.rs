//! Receiving events of objects other than the display.

use std::sync::Arc;

use vstd::prelude::*;

use super::display::check_display_event;
use super::model::{fds, objects_before, Conversion, HandleView};
use super::{snapshot, Data, Handle, Id};
use crate::map::{lemma_map_wf, Object, SERVER_ID_LIMIT};
use crate::protocol::{
    anonymous_interface, arg_views, same_interface, Argument, ArgumentType, ArgumentView,
    Interface, MessageDesc, ObjectData, ObjectInfo, ProtocolError, WaylandError,
};
use crate::text::decimal_text;
use crate::wire::{EventArgs, Message, MAX_ARGS};

verus! {

/// An event for the user.
pub struct Delivery<D> {
    /// What the user keeps with the object of the event.
    pub user_data: Arc<D>,
    /// The object of the event.
    pub id: Id,
    pub opcode: u16,
    /// The name of the event.
    pub name: &'static str,
    /// The event has destroyed the object: the user is to be told before getting the event.
    pub destroyed: bool,
    pub args: EventArgs,
}

/// An event for an object that the client has destroyed, which nobody gets.
pub struct Swallowed {
    /// The object of the event.
    pub id: Id,
    /// The name of the event.
    pub name: &'static str,
    pub args: EventArgs,
    /// The file descriptors among the arguments, which are to be closed.
    pub fds: Vec<i32>,
}

/// What an event comes to.
pub enum EventOutcome<D> {
    /// The event breaks the rules of the protocol.
    Failed,
    Swallowed(Swallowed),
    Delivered(Delivery<D>),
}

impl<D> HandleView<D> {
    /// How an event ends, where the objects that it creates have the data `children`.
    pub open spec fn event_ends(
        self,
        message: Message,
        children: Seq<Option<Arc<D>>>,
        after: HandleView<D>,
        outcome: EventOutcome<D>,
    ) -> bool {
        let receiver = self.map.objects[message.sender_id];
        let desc = self.event(message.sender_id, message.opcode);
        let conversion = self.converted(
            message.sender_id,
            message.opcode,
            message.args@,
            children,
        );
        match outcome {
            EventOutcome::Failed => conversion.failed && after == conversion.state,
            EventOutcome::Swallowed(swallowed) => {
                &&& !conversion.failed
                &&& receiver.data.client_destroyed
                &&& after == conversion.state
                &&& swallowed.id == self.identify(message.sender_id)
                &&& swallowed.name@ == desc.name@
                &&& swallowed.args@ == conversion.args
                &&& swallowed.fds@ == fds(conversion.args)
            },
            EventOutcome::Delivered(delivery) => {
                &&& !conversion.failed
                &&& !receiver.data.client_destroyed
                &&& after == if desc.is_destructor {
                    conversion.state.event_destroys(message.sender_id)
                } else {
                    conversion.state
                }
                &&& receiver.data.user_data == Some(delivery.user_data)
                &&& delivery.id == self.identify(message.sender_id)
                &&& delivery.opcode == message.opcode
                &&& delivery.name@ == desc.name@
                &&& delivery.destroyed == desc.is_destructor
                &&& delivery.args@ == conversion.args
            },
        }
    }
}

/// Room is made for a new object only where it is needed: a number that the server may not use
/// leaves the state as it is.
proof fn lemma_vacated<D>(handle: HandleView<D>, number: u32)
    requires
        handle.wf(),
    ensures
        handle.vacated(number).wf(),
        !handle.accepts_new_id(number) ==> handle.vacated(number) == handle,
{
    if handle.vacated(number) != handle {
        let after = handle.vacated(number);
        lemma_map_wf(handle.map, number, handle.map.objects[number]);
        assert(handle.map.is_used(number));
        assert forall|other: u32| #[trigger] after.map.objects.contains_key(other) implies (
        after.map.objects[other].data.user_data is None <==> other == 1) by {
            assert(handle.map.objects.contains_key(other));
        }
    }
}

/// Taking up a new object of the server keeps the state well formed, and leaves every object as
/// it is that the client has not destroyed.
pub proof fn lemma_adopted<D>(
    handle: HandleView<D>,
    creator: Object<Data<D>>,
    interface: &'static Interface,
    number: u32,
    data: Arc<D>,
)
    requires
        handle.wf(),
        handle.accepts_new_id(number),
    ensures
        handle.adopted(creator, interface, number, data).wf(),
        number != 1,
        forall|other: u32| #[trigger]
            handle.map.objects.contains_key(other)
                && !handle.map.objects[other].data.client_destroyed ==> handle.adopted(
                creator,
                interface,
                number,
                data,
            ).map.find(other) == Some(handle.map.objects[other]),
{
    let cleared = handle.vacated(number);
    let after = handle.adopted(creator, interface, number, data);
    lemma_vacated(handle, number);
    lemma_map_wf(cleared.map, number, after.map.objects[number]);
    assert forall|other: u32| #[trigger] after.map.objects.contains_key(other) implies (
    after.map.objects[other].data.user_data is None <==> other == 1) by {
        if other != number {
            assert(cleared.map.objects.contains_key(other));
        }
    }
}

/// What was read of an event does not depend on the data of objects that come later.
proof fn lemma_convert_prefix<D>(
    handle: HandleView<D>,
    receiver: Object<Data<D>>,
    desc: MessageDesc,
    args: Seq<ArgumentView<u32>>,
    children: Seq<Option<Arc<D>>>,
    more: Option<Arc<D>>,
    n: nat,
)
    requires
        n <= children.len(),
    ensures
        handle.convert(receiver, desc, args, children.push(more), n) == handle.convert(
            receiver,
            desc,
            args,
            children,
            n,
        ),
    decreases n,
{
    if n > 0 {
        lemma_convert_prefix(handle, receiver, desc, args, children, more, (n - 1) as nat);
        assert(children.push(more)[n - 1] == children[n - 1]);
    }
}

/// The file descriptors among arguments.
fn collect_fds(args: &EventArgs) -> (r: Vec<i32>)
    ensures
        r@ == fds(args@),
{
    let items: &[Argument<Id>] = args.as_slice();
    let ghost views = args@;
    let mut out: Vec<i32> = Vec::new();
    let mut i: usize = 0;
    while i < items.len()
        invariant
            i <= items.len(),
            views == arg_views(items@),
            out@ == fds(views.take(i as int)),
        decreases items.len() - i,
    {
        proof {
            assert(views.take(i + 1).drop_last() =~= views.take(i as int));
            assert(views.take(i + 1).last() == items@[i as int]@);
        }
        match &items[i] {
            Argument::Fd(fd) => {
                out.push(*fd);
            },
            _ => {},
        }
        i += 1;
    }
    assert(views.take(i as int) =~= views);
    out
}

impl<D> Handle<D> {
    /// Takes note that the server has broken the rules of the protocol.
    pub(super) fn fail_protocol(&mut self, message: String)
        ensures
            final(self)@ == old(self)@.protocol_failure(message@),
    {
        self.last_error = Some(
            WaylandError::Protocol(
                ProtocolError { code: 0, object_id: 0, object_interface: "", message },
            ),
        );
    }

    /// The interface of the object that has a number, if there is one.
    pub fn interface_at(&self, number: u32) -> (r: Option<&'static Interface>)
        ensures
            r == match self@.map.find(number) {
                Some(object) => Some(object.interface),
                None => None,
            },
    {
        match self.map.find(number) {
            Some(object) => Some(object.interface),
            None => None,
        }
    }

    /// The signature of an event, if its object exists and has such an event.
    pub fn event_signature(&self, sender_id: u32, opcode: u16) -> (r: Option<
        &'static [ArgumentType],
    >)
        ensures
            match r {
                Some(signature) => self@.map.objects.contains_key(sender_id) && opcode
                    < self@.map.objects[sender_id].interface.events@.len() && signature@
                    == self@.event(sender_id, opcode).signature@,
                None => !self@.map.objects.contains_key(sender_id) || opcode
                    >= self@.map.objects[sender_id].interface.events@.len(),
            },
    {
        match self.interface_at(sender_id) {
            Some(interface) => if (opcode as usize) < interface.events.len() {
                Some(interface.events[opcode as usize].signature)
            } else {
                None
            },
            None => None,
        }
    }

    /// Whether the server may name an object.
    fn may_name(&self, number: u32, expected: Option<&'static Interface>) -> (r: bool)
        ensures
            r == (self@.object_complaint(number, expected) is None),
    {
        match (self.map.find(number), expected) {
            (Some(object), Some(expected)) => same_interface(expected, object.interface)
                || same_interface(expected, anonymous_interface()),
            (Some(_), None) => true,
            (None, _) => false,
        }
    }

    /// Gives the identifier of an object that the server names, where it may name it.
    pub fn identify_object(&mut self, number: u32, expected: Option<&'static Interface>) -> (r:
        Result<Id, ()>)
        ensures
            match old(self)@.object_complaint(number, expected) {
                Some(message) => r is Err && final(self)@ == old(self)@.protocol_failure(message),
                None => r == Ok::<Id, ()>(old(self)@.identify(number)) && final(self)@ == old(
                    self,
                )@,
            },
    {
        let (serial, interface): (u32, &'static Interface) = match self.map.find(number) {
            Some(object) => (object.data.serial, object.interface),
            None => {
                let mut text: String = "Unknown object ".to_owned();
                text.append(decimal_text(number).as_str());
                text.append(".");
                self.fail_protocol(text);
                return Err(());
            },
        };
        if let Some(expected) = expected {
            if !same_interface(expected, interface) && !same_interface(
                expected,
                anonymous_interface(),
            ) {
                let mut text: String = "Protocol error: server sent object ".to_owned();
                text.append(decimal_text(number).as_str());
                text.append(" for interface ");
                text.append(expected.name);
                text.append(", but it has interface ");
                text.append(interface.name);
                text.append(".");
                self.fail_protocol(text);
                return Err(());
            }
        }
        Ok(Id { serial, id: number, interface })
    }

    /// Takes up an object that an event of `creator` creates, with the data that the user keeps
    /// with it. It fails where the server may not use the number.
    pub fn adopt_child(
        &mut self,
        creator: &Object<Data<D>>,
        interface: &'static Interface,
        number: u32,
        data: Arc<D>,
    ) -> (r: Result<Id, ()>)
        requires
            old(self)@.wf(),
        ensures
            final(self)@.wf(),
            if old(self)@.accepts_new_id(number) {
                &&& r == Ok::<Id, ()>(old(self)@.new_id(interface, number))
                &&& final(self)@ == old(self)@.adopted(*creator, interface, number, data)
            } else {
                &&& r is Err
                &&& final(self)@ == old(self)@.refused(interface, number)
            },
    {
        proof {
            lemma_vacated(self@, number);
            if self@.accepts_new_id(number) {
                lemma_adopted(self@, *creator, interface, number, data);
            }
        }
        if number >= SERVER_ID_LIMIT {
            let destroyed: bool = match self.map.find(number) {
                Some(object) => object.data.client_destroyed,
                None => false,
            };
            if destroyed {
                self.map.remove(number);
            }
        }
        assert(self@ == old(self)@.vacated(number));
        let serial: u32 = self.next_serial();
        let child = Object {
            interface,
            version: creator.version,
            data: Data {
                client_destroyed: creator.data.client_destroyed,
                server_destroyed: false,
                user_data: Some(data),
                serial,
            },
        };
        match self.map.insert_at(number, child) {
            Ok(()) => Ok(Id { serial, id: number, interface }),
            Err(()) => {
                let mut text: String =
                    "Protocol error: server tried to create an object \"".to_owned();
                text.append(interface.name);
                text.append("\" with invalid id ");
                text.append(decimal_text(number).as_str());
                text.append(".");
                self.fail_protocol(text);
                Err(())
            },
        }
    }
}

/// Why an event must not be handled.
#[derive(Clone, Copy, PartialEq, Eq, Structural, Debug)]
pub enum EventFault {
    /// The object of the event does not exist, or has no such event, or the event is one of the
    /// display and carries something else.
    Unreadable,
    /// The event creates an object, and it is not known of which interface.
    UntypedChild,
    /// The event has more arguments than a message can have.
    TooLong,
}

impl<D> HandleView<D> {
    /// Why a message must not be handled, if there is a reason.
    pub open spec fn event_fault(self, message: Message) -> Option<EventFault> {
        let (sender_id, opcode, args) = (message.sender_id, message.opcode, message.args@);
        if !self.is_readable(sender_id, opcode, args) {
            Some(EventFault::Unreadable)
        } else if !self.has_typed_children(self.event(sender_id, opcode), args) {
            Some(EventFault::UntypedChild)
        } else if args.len() > MAX_ARGS {
            Some(EventFault::TooLong)
        } else {
            None
        }
    }
}

impl<D> Handle<D> {
    /// Whether no argument of an event creates an object, up to the first that breaks the rules
    /// of the protocol.
    fn check_children(&self, desc: &MessageDesc, args: &[Argument<u32>]) -> (r: bool)
        requires
            desc.child_interface is None,
        ensures
            r == self@.has_typed_children(*desc, arg_views(args@)),
    {
        let ghost views = arg_views(args@);
        let mut place: usize = 0;
        let mut i: usize = 0;
        while i < args.len()
            invariant
                i <= args.len(),
                views == arg_views(args@),
                desc.child_interface is None,
                place <= i,
                place == objects_before(views, i as int),
                forall|j: int| 0 <= j < i ==> !(#[trigger] views[j] is NewId),
                forall|j: int| 0 <= j < i ==> !#[trigger] self@.is_wrong_object(*desc, views, j),
            decreases args.len() - i,
        {
            assert(views[i as int] == args@[i as int]@);
            match &args[i] {
                Argument::NewId(_) => {
                    assert(views[i as int] is NewId);
                    return false;
                },
                Argument::Object(number) => if *number != 0 {
                    let expected: Option<&'static Interface> = if place
                        < desc.arg_interfaces.len() {
                        Some(desc.arg_interfaces[place])
                    } else {
                        None
                    };
                    place += 1;
                    if !self.may_name(*number, expected) {
                        assert(self@.is_wrong_object(*desc, views, i as int));
                        assert forall|k: int|
                            0 <= k < views.len() && #[trigger] views[k] is NewId implies exists|
                            j: int,
                        | 0 <= j < k && #[trigger] self@.is_wrong_object(*desc, views, j) by {
                            assert(i < k);
                        }
                        return true;
                    }
                },
                _ => {},
            }
            i += 1;
        }
        true
    }

    /// Why a message must not be handled, if there is a reason.
    pub fn check_event(&self, message: &Message) -> (r: Option<EventFault>)
        ensures
            r == self@.event_fault(*message),
    {
        let args: &[Argument<u32>] = message.args.as_slice();
        let interface: &'static Interface = match self.interface_at(message.sender_id) {
            Some(interface) => interface,
            None => {
                return Some(EventFault::Unreadable);
            },
        };
        if message.opcode as usize >= interface.events.len() {
            return Some(EventFault::Unreadable);
        }
        if message.sender_id == 1 && !check_display_event(message.opcode, args) {
            return Some(EventFault::Unreadable);
        }
        let desc: &MessageDesc = &interface.events[message.opcode as usize];
        if desc.child_interface.is_none() && !self.check_children(desc, args) {
            return Some(EventFault::UntypedChild);
        }
        if args.len() > MAX_ARGS {
            Some(EventFault::TooLong)
        } else {
            None
        }
    }
}

impl<D: ObjectData> Handle<D> {
    /// Handles an event of an object other than the display.
    ///
    /// The arguments are read in order. An object that is named is looked up, an object that is
    /// created is taken up, with data that the user makes from that of the receiver. Whatever
    /// that data is, the event ends as one with this data.
    pub fn handle_event(&mut self, message: &Message) -> (r: EventOutcome<D>)
        requires
            old(self)@.wf(),
            message.sender_id != 1,
            old(self)@.event_fault(*message) is None,
        ensures
            final(self)@.wf(),
            exists|children: Seq<Option<Arc<D>>>| #[trigger]
                old(self)@.has_children(
                    message.sender_id,
                    message.opcode,
                    message.args@,
                    children,
                ) && old(self)@.event_ends(*message, children, final(self)@, r),
            r matches EventOutcome::Delivered(delivery) ==> {
                let object = old(self)@.map.objects[message.sender_id];
                let desc = object.interface.events@[message.opcode as int];
                &&& !object.data.client_destroyed
                &&& object.data.user_data == Some(delivery.user_data)
                &&& delivery.id.id == message.sender_id
                &&& delivery.id.serial == object.data.serial
                &&& delivery.id.interface == object.interface
                &&& delivery.opcode == message.opcode
                &&& delivery.name@ == desc.name@
                &&& delivery.destroyed == desc.is_destructor
                &&& delivery.args@.len() == message.args@.len()
            },
            r matches EventOutcome::Swallowed(swallowed) ==> {
                let object = old(self)@.map.objects[message.sender_id];
                &&& object.data.client_destroyed
                &&& swallowed.id.id == message.sender_id
                &&& swallowed.args@.len() == message.args@.len()
            },
    {
        let ghost start = self@;
        let ghost views = message.args@;
        let args: &[Argument<u32>] = message.args.as_slice();
        let receiver: Object<Data<D>> = snapshot(self.map.find(message.sender_id).unwrap());
        let desc: &MessageDesc = &receiver.interface.events[message.opcode as usize];
        let user_data: Arc<D> = receiver.data.user_data.as_ref().unwrap().clone();
        let ghost mut children: Seq<Option<Arc<D>>> = Seq::empty();

        let mut out = EventArgs::with_capacity(args.len());
        let mut place: usize = 0;
        let mut i: usize = 0;
        while i < args.len()
            invariant
                i <= args.len(),
                args@.len() <= MAX_ARGS,
                views == arg_views(args@),
                views == message.args@,
                start == old(self)@,
                start.wf(),
                start.map.objects.contains_key(message.sender_id),
                receiver == start.map.objects[message.sender_id],
                *desc == start.event(message.sender_id, message.opcode),
                start.has_typed_children(*desc, views),
                desc.child_interface is None ==> {
                    &&& self@ == start
                    &&& forall|j: int|
                        0 <= j < i ==> !#[trigger] start.is_wrong_object(*desc, views, j)
                },
                receiver.data.user_data == Some(user_data),
                self@.wf(),
                children.len() == i,
                start.convert(receiver, *desc, views, children, i as nat) == (Conversion {
                    state: self@,
                    args: out@,
                    failed: false,
                }),
                out@.len() == i,
                place <= i,
                place == objects_before(views, i as int),
                forall|other: u32| #[trigger]
                    start.map.objects.contains_key(other)
                        && !start.map.objects[other].data.client_destroyed ==> self@.map.find(other)
                        == Some(start.map.objects[other]),
                forall|j: int|
                    0 <= j < i && #[trigger] views[j] is NewId ==> children[j] is Some
                        && call_ensures(
                        D::make_child,
                        (
                            &*user_data,
                            &ObjectInfo {
                                id: views[j]->NewId_0,
                                interface: desc.child_interface->0,
                                version: receiver.version,
                            },
                        ),
                        children[j]->0,
                    ),
            decreases args.len() - i,
        {
            let ghost before = self@;
            let ghost mut child: Option<Arc<D>> = None;
            assert(views[i as int] == args@[i as int]@);
            let read: Result<Argument<Id>, ()> = match args[i].clone() {
                Argument::Int(v) => Ok(Argument::Int(v)),
                Argument::Uint(v) => Ok(Argument::Uint(v)),
                Argument::Fixed(v) => Ok(Argument::Fixed(v)),
                Argument::Str(v) => Ok(Argument::Str(v)),
                Argument::Array(v) => Ok(Argument::Array(v)),
                Argument::Fd(v) => Ok(Argument::Fd(v)),
                Argument::Object(number) => if number == 0 {
                    Ok(
                        Argument::Object(
                            Id { serial: 0, id: 0, interface: anonymous_interface() },
                        ),
                    )
                } else {
                    let expected: Option<&'static Interface> = if place
                        < desc.arg_interfaces.len() {
                        Some(desc.arg_interfaces[place])
                    } else {
                        None
                    };
                    place += 1;
                    match self.identify_object(number, expected) {
                        Ok(id) => Ok(Argument::Object(id)),
                        Err(()) => Err(()),
                    }
                },
                Argument::NewId(number) => {
                    assert(views[i as int] is NewId);
                    let interface: &'static Interface = desc.child_interface.unwrap();
                    let info = ObjectInfo { id: number, interface, version: receiver.version };
                    let data: Arc<D> = user_data.make_child(&info);
                    proof {
                        child = Some(data);
                        if before.accepts_new_id(number) {
                            lemma_adopted(before, receiver, interface, number, data);
                        }
                    }
                    match self.adopt_child(&receiver, interface, number, data) {
                        Ok(id) => Ok(Argument::NewId(id)),
                        Err(()) => Err(()),
                    }
                },
            };
            proof {
                lemma_convert_prefix(
                    start,
                    receiver,
                    *desc,
                    views,
                    children,
                    child,
                    i as nat,
                );
                children = children.push(child);
            }
            match read {
                Ok(arg) => {
                    out.push(arg);
                },
                Err(()) => {
                    assert(start.has_children(
                        message.sender_id,
                        message.opcode,
                        views,
                        children,
                    ));
                    return EventOutcome::Failed;
                },
            }
            i += 1;
        }
        assert(start.has_children(message.sender_id, message.opcode, views, children));

        let id = Id {
            serial: receiver.data.serial,
            id: message.sender_id,
            interface: receiver.interface,
        };
        if receiver.data.client_destroyed {
            let fds: Vec<i32> = collect_fds(&out);
            return EventOutcome::Swallowed(Swallowed { id, name: desc.name, args: out, fds });
        }
        if desc.is_destructor {
            proof {
                lemma_event_destroys_wf(self@, message.sender_id);
            }
            match self.map.get_mut(message.sender_id) {
                Some(object) => {
                    object.data.server_destroyed = true;
                    object.data.client_destroyed = true;
                },
                None => {},
            }
        }
        EventOutcome::Delivered(
            Delivery {
                user_data,
                id,
                opcode: message.opcode,
                name: desc.name,
                destroyed: desc.is_destructor,
                args: out,
            },
        )
    }
}

/// An event that destroys an object other than the display keeps the state well formed.
pub proof fn lemma_event_destroys_wf<D>(handle: HandleView<D>, id: u32)
    requires
        handle.wf(),
        handle.map.objects.contains_key(id),
        id != 1,
    ensures
        handle.event_destroys(id).wf(),
{
    let after = handle.event_destroys(id);
    lemma_map_wf(handle.map, id, after.map.objects[id]);
    assert forall|other: u32| #[trigger] after.map.objects.contains_key(other) implies (
    after.map.objects[other].data.user_data is None <==> other == 1) by {
        assert(handle.map.objects.contains_key(other));
    }
}

} // verus!
