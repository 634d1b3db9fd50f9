//! What holds of a connection as a whole.

use std::sync::Arc;

use vstd::prelude::*;

use super::constructor::lemma_with_child;
use super::display::lemma_display_event_shape;
use super::event::{lemma_adopted, EventOutcome};
use super::model::{fds, objects_before, wire_args, HandleView, RequestFault, Verdict};
use super::{Data, Id};
use crate::map::{lemma_lowest_free, lemma_lowest_free_is_available, Object, SERVER_ID_LIMIT};
use crate::protocol::{
    fits_signature, same_interface_spec, wl_display_interface_spec, AllowNull, ArgumentType,
    ArgumentView, ErrorView, Interface, MessageDesc,
};
use crate::wire::Message;

verus! {

/// The display is there at all times, and is never destroyed by the client.
pub proof fn law_display_is_always_there<D>(handle: HandleView<D>, display: Id)
    requires
        handle.wf(),
        display == (Id { serial: 0, id: 1, interface: wl_display_interface_spec() }),
    ensures
        handle.get(display) is Some,
        handle.get(display)->0.interface == wl_display_interface_spec(),
        handle.get(display)->0.version == 1,
        !handle.get(display)->0.data.client_destroyed,
{
}

/// No object has the number of the null identifier.
pub proof fn law_null_is_no_object<D>(handle: HandleView<D>, id: Id)
    requires
        handle.wf(),
        id.id == 0,
    ensures
        handle.get(id) is None,
{
    if handle.map.objects.contains_key(0) {
        assert(handle.map.is_used(0));
    }
}

/// A request to an object that does not exist, or that the client has destroyed, is refused as
/// one to an invalid object, whatever else is wrong with it.
pub proof fn law_dead_objects_take_no_requests<D>(
    handle: HandleView<D>,
    id: Id,
    opcode: u16,
    args: Seq<ArgumentView<Id>>,
    has_data: bool,
)
    requires
        handle.get(id) is None || handle.get(id)->0.data.client_destroyed,
    ensures
        handle.request_verdict(id, opcode, args) == Verdict::InvalidId,
        handle.constructor_verdict(id, opcode, args, has_data) == Verdict::InvalidId,
{
}

/// A destructor destroys its object: it is still known, but takes no more requests. Every other
/// object stays as it is.
pub proof fn law_destructor_destroys<D>(
    handle: HandleView<D>,
    id: Id,
    desc: MessageDesc,
    opcode: u16,
    args: Seq<ArgumentView<Id>>,
)
    requires
        handle.wf(),
        handle.get(id) is Some,
        desc.is_destructor,
    ensures
        handle.after_request(id, desc).get(id) == Some(
            Object {
                data: Data { client_destroyed: true, ..handle.get(id)->0.data },
                ..handle.get(id)->0
            },
        ),
        handle.after_request(id, desc).request_verdict(id, opcode, args) == Verdict::InvalidId,
        forall|other: Id|
            other.id != id.id ==> #[trigger] handle.after_request(id, desc).get(other)
                == handle.get(other),
{
}

/// An object that the client has destroyed and that the server then gives up is gone: its
/// identifier is invalid and its number can be used again. If it was one of the client's, the
/// next object of the client gets a number that is no higher.
pub proof fn law_destroyed_and_deleted_is_free<D>(handle: HandleView<D>, id: Id)
    requires
        handle.wf(),
        handle.get(id) is Some,
        handle.get(id)->0.data.client_destroyed,
    ensures
        handle.id_deleted(id.id).get(id) is None,
        handle.id_deleted(id.id).map.is_available(id.id),
        id.id < SERVER_ID_LIMIT ==> {
            &&& handle.id_deleted(id.id).map.has_room()
            &&& handle.id_deleted(id.id).map.lowest_free() <= id.id
        },
        forall|other: Id|
            other.id != id.id ==> #[trigger] handle.id_deleted(id.id).get(other) == handle.get(
                other,
            ),
{
    let after = handle.id_deleted(id.id);
    assert(handle.map.is_used(id.id));
    if id.id < SERVER_ID_LIMIT {
        lemma_room_below(after, id.id, 1);
    }
}

/// A free number of the client means that there is a lowest one.
proof fn lemma_room_below<D>(handle: HandleView<D>, free: u32, from: u32)
    requires
        1 <= from <= free < SERVER_ID_LIMIT,
        !handle.map.objects.contains_key(free),
        forall|other: u32| 1 <= other < from ==> #[trigger] handle.map.objects.contains_key(other),
    ensures
        handle.map.has_room(),
        handle.map.lowest_free() <= free,
    decreases free - from,
{
    if handle.map.objects.contains_key(from) {
        lemma_room_below(handle, free, (from + 1) as u32);
    } else {
        assert(handle.map.is_lowest_free(from));
        lemma_lowest_free(handle.map, from);
    }
}

/// An id that the server gives up while the client still uses the object stays taken: the object
/// is only marked.
pub proof fn law_delete_waits_for_the_client<D>(handle: HandleView<D>, id: Id)
    requires
        handle.get(id) is Some,
        !handle.get(id)->0.data.client_destroyed,
    ensures
        handle.id_deleted(id.id).get(id) == Some(
            Object {
                data: Data { server_destroyed: true, ..handle.get(id)->0.data },
                ..handle.get(id)->0
            },
        ),
        forall|other: Id|
            other.id != id.id ==> #[trigger] handle.id_deleted(id.id).get(other) == handle.get(
                other,
            ),
{
}

/// A new object of the client can be used at once, under the identifier that its constructor
/// gives, and it is of the interface and version that were asked for. The placeholder is used
/// up. Every other object stays as it is.
pub proof fn law_new_object_is_valid<D>(
    handle: HandleView<D>,
    id: Id,
    opcode: u16,
    data: Arc<D>,
)
    requires
        handle.wf(),
        handle.map.has_room(),
    ensures
        handle.get(handle.child_id(id, opcode)) is None,
        handle.with_child(id, opcode, data).get(handle.child_id(id, opcode)) == Some(
            Object {
                interface: handle.child_info(id, opcode).interface,
                version: handle.child_info(id, opcode).version,
                data: Data {
                    client_destroyed: false,
                    server_destroyed: false,
                    user_data: Some(data),
                    serial: handle.next_serial(),
                },
            },
        ),
        1 < handle.child_id(id, opcode).id < SERVER_ID_LIMIT,
        handle.with_child(id, opcode, data).last_serial == handle.child_id(id, opcode).serial,
        handle.with_child(id, opcode, data).pending is None,
        forall|other: Id|
            other.id != handle.child_id(id, opcode).id ==> #[trigger] handle.with_child(
                id,
                opcode,
                data,
            ).get(other) == handle.get(other),
{
    lemma_with_child(handle, id, opcode, data);
    lemma_lowest_free_is_available(handle.map);
}

/// An identifier does not outlive its object: when its number is used for a new object, it is
/// invalid, as long as the serials have not come round to its own.
pub proof fn law_stale_identifiers_are_invalid<D>(
    handle: HandleView<D>,
    stale: Id,
    id: Id,
    opcode: u16,
    data: Arc<D>,
)
    requires
        stale.id == handle.child_id(id, opcode).id,
        stale.serial != handle.next_serial(),
    ensures
        handle.with_child(id, opcode, data).get(stale) is None,
{
}

/// The serial after `n` more objects.
pub open spec fn serial_after(serial: u32, n: nat) -> u32 {
    ((serial + n) % 0x1_0000_0000) as u32
}

/// Serials go up by one with each object, and come round only after all of them were used: two
/// objects with fewer than that many created between them have different serials. The first one
/// of a connection is 1, which is not that of the display.
pub proof fn law_serials_come_round_late<D>(
    handle: HandleView<D>,
    n: nat,
    m: nat,
    debug: bool,
)
    requires
        n < m < n + 0x1_0000_0000,
    ensures
        handle.next_serial() == serial_after(handle.last_serial, 1),
        serial_after(serial_after(handle.last_serial, n), 1) == serial_after(
            handle.last_serial,
            n + 1,
        ),
        serial_after(handle.last_serial, n) != serial_after(handle.last_serial, m),
        HandleView::<D>::connected(debug).next_serial() == 1,
        HandleView::<D>::connected(debug).map.objects[1].data.serial == 0,
{
}

/// The arguments of a constructor are looked up among the objects that are there once the new
/// one is.
pub proof fn law_arguments_see_the_new_object<D>(
    handle: HandleView<D>,
    id: Id,
    opcode: u16,
    data: Arc<D>,
    argument: Id,
)
    requires
        handle.wf(),
        handle.map.has_room(),
    ensures
        handle.interface_of(argument, Some(handle.child_id(id, opcode))) == (match handle.with_child(
            id,
            opcode,
            data,
        ).get(argument) {
            Some(object) => Some(object.interface),
            None => None,
        }),
{
    lemma_with_child(handle, id, opcode, data);
    assert(argument.id != handle.map.lowest_free() ==> handle.with_child(
        id,
        opcode,
        data,
    ).map.find(argument.id) == handle.map.find(argument.id));
}

/// A placeholder decides what the next constructor creates. Without one, a request that creates
/// an object of any interface is a misuse.
pub proof fn law_placeholder_decides<D>(
    handle: HandleView<D>,
    kind: Option<(&'static Interface, u32)>,
    id: Id,
    opcode: u16,
    args: Seq<ArgumentView<Id>>,
    has_data: bool,
)
    requires
        handle.entry_verdict(id, opcode, args) is Accepted,
    ensures
        kind is Some ==> (HandleView { pending: kind, ..handle }).child_kind(id, opcode) == kind,
        kind is None && handle.request(id, opcode).child_interface is None ==> (HandleView {
            pending: kind,
            ..handle
        }).constructor_verdict(id, opcode, args, has_data) == Verdict::Fault(
            RequestFault::MissingPlaceholder,
        ),
{
    let with = HandleView { pending: kind, ..handle };
    assert(with.get(id) == handle.get(id));
    assert(with.entry_verdict(id, opcode, args) == handle.entry_verdict(id, opcode, args));
}

/// A request is accepted only where each of its arguments is.
pub proof fn law_accepted_arguments<D>(
    handle: HandleView<D>,
    desc: MessageDesc,
    args: Seq<ArgumentView<Id>>,
    child: Option<Id>,
)
    ensures
        handle.args_verdict(desc, args, 0, child) is Accepted <==> forall|i: int|
            0 <= i < args.len() ==> #[trigger] handle.arg_verdict(desc, args, i, child) is Accepted,
{
    lemma_accepted_from(handle, desc, args, child, 0);
}

proof fn lemma_accepted_from<D>(
    handle: HandleView<D>,
    desc: MessageDesc,
    args: Seq<ArgumentView<Id>>,
    child: Option<Id>,
    from: int,
)
    requires
        0 <= from <= args.len(),
    ensures
        handle.args_verdict(desc, args, from, child) is Accepted <==> forall|i: int|
            from <= i < args.len() ==> #[trigger] handle.arg_verdict(desc, args, i, child)
                is Accepted,
    decreases args.len() - from,
{
    if from < args.len() {
        lemma_accepted_from(handle, desc, args, child, from + 1);
        if handle.args_verdict(desc, args, from, child) is Accepted {
            assert forall|i: int| from <= i < args.len() implies #[trigger] handle.arg_verdict(
                desc,
                args,
                i,
                child,
            ) is Accepted by {
                if i > from {
                    assert(from + 1 <= i);
                }
            }
        } else {
            if handle.arg_verdict(desc, args, from, child) is Accepted {
                assert(!(handle.args_verdict(desc, args, from + 1, child) is Accepted));
            }
        }
    }
}

/// A request that is sent names only objects that exist, each of the interface that the request
/// describes for it, and no object only where that is allowed.
pub proof fn law_sent_requests_name_valid_objects<D>(
    handle: HandleView<D>,
    desc: MessageDesc,
    args: Seq<ArgumentView<Id>>,
    child: Option<Id>,
    i: int,
)
    requires
        handle.args_verdict(desc, args, 0, child) is Accepted,
        0 <= i < args.len(),
        args[i] is Object,
    ensures
        args[i]->Object_0.id == 0 ==> desc.signature@[i] == ArgumentType::Object(AllowNull::Yes),
        args[i]->Object_0.id != 0 ==> {
            let place = objects_before(wire_args(args, child), i);
            &&& handle.interface_of(args[i]->Object_0, child) is Some
            &&& place < desc.arg_interfaces@.len()
            &&& same_interface_spec(
                desc.arg_interfaces@[place],
                handle.interface_of(args[i]->Object_0, child)->0,
            )
        },
{
    law_accepted_arguments(handle, desc, args, child);
    assert(handle.arg_verdict(desc, args, i, child) is Accepted);
}

/// A message that was read with the signature of its event is one that can be made sense of.
pub proof fn law_parsed_messages_are_readable<D>(
    handle: HandleView<D>,
    sender_id: u32,
    opcode: u16,
    args: Seq<ArgumentView<u32>>,
)
    requires
        handle.wf(),
        handle.map.find(sender_id) is Some,
        opcode < handle.map.find(sender_id)->0.interface.events@.len(),
        fits_signature(
            handle.map.find(sender_id)->0.interface.events@[opcode as int].signature@,
            args,
        ),
    ensures
        handle.is_readable(sender_id, opcode, args),
{
    if sender_id == 1 {
        lemma_display_event_shape(opcode, args);
    }
}

/// The server may use a number for a new object where it is free and in order, or where it is
/// one of its own whose object the client has destroyed. An object that the client has not
/// destroyed never gives way.
pub proof fn law_only_destroyed_objects_give_way<D>(handle: HandleView<D>, number: u32)
    requires
        handle.wf(),
    ensures
        handle.accepts_new_id(number) <==> {
            ||| handle.map.is_available(number)
            ||| number >= SERVER_ID_LIMIT && handle.map.objects.contains_key(number)
                && handle.map.objects[number].data.client_destroyed
        },
        !handle.accepts_new_id(0),
        !handle.accepts_new_id(1),
{
    if handle.map.objects.contains_key(number) {
        assert(handle.map.is_used(number));
    }
}

/// Reading an event keeps the state well formed, and leaves every object as it is that the client
/// has not destroyed. Where it fails, the failure is kept as the last error.
pub proof fn law_reading_keeps_live_objects<D>(
    handle: HandleView<D>,
    receiver: Object<Data<D>>,
    desc: MessageDesc,
    args: Seq<ArgumentView<u32>>,
    children: Seq<Option<Arc<D>>>,
    n: nat,
)
    requires
        handle.wf(),
    ensures
        ({
            let conversion = handle.convert(receiver, desc, args, children, n);
            &&& conversion.state.wf()
            &&& conversion.state.pending == handle.pending
            &&& conversion.state.debug == handle.debug
            &&& conversion.failed ==> (conversion.state.last_error matches Some(
                ErrorView::Protocol { code: 0, object_id: 0, .. },
            ))
            &&& !conversion.failed ==> conversion.state.last_error == handle.last_error
            &&& !conversion.failed ==> conversion.args.len() == n
            &&& forall|other: u32| #[trigger]
                handle.map.objects.contains_key(other)
                    && !handle.map.objects[other].data.client_destroyed
                    ==> conversion.state.map.find(other) == Some(handle.map.objects[other])
        }),
    decreases n,
{
    if n > 0 {
        let k = (n - 1) as nat;
        law_reading_keeps_live_objects(handle, receiver, desc, args, children, k);
        let before = handle.convert(receiver, desc, args, children, k);
        if !before.failed {
            if let ArgumentView::NewId(number) = args[k as int] {
                if before.state.accepts_new_id(number) {
                    lemma_adopted(
                        before.state,
                        receiver,
                        desc.child_interface->0,
                        number,
                        children[k as int]->0,
                    );
                }
            }
        }
    }
}

/// Every object that an event creates can be used, under the identifier that the event gives,
/// where the event is one of an object that the client has not destroyed.
pub proof fn law_created_objects_are_valid<D>(
    handle: HandleView<D>,
    receiver: Object<Data<D>>,
    desc: MessageDesc,
    args: Seq<ArgumentView<u32>>,
    children: Seq<Option<Arc<D>>>,
    n: nat,
    i: int,
)
    requires
        handle.wf(),
        !receiver.data.client_destroyed,
        !handle.convert(receiver, desc, args, children, n).failed,
        0 <= i < n,
        args[i] is NewId,
    ensures
        ({
            let conversion = handle.convert(receiver, desc, args, children, n);
            &&& conversion.args[i] is NewId
            &&& conversion.args[i]->NewId_0.id == args[i]->NewId_0
            &&& conversion.state.get(conversion.args[i]->NewId_0) matches Some(object)
            &&& object.interface == desc.child_interface->0
            &&& object.version == receiver.version
            &&& object.data.user_data == Some(children[i]->0)
            &&& !object.data.client_destroyed
        }),
    decreases n,
{
    let k = (n - 1) as nat;
    let before = handle.convert(receiver, desc, args, children, k);
    law_reading_keeps_live_objects(handle, receiver, desc, args, children, k);
    if i < k {
        law_created_objects_are_valid(handle, receiver, desc, args, children, k, i);
    }
    if let ArgumentView::NewId(number) = args[k as int] {
        assert(before.state.accepts_new_id(number));
        lemma_adopted(
            before.state,
            receiver,
            desc.child_interface->0,
            number,
            children[k as int]->0,
        );
    }
    if i < k {
        let made = before.args[i]->NewId_0;
        assert(before.state.map.objects.contains_key(made.id));
    }
}

/// An event of an object that the client has destroyed reaches nobody, and one of any other
/// object reaches its user, unless it breaks the rules of the protocol.
pub proof fn law_who_gets_an_event<D>(
    handle: HandleView<D>,
    message: Message,
    children: Seq<Option<Arc<D>>>,
    after: HandleView<D>,
    outcome: EventOutcome<D>,
)
    requires
        handle.event_ends(message, children, after, outcome),
    ensures
        handle.map.objects[message.sender_id].data.client_destroyed ==> !(outcome is Delivered),
        !handle.map.objects[message.sender_id].data.client_destroyed ==> !(outcome is Swallowed),
        outcome is Failed <==> handle.converted(
            message.sender_id,
            message.opcode,
            message.args@,
            children,
        ).failed,
{
}

/// After an event that destroys its object, the object takes no more requests, gets no more
/// events, and its id is free as soon as the server gives it up.
pub proof fn law_destructor_event_destroys<D>(
    handle: HandleView<D>,
    message: Message,
    children: Seq<Option<Arc<D>>>,
    after: HandleView<D>,
    outcome: EventOutcome<D>,
    opcode: u16,
    args: Seq<ArgumentView<Id>>,
)
    requires
        handle.wf(),
        handle.map.objects.contains_key(message.sender_id),
        handle.event(message.sender_id, message.opcode).is_destructor,
        handle.event_ends(message, children, after, outcome),
        outcome is Delivered,
    ensures
        after.get(handle.identify(message.sender_id)) is Some,
        after.map.objects[message.sender_id].data.client_destroyed,
        after.map.objects[message.sender_id].data.server_destroyed,
        after.request_verdict(handle.identify(message.sender_id), opcode, args)
            == Verdict::InvalidId,
        after.id_deleted(message.sender_id).get(handle.identify(message.sender_id)) is None,
{
    law_reading_keeps_live_objects(
        handle,
        handle.map.objects[message.sender_id],
        handle.event(message.sender_id, message.opcode),
        message.args@,
        children,
        children.len(),
    );
}

/// When the server uses a number again, the identifiers of the object that had it before are
/// invalid, as long as the serials have not come round to theirs.
pub proof fn law_replaced_identifiers_are_invalid<D>(
    handle: HandleView<D>,
    creator: Object<Data<D>>,
    interface: &'static Interface,
    number: u32,
    data: Arc<D>,
    stale: Id,
)
    requires
        handle.wf(),
        handle.accepts_new_id(number),
        stale.id == number,
        stale.serial != handle.next_serial(),
    ensures
        handle.adopted(creator, interface, number, data).get(stale) is None,
        handle.adopted(creator, interface, number, data).get(handle.new_id(interface, number))
            is Some,
        handle.adopted(creator, interface, number, data).last_serial == handle.new_id(
            interface,
            number,
        ).serial,
{
}

/// Every file descriptor of an event that nobody gets is closed, and nothing else is.
pub proof fn law_no_descriptor_is_lost(args: Seq<ArgumentView<Id>>, fd: i32)
    ensures
        fds(args).contains(fd) <==> args.contains(ArgumentView::Fd(fd)),
        fds(args).len() <= args.len(),
    decreases args.len(),
{
    if args.len() > 0 {
        let before = args.drop_last();
        law_no_descriptor_is_lost(before, fd);
        assert(args =~= before.push(args.last()));
        if before.contains(ArgumentView::Fd(fd)) {
            let i = choose|i: int| 0 <= i < before.len() && before[i] == ArgumentView::<Id>::Fd(fd);
            assert(args[i] == before[i]);
        }
        if args.contains(ArgumentView::Fd(fd)) && args.last() != ArgumentView::<Id>::Fd(fd) {
            let i = choose|i: int| 0 <= i < args.len() && args[i] == ArgumentView::<Id>::Fd(fd);
            assert(before[i] == args[i]);
        }
        if let ArgumentView::Fd(last) = args.last() {
            let all = fds(args);
            assert(all =~= fds(before).push(last));
            assert(all[all.len() - 1] == last);
            if fds(before).contains(fd) {
                let i = choose|i: int| 0 <= i < fds(before).len() && fds(before)[i] == fd;
                assert(all[i] == fd);
            }
            if all.contains(fd) && last != fd {
                let i = choose|i: int| 0 <= i < all.len() && all[i] == fd;
                assert(fds(before)[i] == fd);
            }
            assert(args[args.len() - 1] == ArgumentView::<Id>::Fd(last));
        }
    }
}

/// Whether two objects differ at most in what users keep with them.
pub open spec fn alike<D>(a: Object<Data<D>>, b: Object<Data<D>>) -> bool {
    &&& a.interface == b.interface
    &&& a.version == b.version
    &&& a.data.client_destroyed == b.data.client_destroyed
    &&& a.data.server_destroyed == b.data.server_destroyed
    &&& a.data.serial == b.data.serial
}

/// Whether two states differ at most in what users keep with their objects.
pub open spec fn same_but_for_data<D>(a: HandleView<D>, b: HandleView<D>) -> bool {
    &&& a.last_error == b.last_error
    &&& a.last_serial == b.last_serial
    &&& a.pending == b.pending
    &&& a.debug == b.debug
    &&& a.map.clients == b.map.clients
    &&& a.map.servers == b.map.servers
    &&& a.map.objects.dom() == b.map.objects.dom()
    &&& forall|id: u32| #[trigger]
        a.map.objects.contains_key(id) ==> alike(a.map.objects[id], b.map.objects[id])
}

/// The data that users make for new objects decides nothing: whatever it is, an event is read in
/// the same way, and leaves the same behind, but for that data.
pub proof fn law_data_decides_nothing<D>(
    handle: HandleView<D>,
    receiver: Object<Data<D>>,
    desc: MessageDesc,
    args: Seq<ArgumentView<u32>>,
    children: Seq<Option<Arc<D>>>,
    others: Seq<Option<Arc<D>>>,
    n: nat,
)
    ensures
        ({
            let a = handle.convert(receiver, desc, args, children, n);
            let b = handle.convert(receiver, desc, args, others, n);
            &&& a.failed == b.failed
            &&& a.args == b.args
            &&& same_but_for_data(a.state, b.state)
        }),
    decreases n,
{
    if n > 0 {
        let k = (n - 1) as nat;
        law_data_decides_nothing(handle, receiver, desc, args, children, others, k);
        let a = handle.convert(receiver, desc, args, children, k);
        let b = handle.convert(receiver, desc, args, others, k);
        if !a.failed {
            match args[k as int] {
                ArgumentView::NewId(number) => {
                    let x = a.state.vacated(number);
                    let y = b.state.vacated(number);
                    assert(a.state.map.objects.dom().contains(number)
                        == b.state.map.objects.dom().contains(number));
                    assert(x.map.objects.dom() =~= y.map.objects.dom());
                    assert(same_but_for_data(x, y)) by {
                        assert forall|id: u32| #[trigger]
                            x.map.objects.contains_key(id) implies alike(
                            x.map.objects[id],
                            y.map.objects[id],
                        ) by {
                            assert(a.state.map.objects.contains_key(id));
                        }
                    }
                    assert(x.map.objects.dom().contains(number)
                        == y.map.objects.dom().contains(number));
                    let p = handle.convert(receiver, desc, args, children, n).state;
                    let q = handle.convert(receiver, desc, args, others, n).state;
                    assert(p.map.objects.dom() =~= q.map.objects.dom());
                    assert forall|id: u32| #[trigger] p.map.objects.contains_key(id) implies alike(
                        p.map.objects[id],
                        q.map.objects[id],
                    ) by {
                        if a.state.accepts_new_id(number) {
                            assert(id == number || x.map.objects.contains_key(id));
                        } else {
                            assert(a.state.map.objects.contains_key(id));
                        }
                    }
                },
                ArgumentView::Object(number) => {
                    assert(a.state.map.objects.dom().contains(number)
                        == b.state.map.objects.dom().contains(number));
                },
                _ => {},
            }
        }
    }
}

} // verus!
