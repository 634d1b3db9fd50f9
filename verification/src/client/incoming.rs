//! What the events of a server come to: how their arguments are read, who gets them, and what they
//! leave behind.

use std::sync::Arc;

use vstd::prelude::*;

use super::dispatch::{DispatchAction, DispatchError};
use super::event::{EventFault, EventOutcome};
use super::laws::{law_created_objects_are_valid, law_reading_keeps_live_objects};
use super::model::{fds, is_display_event, HandleView};
use super::outgoing::law_object_arguments_are_counted;
use super::{Data, Id};
use crate::map::{Object, SERVER_ID_LIMIT};
use crate::protocol::{
    anonymous_interface_spec, ArgumentView, ErrorView, MessageDesc, ObjectData, ObjectInfo,
};
use crate::text::{decimal, utf8_lossy};
use crate::wire::{Message, MAX_ARGS};

verus! {

/// Reading begins with nothing read and nothing changed, and ends with the first argument that
/// breaks the rules of the protocol: nothing is read after it, and nothing changes.
pub proof fn law_reading_ends_with_a_failure<D>(
    handle: HandleView<D>,
    receiver: Object<Data<D>>,
    desc: MessageDesc,
    args: Seq<ArgumentView<u32>>,
    children: Seq<Option<Arc<D>>>,
    n: nat,
)
    ensures
        handle.convert(receiver, desc, args, children, 0).state == handle,
        handle.convert(receiver, desc, args, children, 0).args.len() == 0,
        !handle.convert(receiver, desc, args, children, 0).failed,
        handle.convert(receiver, desc, args, children, n).failed ==> handle.convert(
            receiver,
            desc,
            args,
            children,
            n + 1,
        ) == handle.convert(receiver, desc, args, children, n),
{
}

/// An event is read with the description that the interface of its object gives for its opcode.
pub proof fn law_events_are_read_by_their_description<D>(
    handle: HandleView<D>,
    sender_id: u32,
    opcode: u16,
    args: Seq<ArgumentView<u32>>,
    children: Seq<Option<Arc<D>>>,
)
    ensures
        handle.converted(sender_id, opcode, args, children) == handle.convert(
            handle.map.objects[sender_id],
            handle.map.objects[sender_id].interface.events@[opcode as int],
            args,
            children,
            children.len(),
        ),
{
}

/// Reading a plain value hands it on as it is: the kind and the value stay, and nothing changes.
pub proof fn law_plain_values_are_handed_on<D>(
    handle: HandleView<D>,
    receiver: Object<Data<D>>,
    desc: MessageDesc,
    args: Seq<ArgumentView<u32>>,
    children: Seq<Option<Arc<D>>>,
    n: nat,
)
    requires
        !handle.convert(receiver, desc, args, children, n).failed,
        !(args[n as int] is Object),
        !(args[n as int] is NewId),
    ensures
        ({
            let before = handle.convert(receiver, desc, args, children, n);
            let after = handle.convert(receiver, desc, args, children, n + 1);
            let arg = args[n as int];
            let read = after.args.last();
            &&& !after.failed
            &&& after.state == before.state
            &&& after.args.len() == before.args.len() + 1
            &&& after.args.drop_last() == before.args
            &&& arg is Int ==> read == ArgumentView::<Id>::Int(arg->Int_0)
            &&& arg is Uint ==> read == ArgumentView::<Id>::Uint(arg->Uint_0)
            &&& arg is Fixed ==> read == ArgumentView::<Id>::Fixed(arg->Fixed_0)
            &&& arg is Str ==> read == ArgumentView::<Id>::Str(arg->Str_0)
            &&& arg is Array ==> read == ArgumentView::<Id>::Array(arg->Array_0)
            &&& arg is Fd ==> read == ArgumentView::<Id>::Fd(arg->Fd_0)
        }),
{
    let before = handle.convert(receiver, desc, args, children, n);
    let after = handle.convert(receiver, desc, args, children, n + 1);
    assert(after.args.drop_last() =~= before.args);
}

/// Reading the number of an object gives its identifier. The number 0 gives the null identifier.
/// The object must exist, and have the interface that the event describes for it, where it
/// describes one other than the anonymous interface. Nothing changes, but that a failure is kept
/// as the last error.
pub proof fn law_named_objects_are_identified<D>(
    handle: HandleView<D>,
    receiver: Object<Data<D>>,
    desc: MessageDesc,
    args: Seq<ArgumentView<u32>>,
    children: Seq<Option<Arc<D>>>,
    n: nat,
)
    requires
        n < args.len(),
        !handle.convert(receiver, desc, args, children, n).failed,
        args[n as int] is Object,
    ensures
        ({
            let before = handle.convert(receiver, desc, args, children, n);
            let after = handle.convert(receiver, desc, args, children, n + 1);
            let number = args[n as int]->Object_0;
            let object = before.state.map.objects[number];
            let known = before.state.map.objects.contains_key(number);
            let place = args.take(n as int).filter(
                |a: ArgumentView<u32>| a is Object && a->Object_0 != 0,
            ).len() as int;
            let expected = desc.arg_interfaces@[place];
            let wrong = place < desc.arg_interfaces@.len() && expected.name@
                != object.interface.name@ && expected.name@ != "<anonymous>"@;
            &&& after.state.map == before.state.map
            &&& after.state.last_serial == before.state.last_serial
            &&& after.state.pending == before.state.pending
            &&& after.state.debug == before.state.debug
            &&& after.failed <==> number != 0 && (!known || wrong)
            &&& !after.failed ==> {
                &&& after.state.last_error == before.state.last_error
                &&& after.args.len() == before.args.len() + 1
                &&& after.args.drop_last() == before.args
                &&& after.args.last() is Object
                &&& after.args.last()->Object_0.id == number
                &&& number == 0 ==> after.args.last()->Object_0.serial == 0
                    && after.args.last()->Object_0.interface == anonymous_interface_spec()
                &&& number != 0 ==> after.args.last()->Object_0.serial == object.data.serial
                    && after.args.last()->Object_0.interface == object.interface
            }
            &&& after.failed ==> {
                &&& after.args == before.args
                &&& !known ==> after.state.last_error == Some(
                    ErrorView::Protocol {
                        code: 0,
                        object_id: 0,
                        object_interface: ""@,
                        message: "Unknown object "@ + decimal(number as nat) + "."@,
                    },
                )
                &&& known ==> after.state.last_error == Some(
                    ErrorView::Protocol {
                        code: 0,
                        object_id: 0,
                        object_interface: ""@,
                        message: "Protocol error: server sent object "@ + decimal(number as nat)
                            + " for interface "@ + expected.name@ + ", but it has interface "@
                            + object.interface.name@ + "."@,
                    },
                )
            }
        }),
{
    let before = handle.convert(receiver, desc, args, children, n);
    let after = handle.convert(receiver, desc, args, children, n + 1);
    law_object_arguments_are_counted(Seq::empty(), None, args, n as int);
    if !after.failed {
        assert(after.args.drop_last() =~= before.args);
    }
}

/// Reading the number of a new object creates it: of the interface that the event gives, of the
/// version of its creator, destroyed where its creator is, with the data that was made for it and
/// the next serial. The number must be free and in order, or be one of the server's whose object
/// the client has destroyed, which then is gone. No other object changes. A serial is used up even
/// where the number cannot be used.
pub proof fn law_new_objects_are_created<D>(
    handle: HandleView<D>,
    receiver: Object<Data<D>>,
    desc: MessageDesc,
    args: Seq<ArgumentView<u32>>,
    children: Seq<Option<Arc<D>>>,
    n: nat,
)
    requires
        handle.wf(),
        !handle.convert(receiver, desc, args, children, n).failed,
        args[n as int] is NewId,
    ensures
        ({
            let before = handle.convert(receiver, desc, args, children, n);
            let after = handle.convert(receiver, desc, args, children, n + 1);
            let number = args[n as int]->NewId_0;
            let taken = before.state.map.objects.contains_key(number);
            let free = number != 0 && !taken && if number < SERVER_ID_LIMIT {
                number <= before.state.map.clients + 1
            } else {
                number <= SERVER_ID_LIMIT + before.state.map.servers
            };
            let gives_way = number >= SERVER_ID_LIMIT && taken
                && before.state.map.objects[number].data.client_destroyed;
            let made = after.state.map.objects[number];
            &&& after.failed <==> !free && !gives_way
            &&& before.state.last_serial < u32::MAX ==> after.state.last_serial
                == before.state.last_serial + 1
            &&& before.state.last_serial == u32::MAX ==> after.state.last_serial == 0
            &&& after.state.pending == before.state.pending
            &&& after.state.debug == before.state.debug
            &&& !after.failed ==> {
                &&& after.state.last_error == before.state.last_error
                &&& after.args.len() == before.args.len() + 1
                &&& after.args.drop_last() == before.args
                &&& after.args.last() is NewId
                &&& after.args.last()->NewId_0.id == number
                &&& after.args.last()->NewId_0.serial == after.state.last_serial
                &&& after.args.last()->NewId_0.interface == desc.child_interface->0
                &&& after.state.map.objects.dom() == before.state.map.objects.dom().insert(number)
                &&& made.interface == desc.child_interface->0
                &&& made.version == receiver.version
                &&& made.data.client_destroyed == receiver.data.client_destroyed
                &&& !made.data.server_destroyed
                &&& made.data.user_data == Some(children[n as int]->0)
                &&& made.data.serial == after.state.last_serial
                &&& forall|other: u32|
                    other != number ==> #[trigger] after.state.map.objects[other]
                        == before.state.map.objects[other]
                &&& after.state.map.clients == if number < SERVER_ID_LIMIT && number
                    > before.state.map.clients {
                    number as nat
                } else {
                    before.state.map.clients
                }
                &&& after.state.map.servers == if number >= SERVER_ID_LIMIT && number
                    - SERVER_ID_LIMIT >= before.state.map.servers {
                    (number - SERVER_ID_LIMIT + 1) as nat
                } else {
                    before.state.map.servers
                }
            }
            &&& after.failed ==> {
                &&& after.args == before.args
                &&& after.state.map == before.state.map
                &&& after.state.last_error == Some(
                    ErrorView::Protocol {
                        code: 0,
                        object_id: 0,
                        object_interface: ""@,
                        message: "Protocol error: server tried to create an object \""@
                            + desc.child_interface->0.name@ + "\" with invalid id "@ + decimal(
                            number as nat,
                        ) + "."@,
                    },
                )
            }
        }),
{
    let before = handle.convert(receiver, desc, args, children, n);
    let after = handle.convert(receiver, desc, args, children, n + 1);
    let number = args[n as int]->NewId_0;
    law_reading_keeps_live_objects(handle, receiver, desc, args, children, n);
    if before.state.map.objects.contains_key(number) {
        assert(before.state.map.is_used(number));
    }
    if !after.failed {
        assert(after.args.drop_last() =~= before.args);
        assert(after.state.map.objects.dom() =~= before.state.map.objects.dom().insert(number));
    }
}

/// What has been read of an argument stays as it is while the arguments after it are read.
proof fn lemma_read_arguments_stay<D>(
    handle: HandleView<D>,
    receiver: Object<Data<D>>,
    desc: MessageDesc,
    args: Seq<ArgumentView<u32>>,
    children: Seq<Option<Arc<D>>>,
    i: nat,
    n: nat,
)
    requires
        i < n,
        !handle.convert(receiver, desc, args, children, n).failed,
    ensures
        !handle.convert(receiver, desc, args, children, i).failed,
        handle.convert(receiver, desc, args, children, i).args.len() == i,
        handle.convert(receiver, desc, args, children, n).args.len() == n,
        !handle.convert(receiver, desc, args, children, i + 1).failed,
        handle.convert(receiver, desc, args, children, n).args[i as int] == handle.convert(
            receiver,
            desc,
            args,
            children,
            i + 1,
        ).args.last(),
    decreases n,
{
    lemma_as_many_as_read(handle, receiver, desc, args, children, n);
    lemma_as_many_as_read(handle, receiver, desc, args, children, i);
    lemma_as_many_as_read(handle, receiver, desc, args, children, (n - 1) as nat);
    if i + 1 < n {
        lemma_read_arguments_stay(handle, receiver, desc, args, children, i, (n - 1) as nat);
    }
}

proof fn lemma_as_many_as_read<D>(
    handle: HandleView<D>,
    receiver: Object<Data<D>>,
    desc: MessageDesc,
    args: Seq<ArgumentView<u32>>,
    children: Seq<Option<Arc<D>>>,
    n: nat,
)
    ensures
        !handle.convert(receiver, desc, args, children, n).failed ==> handle.convert(
            receiver,
            desc,
            args,
            children,
            n,
        ).args.len() == n,
    decreases n,
{
    if n > 0 {
        lemma_as_many_as_read(handle, receiver, desc, args, children, (n - 1) as nat);
    }
}

/// The arguments of an event that was read are those that were received: as many, in the same
/// order. Every plain value has its kind and its value. Every object has its number. An object
/// that the client has not destroyed is named by the identifier that it has, and a new object by
/// the next serial and the interface that the event gives.
pub proof fn law_arguments_are_read_as_received<D>(
    handle: HandleView<D>,
    receiver: Object<Data<D>>,
    desc: MessageDesc,
    args: Seq<ArgumentView<u32>>,
    children: Seq<Option<Arc<D>>>,
    n: nat,
    i: int,
)
    requires
        handle.wf(),
        n <= args.len(),
        !handle.convert(receiver, desc, args, children, n).failed,
        0 <= i < n,
    ensures
        ({
            let conversion = handle.convert(receiver, desc, args, children, n);
            let before = handle.convert(receiver, desc, args, children, i as nat).state;
            let arg = args[i];
            let read = conversion.args[i];
            &&& conversion.args.len() == n
            &&& arg is Int ==> read == ArgumentView::<Id>::Int(arg->Int_0)
            &&& arg is Uint ==> read == ArgumentView::<Id>::Uint(arg->Uint_0)
            &&& arg is Fixed ==> read == ArgumentView::<Id>::Fixed(arg->Fixed_0)
            &&& arg is Str ==> read == ArgumentView::<Id>::Str(arg->Str_0)
            &&& arg is Array ==> read == ArgumentView::<Id>::Array(arg->Array_0)
            &&& arg is Fd ==> read == ArgumentView::<Id>::Fd(arg->Fd_0)
            &&& arg is Object ==> {
                let number = arg->Object_0;
                &&& read is Object
                &&& read->Object_0.id == number
                &&& number == 0 ==> read->Object_0.serial == 0 && read->Object_0.interface
                    == anonymous_interface_spec()
                &&& number != 0 ==> {
                    &&& before.map.objects.contains_key(number)
                    &&& read->Object_0.serial == before.map.objects[number].data.serial
                    &&& read->Object_0.interface == before.map.objects[number].interface
                }
                &&& number != 0 && handle.map.objects.contains_key(number)
                    && !handle.map.objects[number].data.client_destroyed ==> {
                    &&& read->Object_0.serial == handle.map.objects[number].data.serial
                    &&& read->Object_0.interface == handle.map.objects[number].interface
                }
            }
            &&& arg is NewId ==> {
                &&& read is NewId
                &&& read->NewId_0.id == arg->NewId_0
                &&& read->NewId_0.interface == desc.child_interface->0
                &&& before.last_serial < u32::MAX ==> read->NewId_0.serial == before.last_serial
                    + 1
                &&& before.last_serial == u32::MAX ==> read->NewId_0.serial == 0
            }
        }),
{
    let k = i as nat;
    lemma_read_arguments_stay(handle, receiver, desc, args, children, k, n);
    law_reading_keeps_live_objects(handle, receiver, desc, args, children, k);
    if args[i] is Object {
        law_named_objects_are_identified(handle, receiver, desc, args, children, k);
        let number = args[i]->Object_0;
        if handle.map.objects.contains_key(number)
            && !handle.map.objects[number].data.client_destroyed {
            let before = handle.convert(receiver, desc, args, children, k).state;
            assert(before.map.find(number) == Some(handle.map.objects[number]));
        }
    } else if args[i] is NewId {
        law_new_objects_are_created(handle, receiver, desc, args, children, k);
    } else {
        law_plain_values_are_handed_on(handle, receiver, desc, args, children, k);
    }
}

/// The data of an object that an event creates is made by the user from the data of the receiver,
/// being told the number that was received, the interface that the event gives, and the version of
/// the receiver. All arguments are read, or those up to the one that fails.
pub proof fn law_children_are_made_by_the_receiver<D: ObjectData>(
    handle: HandleView<D>,
    sender_id: u32,
    opcode: u16,
    args: Seq<ArgumentView<u32>>,
    children: Seq<Option<Arc<D>>>,
    i: int,
)
    requires
        handle.has_children(sender_id, opcode, args, children),
    ensures
        children.len() <= args.len(),
        !handle.converted(sender_id, opcode, args, children).failed ==> children.len()
            == args.len(),
        0 <= i < children.len() && args[i] is NewId ==> children[i] is Some && call_ensures(
            D::make_child,
            (
                &*(handle.map.objects[sender_id].data.user_data->0),
                &ObjectInfo {
                    id: args[i]->NewId_0,
                    interface: handle.map.objects[sender_id].interface.events@[opcode as int].child_interface->0,
                    version: handle.map.objects[sender_id].version,
                },
            ),
            children[i]->0,
        ),
{
}

/// An event reaches the user of an object that the client has not destroyed: with the data and the
/// identifier of that object, with the opcode of the message, the name of the event, and the
/// arguments that were received. The object is destroyed by both sides exactly where the event is
/// a destructor, and the user is told. Nothing else happens than what reading the arguments does.
pub proof fn law_delivered_events_are_those_received<D: ObjectData>(
    handle: HandleView<D>,
    message: Message,
    children: Seq<Option<Arc<D>>>,
    after: HandleView<D>,
    outcome: EventOutcome<D>,
    i: int,
)
    requires
        handle.wf(),
        handle.map.objects.contains_key(message.sender_id),
        handle.has_children(message.sender_id, message.opcode, message.args@, children),
        handle.event_ends(message, children, after, outcome),
        outcome is Delivered,
    ensures
        ({
            let delivery = outcome->Delivered_0;
            let object = handle.map.objects[message.sender_id];
            let desc = object.interface.events@[message.opcode as int];
            let read = handle.convert(object, desc, message.args@, children, message.args@.len());
            let arg = message.args@[i];
            let got = delivery.args@[i];
            &&& !object.data.client_destroyed
            &&& !read.failed
            &&& delivery.opcode == message.opcode
            &&& delivery.id.id == message.sender_id
            &&& delivery.id.serial == object.data.serial
            &&& delivery.id.interface == object.interface
            &&& delivery.name@ == desc.name@
            &&& object.data.user_data == Some(delivery.user_data)
            &&& delivery.destroyed <==> desc.is_destructor
            &&& delivery.args@.len() == message.args@.len()
            &&& 0 <= i < message.args@.len() ==> {
                &&& got == read.args[i]
                &&& arg is Int ==> got == ArgumentView::<Id>::Int(arg->Int_0)
                &&& arg is Uint ==> got == ArgumentView::<Id>::Uint(arg->Uint_0)
                &&& arg is Fixed ==> got == ArgumentView::<Id>::Fixed(arg->Fixed_0)
                &&& arg is Str ==> got == ArgumentView::<Id>::Str(arg->Str_0)
                &&& arg is Array ==> got == ArgumentView::<Id>::Array(arg->Array_0)
                &&& arg is Fd ==> got == ArgumentView::<Id>::Fd(arg->Fd_0)
                &&& arg is Object ==> got is Object && got->Object_0.id == arg->Object_0
                &&& arg is NewId ==> {
                    &&& got is NewId
                    &&& got->NewId_0.id == arg->NewId_0
                    &&& after.map.objects.contains_key(arg->NewId_0)
                    &&& after.map.objects[arg->NewId_0].data.serial == got->NewId_0.serial
                    &&& after.map.objects[arg->NewId_0].interface == got->NewId_0.interface
                    &&& got->NewId_0.interface == desc.child_interface->0
                    &&& after.map.objects[arg->NewId_0].data.user_data == Some(children[i]->0)
                }
            }
            &&& !desc.is_destructor ==> after == read.state
            &&& desc.is_destructor ==> {
                &&& after.map.objects.dom() == read.state.map.objects.dom()
                &&& after.map.objects[message.sender_id].data.client_destroyed
                &&& after.map.objects[message.sender_id].data.server_destroyed
                &&& after.map.objects[message.sender_id].data.user_data == object.data.user_data
                &&& after.map.objects[message.sender_id].data.serial == object.data.serial
                &&& after.map.objects[message.sender_id].interface == object.interface
                &&& after.map.objects[message.sender_id].version == object.version
                &&& forall|other: u32|
                    other != message.sender_id ==> #[trigger] after.map.objects[other]
                        == read.state.map.objects[other]
                &&& after.map.clients == read.state.map.clients
                &&& after.map.servers == read.state.map.servers
                &&& after.last_error == read.state.last_error
                &&& after.last_serial == read.state.last_serial
                &&& after.pending == read.state.pending
                &&& after.debug == read.state.debug
            }
        }),
{
    let object = handle.map.objects[message.sender_id];
    let desc = object.interface.events@[message.opcode as int];
    let args = message.args@;
    let n = args.len();
    law_children_are_made_by_the_receiver(
        handle,
        message.sender_id,
        message.opcode,
        args,
        children,
        i,
    );
    lemma_as_many_as_read(handle, object, desc, args, children, n);
    law_reading_keeps_live_objects(handle, object, desc, args, children, n);
    let read = handle.convert(object, desc, args, children, n);
    assert(read.state.map.find(message.sender_id) == Some(object));
    if 0 <= i < n {
        law_arguments_are_read_as_received(handle, object, desc, args, children, n, i);
        if args[i] is NewId {
            law_created_objects_are_valid(handle, object, desc, args, children, n, i);
        }
    }
    assert(after.map.objects.dom() =~= read.state.map.objects.dom());
}

/// An event of an object that the client has destroyed reaches nobody: its arguments are read all
/// the same, nothing else changes, and the file descriptors among them are handed over to be
/// closed, all of them and in order.
pub proof fn law_swallowed_events_are_those_received<D: ObjectData>(
    handle: HandleView<D>,
    message: Message,
    children: Seq<Option<Arc<D>>>,
    after: HandleView<D>,
    outcome: EventOutcome<D>,
    i: int,
)
    requires
        handle.wf(),
        handle.map.objects.contains_key(message.sender_id),
        handle.has_children(message.sender_id, message.opcode, message.args@, children),
        handle.event_ends(message, children, after, outcome),
        outcome is Swallowed,
    ensures
        ({
            let swallowed = outcome->Swallowed_0;
            let object = handle.map.objects[message.sender_id];
            let desc = object.interface.events@[message.opcode as int];
            let read = handle.convert(object, desc, message.args@, children, message.args@.len());
            let arg = message.args@[i];
            let got = swallowed.args@[i];
            &&& object.data.client_destroyed
            &&& !read.failed
            &&& after == read.state
            &&& swallowed.id.id == message.sender_id
            &&& swallowed.id.serial == object.data.serial
            &&& swallowed.id.interface == object.interface
            &&& swallowed.name@ == desc.name@
            &&& swallowed.args@ == read.args
            &&& swallowed.args@.len() == message.args@.len()
            &&& swallowed.fds@ == message.args@.filter(
                |a: ArgumentView<u32>| a is Fd,
            ).map_values(|a: ArgumentView<u32>| a->Fd_0)
            &&& 0 <= i < message.args@.len() ==> {
                &&& arg is Int ==> got == ArgumentView::<Id>::Int(arg->Int_0)
                &&& arg is Uint ==> got == ArgumentView::<Id>::Uint(arg->Uint_0)
                &&& arg is Fixed ==> got == ArgumentView::<Id>::Fixed(arg->Fixed_0)
                &&& arg is Str ==> got == ArgumentView::<Id>::Str(arg->Str_0)
                &&& arg is Array ==> got == ArgumentView::<Id>::Array(arg->Array_0)
                &&& arg is Fd ==> got == ArgumentView::<Id>::Fd(arg->Fd_0)
                &&& arg is Object ==> got is Object && got->Object_0.id == arg->Object_0
                &&& arg is NewId ==> got is NewId && got->NewId_0.id == arg->NewId_0
            }
        }),
{
    let object = handle.map.objects[message.sender_id];
    let desc = object.interface.events@[message.opcode as int];
    let args = message.args@;
    let n = args.len();
    law_children_are_made_by_the_receiver(
        handle,
        message.sender_id,
        message.opcode,
        args,
        children,
        i,
    );
    lemma_as_many_as_read(handle, object, desc, args, children, n);
    let read = handle.convert(object, desc, args, children, n);
    if 0 <= i < n {
        law_arguments_are_read_as_received(handle, object, desc, args, children, n, i);
    }
    assert forall|j: int| 0 <= j < n implies {
        &&& #[trigger] args[j] is Fd <==> read.args[j] is Fd
        &&& args[j] is Fd ==> read.args[j]->Fd_0 == args[j]->Fd_0
    } by {
        law_arguments_are_read_as_received(handle, object, desc, args, children, n, j);
    }
    lemma_descriptors(read.args, args);
}

/// The file descriptors among arguments that were read are those among the arguments received.
proof fn lemma_descriptors(read: Seq<ArgumentView<Id>>, args: Seq<ArgumentView<u32>>)
    requires
        read.len() == args.len(),
        forall|j: int|
            0 <= j < args.len() ==> {
                &&& #[trigger] args[j] is Fd <==> read[j] is Fd
                &&& args[j] is Fd ==> read[j]->Fd_0 == args[j]->Fd_0
            },
    ensures
        fds(read) == args.filter(|a: ArgumentView<u32>| a is Fd).map_values(
            |a: ArgumentView<u32>| a->Fd_0,
        ),
    decreases args.len(),
{
    reveal(Seq::filter);
    let is_fd = |a: ArgumentView<u32>| a is Fd;
    let number = |a: ArgumentView<u32>| a->Fd_0;
    if args.len() > 0 {
        let last = args.len() - 1;
        assert(args[last] is Fd <==> read[last] is Fd);
        assert forall|j: int| 0 <= j < last implies {
            &&& #[trigger] args.drop_last()[j] is Fd <==> read.drop_last()[j] is Fd
            &&& args.drop_last()[j] is Fd ==> read.drop_last()[j]->Fd_0
                == args.drop_last()[j]->Fd_0
        } by {
            assert(args[j] is Fd <==> read[j] is Fd);
        }
        lemma_descriptors(read.drop_last(), args.drop_last());
        let rest = args.drop_last().filter(is_fd);
        if args.last() is Fd {
            assert(args.filter(is_fd) =~= rest.push(args.last()));
            assert(args.filter(is_fd).map_values(number) =~= rest.map_values(number).push(
                args.last()->Fd_0,
            ));
        } else {
            assert(args.filter(is_fd) =~= rest);
        }
    }
    assert(fds(read) =~= args.filter(is_fd).map_values(number));
}

/// The file descriptors among arguments are all of those, in order.
pub proof fn law_descriptors_keep_their_order(args: Seq<ArgumentView<Id>>)
    ensures
        fds(args) == args.filter(|a: ArgumentView<Id>| a is Fd).map_values(
            |a: ArgumentView<Id>| a->Fd_0,
        ),
    decreases args.len(),
{
    reveal(Seq::filter);
    let is_fd = |a: ArgumentView<Id>| a is Fd;
    let number = |a: ArgumentView<Id>| a->Fd_0;
    if args.len() > 0 {
        law_descriptors_keep_their_order(args.drop_last());
        let rest = args.drop_last().filter(is_fd);
        if args.last() is Fd {
            assert(args.filter(is_fd) =~= rest.push(args.last()));
            assert(args.filter(is_fd).map_values(number) =~= rest.map_values(number).push(
                args.last()->Fd_0,
            ));
        } else {
            assert(args.filter(is_fd) =~= rest);
        }
    }
    assert(fds(args) =~= args.filter(is_fd).map_values(number));
}

/// An event that breaks the rules of the protocol ends the dispatching of events, and is kept as
/// the last error. It is the only kind of event that does.
pub proof fn law_failed_events_are_kept<D>(
    handle: HandleView<D>,
    message: Message,
    children: Seq<Option<Arc<D>>>,
    after: HandleView<D>,
    outcome: EventOutcome<D>,
    action: DispatchAction<D>,
)
    requires
        handle.wf(),
        handle.event_ends(message, children, after, outcome),
        action.follows(outcome),
    ensures
        ({
            let object = handle.map.objects[message.sender_id];
            let desc = object.interface.events@[message.opcode as int];
            let read = handle.convert(object, desc, message.args@, children, children.len());
            &&& read.failed <==> action == DispatchAction::<D>::Return(
                Err(DispatchError::Protocol),
            )
            &&& read.failed ==> outcome is Failed && after == read.state && (after.last_error
                matches Some(ErrorView::Protocol { code: 0, object_id: 0, .. }))
            &&& !read.failed ==> after.last_error == handle.last_error
            &&& !read.failed && object.data.client_destroyed ==> outcome is Swallowed && action
                == DispatchAction::<D>::Close(outcome->Swallowed_0)
            &&& !read.failed && !object.data.client_destroyed ==> outcome is Delivered && action
                == DispatchAction::Deliver(outcome->Delivered_0)
        }),
{
    let object = handle.map.objects[message.sender_id];
    let desc = object.interface.events@[message.opcode as int];
    law_reading_keeps_live_objects(
        handle,
        object,
        desc,
        message.args@,
        children,
        children.len(),
    );
}

/// A failure of the protocol is kept as the last error, and changes nothing else.
pub proof fn law_failures_change_only_the_last_error<D>(
    handle: HandleView<D>,
    message: Seq<char>,
)
    ensures
        ({
            let after = handle.protocol_failure(message);
            &&& after.last_error == Some(
                ErrorView::Protocol { code: 0, object_id: 0, object_interface: ""@, message },
            )
            &&& after.map == handle.map
            &&& after.last_serial == handle.last_serial
            &&& after.pending == handle.pending
            &&& after.debug == handle.debug
        }),
{
}

/// When the server gives up an id, the object that has it is gone if the client has destroyed it,
/// and its number can be used again. Else it stays, and is marked as destroyed by the server. No
/// other object changes.
pub proof fn law_deleted_ids_are_freed<D>(handle: HandleView<D>, args: Seq<ArgumentView<u32>>)
    requires
        handle.wf(),
        args.len() == 1,
        args[0] is Uint,
    ensures
        ({
            let id = args[0]->Uint_0;
            let object = handle.map.objects[id];
            let after = handle.display_event(1, args);
            let left = after.map.objects[id];
            &&& !handle.map.objects.contains_key(id) ==> after == handle
            &&& handle.map.objects.contains_key(id) && object.data.client_destroyed ==> {
                &&& !after.map.objects.contains_key(id)
                &&& after.map.objects.dom() == handle.map.objects.dom().remove(id)
                &&& after.map.is_available(id)
            }
            &&& handle.map.objects.contains_key(id) && !object.data.client_destroyed ==> {
                &&& after.map.objects.dom() == handle.map.objects.dom()
                &&& left.data.server_destroyed
                &&& !left.data.client_destroyed
                &&& left.data.user_data == object.data.user_data
                &&& left.data.serial == object.data.serial
                &&& left.interface == object.interface
                &&& left.version == object.version
            }
            &&& forall|other: u32|
                other != id && handle.map.objects.contains_key(other) ==> #[trigger]
                after.map.objects[other] == handle.map.objects[other]
            &&& after.map.clients == handle.map.clients
            &&& after.map.servers == handle.map.servers
            &&& after.last_error == handle.last_error
            &&& after.last_serial == handle.last_serial
            &&& after.pending == handle.pending
            &&& after.debug == handle.debug
            &&& handle.id_deleted(id) == after
        }),
{
    let id = args[0]->Uint_0;
    let after = handle.display_event(1, args);
    if handle.map.objects.contains_key(id) {
        assert(handle.map.is_used(id));
        if handle.map.objects[id].data.client_destroyed {
            assert(after.map.objects.dom() =~= handle.map.objects.dom().remove(id));
        } else {
            assert(after.map.objects.dom() =~= handle.map.objects.dom());
        }
    }
}

/// An error that the server reports is kept as the last error: with its code, the object at fault
/// and the interface of that object, and its text. Nothing else changes.
pub proof fn law_reported_errors_are_kept<D>(handle: HandleView<D>, args: Seq<ArgumentView<u32>>)
    requires
        args.len() == 3,
        args[0] is Object,
        args[1] is Uint,
        args[2] is Str,
    ensures
        ({
            let after = handle.display_event(0, args);
            let number = args[0]->Object_0;
            &&& after.last_error == Some(
                ErrorView::Protocol {
                    code: args[1]->Uint_0,
                    object_id: number,
                    object_interface: if handle.map.objects.contains_key(number) {
                        handle.map.objects[number].interface.name@
                    } else {
                        "<unknown>"@
                    },
                    message: utf8_lossy(args[2]->Str_0),
                },
            )
            &&& after.map == handle.map
            &&& after.last_serial == handle.last_serial
            &&& after.pending == handle.pending
            &&& after.debug == handle.debug
        }),
{
}

/// Which messages can be handled: the object must exist and have the event, an event of the
/// display must carry what such an event carries, it must be known of which interface the objects
/// are that are created before anything fails, and there must not be too many arguments.
pub proof fn law_which_events_can_be_handled<D>(handle: HandleView<D>, message: Message)
    ensures
        ({
            let object = handle.map.objects[message.sender_id];
            let args = message.args@;
            let desc = object.interface.events@[message.opcode as int];
            let error = message.opcode == 0 && args.len() == 3 && args[0] is Object && args[1]
                is Uint && args[2] is Str;
            let delete_id = message.opcode == 1 && args.len() == 1 && args[0] is Uint;
            let readable = handle.map.objects.contains_key(message.sender_id) && message.opcode
                < object.interface.events@.len() && (message.sender_id == 1 ==> error
                || delete_id);
            let typed = desc.child_interface is Some || forall|i: int|
                0 <= i < args.len() && #[trigger] args[i] is NewId ==> exists|j: int|
                    0 <= j < i && #[trigger] handle.is_wrong_object(desc, args, j);
            &&& is_display_event(message.opcode, args) <==> error || delete_id
            &&& !readable <==> handle.event_fault(message) == Some(EventFault::Unreadable)
            &&& readable && !typed <==> handle.event_fault(message) == Some(
                EventFault::UntypedChild,
            )
            &&& readable && typed && args.len() > MAX_ARGS <==> handle.event_fault(message)
                == Some(EventFault::TooLong)
            &&& readable && typed && args.len() <= MAX_ARGS <==> handle.event_fault(message)
                is None
        }),
{
}

/// The server may not name an object that does not exist, nor one of another interface than the
/// event describes for it, where it describes one other than the anonymous interface.
pub proof fn law_which_objects_are_wrong<D>(
    handle: HandleView<D>,
    desc: MessageDesc,
    args: Seq<ArgumentView<u32>>,
    i: int,
)
    requires
        0 <= i < args.len(),
    ensures
        ({
            let number = args[i]->Object_0;
            let place = args.take(i).filter(
                |a: ArgumentView<u32>| a is Object && a->Object_0 != 0,
            ).len() as int;
            handle.is_wrong_object(desc, args, i) <==> args[i] is Object && number != 0 && (
            !handle.map.objects.contains_key(number) || place < desc.arg_interfaces@.len()
                && desc.arg_interfaces@[place].name@ != handle.map.objects[number].interface.name@
                && desc.arg_interfaces@[place].name@ != "<anonymous>"@)
        }),
{
    law_object_arguments_are_counted(Seq::empty(), None, args, i);
}

} // verus!
