//! What the requests of a client come to: which are accepted, what they put on the wire, and what
//! they leave behind.

use std::sync::Arc;

use vstd::prelude::*;

use super::constructor::{lemma_with_child, Constructed};
use super::model::{objects_before, wire_arg, wire_args, HandleView, RequestFault, Verdict};
use super::request::Outgoing;
use super::{debug_enabled, Id};
use crate::map::{lemma_lowest_free, lemma_lowest_free_is_available, SERVER_ID_LIMIT};
use crate::protocol::{
    fits_signature, wl_display_interface_spec, AllowNull, ArgumentType, ArgumentView, InvalidId,
    MessageDesc, ObjectData, ObjectInfo,
};

verus! {

/// A new connection has one object, the display, and nothing else has happened to it. Messages are
/// printed where the environment says `1` or `client`.
pub proof fn law_connections_begin_with_the_display<D>(debug: bool, value: Option<&str>, id: u32)
    ensures
        ({
            let new = HandleView::<D>::connected(debug);
            &&& new.map.objects.contains_key(id) <==> id == 1
            &&& new.map.objects[1].interface == wl_display_interface_spec()
            &&& new.map.objects[1].version == 1
            &&& !new.map.objects[1].data.client_destroyed
            &&& !new.map.objects[1].data.server_destroyed
            &&& new.map.objects[1].data.user_data is None
            &&& new.map.objects[1].data.serial == 0
            &&& new.map.clients == 1
            &&& new.map.servers == 0
            &&& new.last_error is None
            &&& new.last_serial == 0
            &&& new.pending is None
            &&& new.debug == debug
        }),
        value is None ==> !debug_enabled(value),
        value is Some ==> (debug_enabled(value) <==> value->0@ == "1"@ || value->0@
            == "client"@),
{
}

/// An identifier finds the object that has its number, if that object has its serial too.
pub proof fn law_identifiers_find_their_object<D>(handle: HandleView<D>, id: Id)
    ensures
        handle.get(id) is Some <==> handle.map.objects.contains_key(id.id)
            && handle.map.objects[id.id].data.serial == id.serial,
        handle.get(id) is Some ==> handle.get(id)->0 == handle.map.objects[id.id],
{
}

/// The serial of a new object is one more than the last, and 0 after the highest.
pub proof fn law_serials_follow_each_other<D>(handle: HandleView<D>)
    ensures
        handle.last_serial < u32::MAX ==> handle.next_serial() == handle.last_serial + 1,
        handle.last_serial == u32::MAX ==> handle.next_serial() == 0,
{
}

/// What travels is what was given: as many arguments, in the same order, each of the same kind and
/// with the same value. An object travels as its number. The new object of a constructor travels
/// as the number that it got.
pub proof fn law_arguments_travel_unchanged(args: Seq<ArgumentView<Id>>, child: Option<Id>, i: int)
    requires
        0 <= i < args.len(),
    ensures
        wire_args(args, child).len() == args.len(),
        args[i] is Int ==> wire_args(args, child)[i] == ArgumentView::<u32>::Int(args[i]->Int_0),
        args[i] is Uint ==> wire_args(args, child)[i] == ArgumentView::<u32>::Uint(
            args[i]->Uint_0,
        ),
        args[i] is Fixed ==> wire_args(args, child)[i] == ArgumentView::<u32>::Fixed(
            args[i]->Fixed_0,
        ),
        args[i] is Str ==> wire_args(args, child)[i] == ArgumentView::<u32>::Str(args[i]->Str_0),
        args[i] is Array ==> wire_args(args, child)[i] == ArgumentView::<u32>::Array(
            args[i]->Array_0,
        ),
        args[i] is Fd ==> wire_args(args, child)[i] == ArgumentView::<u32>::Fd(args[i]->Fd_0),
        args[i] is Object ==> wire_args(args, child)[i] == ArgumentView::Object(
            args[i]->Object_0.id,
        ),
        args[i] is NewId && child is Some ==> wire_args(args, child)[i] == ArgumentView::NewId(
            child->0.id,
        ),
        args[i] is NewId && child is None ==> wire_args(args, child)[i] == ArgumentView::NewId(
            args[i]->NewId_0.id,
        ),
{
}

/// A request goes out under the number of its object and under its own opcode, with its arguments
/// and no others, and with word of a destruction exactly where there was one.
pub proof fn law_requests_go_out_as_they_are<D>(
    outgoing: Outgoing<D>,
    id: Id,
    opcode: u16,
    args: Seq<ArgumentView<u32>>,
    destroyed: Option<Arc<D>>,
)
    ensures
        outgoing.carries(id, opcode, args, destroyed) <==> outgoing.message.sender_id == id.id
            && outgoing.message.opcode == opcode && outgoing.message.args@ == args
            && outgoing.destroyed == destroyed,
{
}

/// A request that is no destructor changes nothing. A destructor marks its object as destroyed by
/// the client, and changes nothing else of it, and nothing of any other object.
pub proof fn law_only_destructors_destroy<D>(handle: HandleView<D>, id: Id, desc: MessageDesc)
    requires
        handle.map.objects.contains_key(id.id),
    ensures
        !desc.is_destructor ==> handle.after_request(id, desc) == handle,
        desc.is_destructor ==> {
            let after = handle.after_request(id, desc);
            &&& after.map.objects.dom() == handle.map.objects.dom()
            &&& after.map.objects[id.id].data.client_destroyed
            &&& after.map.objects[id.id].data.server_destroyed
                == handle.map.objects[id.id].data.server_destroyed
            &&& after.map.objects[id.id].data.user_data == handle.map.objects[id.id].data.user_data
            &&& after.map.objects[id.id].data.serial == handle.map.objects[id.id].data.serial
            &&& after.map.objects[id.id].interface == handle.map.objects[id.id].interface
            &&& after.map.objects[id.id].version == handle.map.objects[id.id].version
            &&& forall|other: u32|
                other != id.id ==> #[trigger] after.map.objects[other]
                    == handle.map.objects[other]
            &&& after.map.clients == handle.map.clients
            &&& after.map.servers == handle.map.servers
            &&& after.last_error == handle.last_error
            &&& after.last_serial == handle.last_serial
            &&& after.pending == handle.pending
            &&& after.debug == handle.debug
        },
{
    if desc.is_destructor {
        assert(handle.after_request(id, desc).map.objects.dom() =~= handle.map.objects.dom());
    }
}

/// The first of the conditions on a request that fails decides what becomes of it: its object
/// must exist and not be destroyed by the client, its interface must have the request, and the
/// arguments must fit. After that, the arguments decide.
pub proof fn law_what_is_asked_of_requests<D>(
    handle: HandleView<D>,
    id: Id,
    opcode: u16,
    args: Seq<ArgumentView<Id>>,
)
    ensures
        ({
            let object = handle.map.objects[id.id];
            let alive = handle.map.objects.contains_key(id.id) && object.data.serial == id.serial
                && !object.data.client_destroyed;
            let known = opcode < object.interface.requests@.len();
            let desc = object.interface.requests@[opcode as int];
            let fits = fits_signature(desc.signature@, args);
            &&& !alive ==> handle.request_verdict(id, opcode, args) == Verdict::InvalidId
            &&& alive && !known ==> handle.request_verdict(id, opcode, args) == Verdict::Fault(
                RequestFault::UnknownOpcode,
            )
            &&& alive && known && !fits ==> handle.request_verdict(id, opcode, args)
                == Verdict::Fault(RequestFault::WrongSignature)
            &&& alive && known && fits ==> handle.request_verdict(id, opcode, args)
                == handle.args_verdict(desc, args, 0, None)
        }),
{
}

/// What is asked of a constructor, in order: what is asked of every request, a placeholder that
/// fits, a free number, data for the new object, and placeholders for its identifier. After that,
/// the arguments decide.
pub proof fn law_what_is_asked_of_constructors<D>(
    handle: HandleView<D>,
    id: Id,
    opcode: u16,
    args: Seq<ArgumentView<Id>>,
    has_data: bool,
)
    ensures
        ({
            let verdict = handle.setup_verdict(id, opcode, args, has_data);
            let object = handle.map.objects[id.id];
            let alive = handle.map.objects.contains_key(id.id) && object.data.serial == id.serial
                && !object.data.client_destroyed;
            let known = opcode < object.interface.requests@.len();
            let desc = object.interface.requests@[opcode as int];
            let fits = fits_signature(desc.signature@, args);
            let kind = handle.pending;
            let fixed = desc.child_interface;
            let wrong_interface = kind is Some && fixed is Some && fixed->0.name@
                != (kind->0).0.name@;
            let wrong_version = kind is Some && fixed is Some && (kind->0).1 != object.version;
            let missing = kind is None && fixed is None;
            let full = forall|n: u32|
                1 <= n < SERVER_ID_LIMIT ==> #[trigger] handle.map.objects.contains_key(n);
            let no_data = !has_data && object.data.user_data is None;
            let foreign = exists|i: int|
                0 <= i < args.len() && #[trigger] args[i] is NewId && args[i]->NewId_0.id != 0;
            &&& !alive ==> verdict == Verdict::InvalidId
            &&& alive && !known ==> verdict == Verdict::Fault(RequestFault::UnknownOpcode)
            &&& alive && known && !fits ==> verdict == Verdict::Fault(RequestFault::WrongSignature)
            &&& alive && known && fits ==> {
                &&& wrong_interface ==> verdict == Verdict::Fault(
                    RequestFault::WrongPlaceholder { expected: fixed->0, found: (kind->0).0 },
                )
                &&& !wrong_interface && wrong_version ==> verdict == Verdict::Fault(
                    RequestFault::WrongPlaceholderVersion {
                        expected_version: object.version,
                        found_version: (kind->0).1,
                    },
                )
                &&& missing ==> verdict == Verdict::Fault(RequestFault::MissingPlaceholder)
                &&& !wrong_interface && !wrong_version && !missing ==> {
                    &&& full ==> verdict == Verdict::Fault(RequestFault::IdsExhausted)
                    &&& !full && no_data ==> verdict == Verdict::Fault(RequestFault::MissingData)
                    &&& !full && !no_data && foreign ==> verdict == Verdict::Fault(
                        RequestFault::NotPlaceholder,
                    )
                    &&& !full && !no_data && !foreign ==> verdict == Verdict::Accepted
                }
            }
            &&& verdict != Verdict::Accepted ==> handle.constructor_verdict(
                id,
                opcode,
                args,
                has_data,
            ) == verdict
            &&& verdict == Verdict::Accepted ==> handle.constructor_verdict(
                id,
                opcode,
                args,
                has_data,
            ) == handle.args_verdict(desc, args, 0, Some(handle.child_id(id, opcode)))
        }),
{
    lemma_room(handle, 1);
}

/// There is room where not all numbers of the client are taken.
proof fn lemma_room<D>(handle: HandleView<D>, from: u32)
    requires
        1 <= from <= SERVER_ID_LIMIT,
        forall|n: u32| 1 <= n < from ==> #[trigger] handle.map.objects.contains_key(n),
    ensures
        handle.map.has_room() <==> exists|n: u32|
            1 <= n < SERVER_ID_LIMIT && !#[trigger] handle.map.objects.contains_key(n),
    decreases SERVER_ID_LIMIT - from,
{
    if handle.map.has_room() {
        let n = choose|n: u32| handle.map.is_lowest_free(n);
        assert(!handle.map.objects.contains_key(n));
    }
    if from < SERVER_ID_LIMIT {
        if handle.map.objects.contains_key(from) {
            lemma_room(handle, (from + 1) as u32);
        } else {
            assert(handle.map.is_lowest_free(from));
            lemma_lowest_free(handle.map, from);
        }
    }
}

/// The interface of an object argument has the place among the interfaces of the request that the
/// argument has among those that name an object.
pub proof fn law_object_arguments_are_counted(
    args: Seq<ArgumentView<Id>>,
    child: Option<Id>,
    received: Seq<ArgumentView<u32>>,
    i: int,
)
    ensures
        0 <= i <= args.len() ==> objects_before(wire_args(args, child), i) == args.take(i).filter(
            |a: ArgumentView<Id>| a is Object && a->Object_0.id != 0,
        ).len(),
        0 <= i <= received.len() ==> objects_before(received, i) == received.take(i).filter(
            |a: ArgumentView<u32>| a is Object && a->Object_0 != 0,
        ).len(),
    decreases i,
{
    reveal(Seq::filter);
    if i > 0 {
        law_object_arguments_are_counted(args, child, received, i - 1);
        if i <= args.len() {
            assert(args.take(i).drop_last() =~= args.take(i - 1));
            assert(wire_args(args, child)[i - 1] == wire_arg(args[i - 1], child));
        }
        if i <= received.len() {
            assert(received.take(i).drop_last() =~= received.take(i - 1));
        }
    }
}

/// What is asked of an argument of a request. A plain value is always accepted. A new object is
/// created only by a constructor. An object may be absent where the signature allows it; else it
/// must exist, be described, and have the described interface.
pub proof fn law_what_is_asked_of_arguments<D>(
    handle: HandleView<D>,
    desc: MessageDesc,
    args: Seq<ArgumentView<Id>>,
    i: int,
    child: Option<Id>,
)
    requires
        0 <= i < args.len(),
    ensures
        ({
            let verdict = handle.arg_verdict(desc, args, i, child);
            let o = args[i]->Object_0;
            let is_new = child is Some && child->0.id == o.id;
            let exists_now = if is_new {
                child->0.serial == o.serial
            } else {
                handle.map.objects.contains_key(o.id) && handle.map.objects[o.id].data.serial
                    == o.serial
            };
            let found = if is_new {
                child->0.interface
            } else {
                handle.map.objects[o.id].interface
            };
            let place = args.take(i).filter(
                |a: ArgumentView<Id>| a is Object && a->Object_0.id != 0,
            ).len() as int;
            let described = desc.arg_interfaces@;
            &&& !(args[i] is Object) && !(args[i] is NewId) ==> verdict == Verdict::Accepted
            &&& args[i] is NewId && child is Some ==> verdict == Verdict::Accepted
            &&& args[i] is NewId && child is None ==> verdict == Verdict::Fault(
                RequestFault::CreatesObject,
            )
            &&& args[i] is Object && o.id == 0 ==> {
                &&& desc.signature@[i] == ArgumentType::Object(AllowNull::Yes) ==> verdict
                    == Verdict::Accepted
                &&& desc.signature@[i] != ArgumentType::Object(AllowNull::Yes) ==> verdict
                    == Verdict::Fault(RequestFault::NullObject)
            }
            &&& args[i] is Object && o.id != 0 ==> {
                &&& !exists_now ==> verdict == Verdict::InvalidId
                &&& exists_now && place >= described.len() ==> verdict == Verdict::Fault(
                    RequestFault::UnexpectedObject,
                )
                &&& exists_now && place < described.len() && described[place].name@
                    != found.name@ ==> verdict == Verdict::Fault(
                    RequestFault::WrongInterface { expected: described[place], found },
                )
                &&& exists_now && place < described.len() && described[place].name@
                    == found.name@ ==> verdict == Verdict::Accepted
            }
        }),
{
    law_object_arguments_are_counted(args, child, Seq::empty(), i);
}

/// The first argument that is not accepted decides what becomes of a request.
pub proof fn law_first_refused_argument_decides<D>(
    handle: HandleView<D>,
    desc: MessageDesc,
    args: Seq<ArgumentView<Id>>,
    child: Option<Id>,
    from: int,
    i: int,
)
    requires
        0 <= from <= i < args.len(),
        forall|j: int|
            from <= j < i ==> #[trigger] handle.arg_verdict(desc, args, j, child)
                == Verdict::Accepted,
        handle.arg_verdict(desc, args, i, child) != Verdict::Accepted,
    ensures
        handle.args_verdict(desc, args, from, child) == handle.arg_verdict(desc, args, i, child),
    decreases i - from,
{
    if from < i {
        assert(handle.arg_verdict(desc, args, from, child) == Verdict::Accepted);
        law_first_refused_argument_decides(handle, desc, args, child, from + 1, i);
    }
}

/// A new object of the client has the lowest number that is free, the interface and version of the
/// placeholder or else those that the request and its object give, the data that it was made with,
/// and the next serial. Nothing else changes, but that the placeholder is used up.
pub proof fn law_what_a_constructor_creates<D>(
    handle: HandleView<D>,
    id: Id,
    opcode: u16,
    data: Arc<D>,
)
    requires
        handle.wf(),
        handle.map.has_room(),
        handle.map.objects.contains_key(id.id),
        handle.map.objects[id.id].data.serial == id.serial,
        handle.pending is Some
            || handle.map.objects[id.id].interface.requests@[opcode as int].child_interface is Some,
    ensures
        ({
            let creator = handle.map.objects[id.id];
            let child = handle.child_id(id, opcode);
            let info = handle.child_info(id, opcode);
            let after = handle.with_child(id, opcode, data);
            let made = after.map.objects[child.id];
            &&& 1 <= child.id < SERVER_ID_LIMIT
            &&& !handle.map.objects.contains_key(child.id)
            &&& forall|n: u32|
                1 <= n < child.id ==> #[trigger] handle.map.objects.contains_key(n)
            &&& handle.last_serial < u32::MAX ==> child.serial == handle.last_serial + 1
            &&& handle.last_serial == u32::MAX ==> child.serial == 0
            &&& handle.pending is Some ==> child.interface == (handle.pending->0).0
                && made.version == (handle.pending->0).1
            &&& handle.pending is None ==> child.interface
                == creator.interface.requests@[opcode as int].child_interface->0 && made.version
                == creator.version
            &&& info.id == child.id
            &&& info.interface == child.interface
            &&& info.version == made.version
            &&& made.interface == child.interface
            &&& made.data.serial == child.serial
            &&& made.data.user_data == Some(data)
            &&& !made.data.client_destroyed
            &&& !made.data.server_destroyed
            &&& after.map.objects.dom() == handle.map.objects.dom().insert(child.id)
            &&& forall|n: u32|
                n != child.id ==> #[trigger] after.map.objects[n] == handle.map.objects[n]
            &&& after.map.clients == if child.id > handle.map.clients {
                child.id as nat
            } else {
                handle.map.clients
            }
            &&& after.map.servers == handle.map.servers
            &&& after.last_serial == child.serial
            &&& after.pending is None
            &&& after.last_error == handle.last_error
            &&& after.debug == handle.debug
        }),
{
    lemma_lowest_free_is_available(handle.map);
    let child = handle.child_id(id, opcode);
    assert(handle.with_child(id, opcode, data).map.objects.dom()
        =~= handle.map.objects.dom().insert(child.id));
}

/// The data of a new object is what was given, or what the user makes of the data of its creator,
/// being told the number, interface and version of the new object.
pub proof fn law_data_is_given_or_made<D: ObjectData>(
    handle: HandleView<D>,
    id: Id,
    opcode: u16,
    given: Option<Arc<D>>,
    data: Arc<D>,
)
    requires
        handle.map.objects.contains_key(id.id),
        handle.map.objects[id.id].data.serial == id.serial,
        handle.child_data(id, opcode, given, data),
    ensures
        given is Some ==> data == given->0,
        given is None ==> call_ensures(
            D::make_child,
            (
                &*(handle.map.objects[id.id].data.user_data->0),
                &ObjectInfo {
                    id: handle.child_id(id, opcode).id,
                    interface: handle.child_id(id, opcode).interface,
                    version: handle.with_child(id, opcode, data).map.objects[handle.child_id(
                        id,
                        opcode,
                    ).id].version,
                },
            ),
            data,
        ),
{
}

/// A constructor that is sent goes out under the number of its object and under its own opcode,
/// with its arguments in order, and the number of the new object where its placeholder was. The
/// new object is there, under the identifier that is handed back. Word of the destruction of the
/// creator goes out exactly where the request is a destructor. A constructor that is not sent
/// leaves the new object, and destroys nothing.
pub proof fn law_what_a_constructor_sends<D>(
    handle: HandleView<D>,
    id: Id,
    opcode: u16,
    args: Seq<ArgumentView<Id>>,
    data: Arc<D>,
    after: HandleView<D>,
    result: Result<Constructed<D>, InvalidId>,
)
    requires
        handle.wf(),
        handle.setup_verdict(id, opcode, args, true) == Verdict::Accepted,
        handle.constructs(id, opcode, args, data, after, result),
    ensures
        ({
            let creator = handle.map.objects[id.id];
            let desc = creator.interface.requests@[opcode as int];
            let child = handle.child_id(id, opcode);
            let made = after.map.objects[child.id];
            &&& result is Ok <==> handle.constructor_verdict(id, opcode, args, true)
                == Verdict::Accepted
            &&& after.map.objects.dom() == handle.map.objects.dom().insert(child.id)
            &&& !handle.map.objects.contains_key(child.id)
            &&& made.data.user_data == Some(data)
            &&& made.data.serial == child.serial
            &&& made.interface == child.interface
            &&& !made.data.client_destroyed
            &&& after.pending is None
            &&& after.last_serial == child.serial
            &&& after.last_error == handle.last_error
            &&& after.debug == handle.debug
            &&& forall|n: u32|
                n != child.id && n != id.id ==> #[trigger] after.map.objects[n]
                    == handle.map.objects[n]
            &&& after.map.objects[id.id].data.client_destroyed <==> result is Ok
                && desc.is_destructor
            &&& after.map.objects[id.id].data.server_destroyed == creator.data.server_destroyed
            &&& after.map.objects[id.id].data.user_data == creator.data.user_data
            &&& after.map.objects[id.id].data.serial == creator.data.serial
            &&& after.map.objects[id.id].interface == creator.interface
            &&& after.map.objects[id.id].version == creator.version
            &&& result is Ok ==> {
                let constructed = result->Ok_0;
                let sent = constructed.outgoing.message;
                &&& constructed.id == child
                &&& sent.sender_id == id.id
                &&& sent.opcode == opcode
                &&& sent.args@.len() == args.len()
                &&& forall|i: int|
                    0 <= i < args.len() ==> {
                        &&& #[trigger] args[i] is Int ==> sent.args@[i] == ArgumentView::<u32>::Int(
                            args[i]->Int_0,
                        )
                        &&& args[i] is Uint ==> sent.args@[i] == ArgumentView::<u32>::Uint(
                            args[i]->Uint_0,
                        )
                        &&& args[i] is Fixed ==> sent.args@[i] == ArgumentView::<u32>::Fixed(
                            args[i]->Fixed_0,
                        )
                        &&& args[i] is Str ==> sent.args@[i] == ArgumentView::<u32>::Str(
                            args[i]->Str_0,
                        )
                        &&& args[i] is Array ==> sent.args@[i] == ArgumentView::<u32>::Array(
                            args[i]->Array_0,
                        )
                        &&& args[i] is Fd ==> sent.args@[i] == ArgumentView::<u32>::Fd(
                            args[i]->Fd_0,
                        )
                        &&& args[i] is Object ==> sent.args@[i] == ArgumentView::Object(
                            args[i]->Object_0.id,
                        )
                        &&& args[i] is NewId ==> sent.args@[i] == ArgumentView::NewId(child.id)
                    }
                &&& desc.is_destructor ==> constructed.outgoing.destroyed is Some
                    && constructed.outgoing.destroyed == creator.data.user_data
                &&& !desc.is_destructor ==> constructed.outgoing.destroyed is None
            }
        }),
{
    let child = handle.child_id(id, opcode);
    lemma_with_child(handle, id, opcode, data);
    law_what_a_constructor_creates(handle, id, opcode, data);
    assert(after.map.objects.dom() =~= handle.map.objects.dom().insert(child.id));
    assert forall|i: int| 0 <= i < args.len() implies #[trigger] wire_args(args, Some(child))[i]
        == wire_arg(args[i], Some(child)) by {}
}

} // verus!
