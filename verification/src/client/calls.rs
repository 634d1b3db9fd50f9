//! What the functions of a connection promise to their callers.
//!
//! Each law speaks of a call: of the arguments, of what the call hands back, and of the connection
//! before and after it.

use std::sync::Arc;

use vstd::prelude::*;

use super::constructor::Constructed;
use super::dispatch::{DispatchAction, DispatchError, DispatchEvent};
use super::event::{EventFault, EventOutcome};
use super::incoming::{
    law_delivered_events_are_those_received, law_failed_events_are_kept,
    law_swallowed_events_are_those_received,
};
use super::laws::{
    law_accepted_arguments, law_created_objects_are_valid, law_reading_keeps_live_objects,
};
use super::model::{objects_before, wire_args, HandleView, Verdict};
use super::outgoing::{law_what_a_constructor_creates, law_what_a_constructor_sends};
use super::request::Outgoing;
use super::{Backend, Data, Handle, Id};
use crate::map::{Object, SERVER_ID_LIMIT};
use crate::protocol::{
    arg_views, fits_signature, wl_display_interface_spec, Argument, ArgumentType, ArgumentView,
    ErrorView, Interface, InvalidId, MessageDesc, ObjectData, ObjectInfo, WaylandError,
};
use crate::text::{decimal, utf8_lossy};
use crate::wire::{Message, MessageParseError};

verus! {

/// Opening a connection: it has the display and no other object, no error, and prints messages
/// where the environment says `1` or `client`.
pub proof fn law_connecting<D>(value: Option<&str>, connection: Backend<D>, number: u32)
    requires
        call_ensures(Backend::<D>::connect, (value,), connection),
    ensures
        connection@.wf(),
        connection@.map.objects.contains_key(number) <==> number == 1,
        connection@.map.objects[1].interface == wl_display_interface_spec(),
        connection@.map.objects[1].version == 1,
        connection@.map.objects[1].data.serial == 0,
        connection@.last_error is None,
        connection@.last_serial == 0,
        connection@.pending is None,
        connection@.debug <==> value is Some && (value->0@ == "1"@ || value->0@ == "client"@),
{
}

/// Getting at the state of a connection, to look at it or to change it.
pub proof fn law_reaching_the_state<D>(connection: Backend<D>, handle: &Handle<D>)
    ensures
        call_ensures(Backend::<D>::as_handle, (&connection,), handle) ==> handle@ == connection@,
        forall|c: &mut Backend<D>, h: &mut Handle<D>| #[trigger]
            call_ensures(Backend::<D>::handle, (c,), h) ==> h@ == c@ && final(c)@ == final(h)@,
{
}

/// An identifier is null where its number is 0, and is written as the name of its interface and
/// its number.
pub proof fn law_showing_identifiers(id: Id, null: bool, text: String)
    ensures
        call_ensures(Id::is_null, (&id,), null) ==> (null <==> id.id == 0),
        call_ensures(Id::to_string, (&id,), text) ==> text@ == id.interface.name@ + "@"@ + decimal(
            id.id as nat,
        ),
{
}

/// Asking after an object: it is known where an object has the number and the serial of the
/// identifier, and then its interface, its version and its data are those that it has.
pub proof fn law_asking_after_objects<D>(
    handle: Handle<D>,
    id: Id,
    info: Result<ObjectInfo, InvalidId>,
    data: Result<Option<Arc<D>>, InvalidId>,
)
    ensures
        ({
            let known = handle@.map.objects.contains_key(id.id)
                && handle@.map.objects[id.id].data.serial == id.serial;
            let object = handle@.map.objects[id.id];
            &&& call_ensures(Handle::<D>::info, (&handle, id), info) ==> {
                &&& info is Ok <==> known
                &&& info is Ok ==> info->Ok_0.id == id.id && info->Ok_0.interface
                    == object.interface && info->Ok_0.version == object.version
            }
            &&& call_ensures(Handle::<D>::get_data, (&handle, id), data) ==> {
                &&& data is Ok <==> known
                &&& data is Ok ==> data->Ok_0 == object.data.user_data
            }
        }),
{
}

/// Asking for what a connection always has: the display, its last error, and whether messages are
/// printed.
pub proof fn law_asking_after_the_connection<D>(
    handle: Handle<D>,
    display: Id,
    error: Option<&WaylandError>,
    debug: bool,
)
    ensures
        call_ensures(Handle::<D>::display_id, (&handle,), display) ==> display.id == 1
            && display.serial == 0 && display.interface == wl_display_interface_spec(),
        call_ensures(Handle::<D>::last_error, (&handle,), error) ==> {
            &&& error is Some <==> handle@.last_error is Some
            &&& error is Some ==> handle@.last_error == Some(error->0@)
        },
        call_ensures(Handle::<D>::debug, (&handle,), debug) ==> debug == handle@.debug,
{
}

/// Asking after a number, as the server uses it: the interface of the object that has it, and the
/// signature of an event of that object.
pub proof fn law_asking_after_numbers<D>(
    handle: Handle<D>,
    number: u32,
    opcode: u16,
    interface: Option<&'static Interface>,
    signature: Option<&'static [ArgumentType]>,
)
    ensures
        ({
            let known = handle@.map.objects.contains_key(number);
            let object = handle@.map.objects[number];
            &&& call_ensures(Handle::<D>::interface_at, (&handle, number), interface) ==> {
                &&& interface is Some <==> known
                &&& interface is Some ==> interface->0 == object.interface
            }
            &&& call_ensures(Handle::<D>::event_signature, (&handle, number, opcode), signature)
                ==> {
                &&& signature is Some <==> known && opcode < object.interface.events@.len()
                &&& signature is Some ==> signature->0@
                    == object.interface.events@[opcode as int].signature@
            }
        }),
{
}

/// Making a null identifier changes nothing. Making a placeholder keeps what it is made for until
/// the next constructor, and changes nothing else. Both have the number 0.
pub proof fn law_making_identifiers<D>(kind: Option<(&'static Interface, u32)>, id: Id)
    ensures
        forall|h: &mut Handle<D>| #[trigger]
            call_ensures(Handle::<D>::null_id, (h,), id) ==> {
                &&& id.id == 0
                &&& id.serial == 0
                &&& id.interface.name@ == "<anonymous>"@
                &&& final(h)@ == h@
            },
        forall|h: &mut Handle<D>| #[trigger]
            call_ensures(Handle::<D>::placeholder_id, (h, kind), id) ==> {
                &&& id.id == 0
                &&& id.serial == 0
                &&& kind is Some ==> id.interface == (kind->0).0
                &&& kind is None ==> id.interface.name@ == "<anonymous>"@
                &&& final(h)@.pending == kind
                &&& final(h)@.map == h@.map
                &&& final(h)@.last_error == h@.last_error
                &&& final(h)@.last_serial == h@.last_serial
                &&& final(h)@.debug == h@.debug
            },
{
}

/// A message that could not be written is kept as the last error, and changes nothing else.
pub proof fn law_failing_to_write<D>(error: std::io::Error)
    ensures
        forall|h: &mut Handle<D>| #[trigger]
            call_ensures(Handle::<D>::write_failed, (h, error), ()) ==> {
                &&& final(h)@.last_error == Some(ErrorView::Io(error))
                &&& final(h)@.map == h@.map
                &&& final(h)@.last_serial == h@.last_serial
                &&& final(h)@.pending == h@.pending
                &&& final(h)@.debug == h@.debug
            },
{
}

/// Checking a request or a constructor tells what sending it would come to.
pub proof fn law_checking_requests<D>(
    handle: Handle<D>,
    id: Id,
    opcode: u16,
    args: &[Argument<Id>],
    has_data: bool,
    verdict: Verdict,
    info: ObjectInfo,
)
    ensures
        call_ensures(Handle::<D>::check_entry, (&handle, id, opcode, args), verdict) ==> {
            let object = handle@.map.objects[id.id];
            verdict is Accepted <==> handle@.map.objects.contains_key(id.id) && object.data.serial
                == id.serial && !object.data.client_destroyed && opcode
                < object.interface.requests@.len() && fits_signature(
                object.interface.requests@[opcode as int].signature@,
                arg_views(args@),
            )
        },
        call_ensures(Handle::<D>::check_request, (&handle, id, opcode, args), verdict) ==> verdict
            == handle@.request_verdict(id, opcode, arg_views(args@)),
        call_ensures(Handle::<D>::check_setup, (&handle, id, opcode, args, has_data), verdict)
            ==> verdict == handle@.setup_verdict(id, opcode, arg_views(args@), has_data),
        call_ensures(
            Handle::<D>::check_constructor,
            (&handle, id, opcode, args, has_data),
            verdict,
        ) ==> verdict == handle@.constructor_verdict(id, opcode, arg_views(args@), has_data),
        call_ensures(Handle::<D>::constructor_info, (&handle, id, opcode), info) ==> info.id
            == handle@.child_id(id, opcode).id && info.interface == handle@.child_id(
            id,
            opcode,
        ).interface && info == handle@.child_info(id, opcode),
{
}

/// Sending a request. It fails where its object does not exist or is destroyed, and where one of
/// its arguments names an object that does not exist; then nothing changes. One that can be sent
/// and names no object does not fail. What goes out has the number of the object, the opcode, and
/// the arguments as they were given, with objects by their number. Only a destructor changes
/// anything: it marks its object, whose user is to be told.
pub proof fn law_sending_requests<D>(
    id: Id,
    opcode: u16,
    args: &[Argument<Id>],
    result: Result<Outgoing<D>, InvalidId>,
    i: int,
)
    ensures
        forall|h: &mut Handle<D>| #[trigger]
            call_ensures(Handle::<D>::send_request, (h, id, opcode, args), result) ==> {
                let object = h@.map.objects[id.id];
                let alive = h@.map.objects.contains_key(id.id) && object.data.serial == id.serial
                    && !object.data.client_destroyed;
                let desc = object.interface.requests@[opcode as int];
                let given = arg_views(args@);
                let fits = opcode < object.interface.requests@.len() && fits_signature(
                    desc.signature@,
                    given,
                );
                let plain = forall|j: int|
                    0 <= j < given.len() ==> !(#[trigger] given[j] is Object) && !(given[j]
                        is NewId);
                &&& result is Ok ==> alive && fits
                &&& alive && fits && plain ==> result is Ok
                &&& result is Err ==> final(h)@ == h@
                &&& result is Ok && 0 <= i < given.len() && given[i] is Object
                    && given[i]->Object_0.id != 0 ==> {
                    let named = h@.map.objects[given[i]->Object_0.id];
                    &&& h@.map.objects.contains_key(given[i]->Object_0.id)
                    &&& named.data.serial == given[i]->Object_0.serial
                    &&& exists|k: int|
                        0 <= k < desc.arg_interfaces@.len() && (
                        #[trigger] desc.arg_interfaces@[k]).name@ == named.interface.name@
                }
                &&& result is Ok && !desc.is_destructor ==> final(h)@ == h@
                    && result->Ok_0.destroyed is None
                &&& result is Ok && desc.is_destructor ==> {
                    let marked = final(h)@.map.objects[id.id];
                    &&& result->Ok_0.destroyed is Some
                    &&& result->Ok_0.destroyed == object.data.user_data
                    &&& final(h)@.map.objects.dom() == h@.map.objects.dom()
                    &&& marked.data.client_destroyed
                    &&& marked.data.server_destroyed == object.data.server_destroyed
                    &&& marked.data.user_data == object.data.user_data
                    &&& marked.data.serial == object.data.serial
                    &&& marked.interface == object.interface
                    &&& marked.version == object.version
                    &&& forall|n: u32|
                        n != id.id ==> #[trigger] final(h)@.map.objects[n] == h@.map.objects[n]
                    &&& final(h)@.last_error == h@.last_error
                    &&& final(h)@.last_serial == h@.last_serial
                    &&& final(h)@.pending == h@.pending
                    &&& final(h)@.debug == h@.debug
                }
                &&& result is Ok ==> {
                    let sent = result->Ok_0.message;
                    &&& sent.sender_id == id.id
                    &&& sent.opcode == opcode
                    &&& sent.args@.len() == given.len()
                    &&& 0 <= i < given.len() ==> {
                        &&& given[i] is Int ==> sent.args@[i] == ArgumentView::<u32>::Int(
                            given[i]->Int_0,
                        )
                        &&& given[i] is Uint ==> sent.args@[i] == ArgumentView::<u32>::Uint(
                            given[i]->Uint_0,
                        )
                        &&& given[i] is Fixed ==> sent.args@[i] == ArgumentView::<u32>::Fixed(
                            given[i]->Fixed_0,
                        )
                        &&& given[i] is Str ==> sent.args@[i] == ArgumentView::<u32>::Str(
                            given[i]->Str_0,
                        )
                        &&& given[i] is Array ==> sent.args@[i] == ArgumentView::<u32>::Array(
                            given[i]->Array_0,
                        )
                        &&& given[i] is Fd ==> sent.args@[i] == ArgumentView::<u32>::Fd(
                            given[i]->Fd_0,
                        )
                        &&& given[i] is Object ==> sent.args@[i] == ArgumentView::Object(
                            given[i]->Object_0.id,
                        )
                        &&& !(given[i] is NewId)
                    }
                }
            },
{
    assert forall|h: &mut Handle<D>| #[trigger]
        call_ensures(Handle::<D>::send_request, (h, id, opcode, args), result) implies {
        let object = h@.map.objects[id.id];
        let alive = h@.map.objects.contains_key(id.id) && object.data.serial == id.serial
            && !object.data.client_destroyed;
        let desc = object.interface.requests@[opcode as int];
        let given = arg_views(args@);
        let fits = opcode < object.interface.requests@.len() && fits_signature(
            desc.signature@,
            given,
        );
        let plain = forall|j: int|
            0 <= j < given.len() ==> !(#[trigger] given[j] is Object) && !(given[j] is NewId);
        &&& result is Ok ==> alive && fits
        &&& alive && fits && plain ==> result is Ok
        &&& result is Ok && 0 <= i < given.len() && given[i] is Object && given[i]->Object_0.id
            != 0 ==> {
            let named = h@.map.objects[given[i]->Object_0.id];
            &&& h@.map.objects.contains_key(given[i]->Object_0.id)
            &&& named.data.serial == given[i]->Object_0.serial
            &&& exists|k: int|
                0 <= k < desc.arg_interfaces@.len() && (#[trigger] desc.arg_interfaces@[k]).name@
                    == named.interface.name@
        }
        &&& result is Ok && 0 <= i < given.len() ==> !(given[i] is NewId)
        &&& result is Ok ==> final(h)@.map.objects.dom() =~= h@.map.objects.dom()
    } by {
        let given = arg_views(args@);
        let desc = h@.map.objects[id.id].interface.requests@[opcode as int];
        law_accepted_arguments(h@, desc, given, None);
        if result is Ok && 0 <= i < given.len() {
            assert(h@.arg_verdict(desc, given, i, None) is Accepted);
            if given[i] is Object && given[i]->Object_0.id != 0 {
                let place = objects_before(wire_args(given, None), i);
                lemma_count_is_natural(wire_args(given, None), i);
                assert(desc.arg_interfaces@[place].name@
                    == h@.map.objects[given[i]->Object_0.id].interface.name@);
            }
        }
    }
}

proof fn lemma_count_is_natural(args: Seq<ArgumentView<u32>>, i: int)
    ensures
        objects_before(args, i) >= 0,
    decreases i,
{
    if i > 0 {
        lemma_count_is_natural(args, i - 1);
    }
}

/// Sending a constructor, with the data of the new object. It fails where its object does not exist
/// or is destroyed; then nothing changes. Else the new object is there: under a number that was
/// free, with the next serial, with the data, and of the interface and version of the placeholder,
/// or of the request and its object. What goes out has the number of the object, the opcode, and
/// the arguments as they were given, with the number of the new object where its placeholder was.
pub proof fn law_constructing<D>(
    id: Id,
    opcode: u16,
    args: &[Argument<Id>],
    data: Arc<D>,
    result: Result<Constructed<D>, InvalidId>,
    i: int,
)
    ensures
        forall|h: &mut Handle<D>| #[trigger]
            call_ensures(Handle::<D>::construct, (h, id, opcode, args, data), result) && h@.wf()
                && !(h@.constructor_verdict(id, opcode, arg_views(args@), true) is Fault)
                ==> constructed_as_promised(
                h@,
                id,
                opcode,
                arg_views(args@),
                data,
                final(h)@,
                result,
                i,
            ),
{
    assert forall|h: &mut Handle<D>| #[trigger]
        call_ensures(Handle::<D>::construct, (h, id, opcode, args, data), result) && h@.wf()
            && !(h@.constructor_verdict(
            id,
            opcode,
            arg_views(args@),
            true,
        ) is Fault) implies constructed_as_promised(
        h@,
        id,
        opcode,
        arg_views(args@),
        data,
        final(h)@,
        result,
        i,
    ) by {
        let given = arg_views(args@);
        if h@.setup_verdict(id, opcode, given, true) is Accepted {
            law_what_a_constructor_creates(h@, id, opcode, data);
            law_what_a_constructor_sends(h@, id, opcode, given, data, final(h)@, result);
        }
    }
}

/// What a caller of a constructor can count on.
pub open spec fn constructed_as_promised<D>(
    before: HandleView<D>,
    id: Id,
    opcode: u16,
    given: Seq<ArgumentView<Id>>,
    data: Arc<D>,
    after: HandleView<D>,
    result: Result<Constructed<D>, InvalidId>,
    i: int,
) -> bool {
    let creator = before.map.objects[id.id];
    let alive = before.map.objects.contains_key(id.id) && creator.data.serial == id.serial
        && !creator.data.client_destroyed;
    let desc = creator.interface.requests@[opcode as int];
    let number = before.map.lowest_free();
    let made = after.map.objects[number];
    let interface = if before.pending is Some {
        (before.pending->0).0
    } else {
        desc.child_interface->0
    };
    let version = if before.pending is Some {
        (before.pending->0).1
    } else {
        creator.version
    };
    &&& result is Ok ==> alive
    &&& !alive ==> after == before
    &&& alive ==> {
        &&& 1 <= number < SERVER_ID_LIMIT
        &&& !before.map.objects.contains_key(number)
        &&& after.map.objects.dom() == before.map.objects.dom().insert(number)
        &&& made.interface == interface
        &&& made.version == version
        &&& made.data.user_data == Some(data)
        &&& !made.data.client_destroyed
        &&& !made.data.server_destroyed
        &&& made.data.serial == after.last_serial
        &&& before.last_serial < u32::MAX ==> after.last_serial == before.last_serial + 1
        &&& before.last_serial == u32::MAX ==> after.last_serial == 0
        &&& after.pending is None
        &&& after.last_error == before.last_error
        &&& after.debug == before.debug
        &&& forall|n: u32|
            n != number && n != id.id ==> #[trigger] after.map.objects[n] == before.map.objects[n]
        &&& after.map.objects[id.id].data.client_destroyed <==> result is Ok && desc.is_destructor
        &&& after.map.objects[id.id].data.server_destroyed == creator.data.server_destroyed
        &&& after.map.objects[id.id].data.user_data == creator.data.user_data
        &&& after.map.objects[id.id].data.serial == creator.data.serial
        &&& after.map.objects[id.id].interface == creator.interface
        &&& after.map.objects[id.id].version == creator.version
    }
    &&& result is Ok ==> {
        let constructed = result->Ok_0;
        let sent = constructed.outgoing.message;
        &&& constructed.id.id == number
        &&& constructed.id.serial == after.last_serial
        &&& constructed.id.interface == interface
        &&& sent.sender_id == id.id
        &&& sent.opcode == opcode
        &&& sent.args@.len() == given.len()
        &&& desc.is_destructor ==> constructed.outgoing.destroyed is Some
            && constructed.outgoing.destroyed == creator.data.user_data
        &&& !desc.is_destructor ==> constructed.outgoing.destroyed is None
        &&& 0 <= i < given.len() ==> {
            &&& given[i] is Int ==> sent.args@[i] == ArgumentView::<u32>::Int(given[i]->Int_0)
            &&& given[i] is Uint ==> sent.args@[i] == ArgumentView::<u32>::Uint(given[i]->Uint_0)
            &&& given[i] is Fixed ==> sent.args@[i] == ArgumentView::<u32>::Fixed(
                given[i]->Fixed_0,
            )
            &&& given[i] is Str ==> sent.args@[i] == ArgumentView::<u32>::Str(given[i]->Str_0)
            &&& given[i] is Array ==> sent.args@[i] == ArgumentView::<u32>::Array(
                given[i]->Array_0,
            )
            &&& given[i] is Fd ==> sent.args@[i] == ArgumentView::<u32>::Fd(given[i]->Fd_0)
            &&& given[i] is Object ==> sent.args@[i] == ArgumentView::Object(given[i]->Object_0.id)
            &&& given[i] is NewId ==> sent.args@[i] == ArgumentView::NewId(number)
        }
    }
}

/// Sending a constructor, where the data of the new object may be made from that of its creator. It
/// ends as one with that data: what was given, or what the user has made, being told the number,
/// the interface and the version of the new object.
pub proof fn law_sending_constructors<D: ObjectData>(
    id: Id,
    opcode: u16,
    args: &[Argument<Id>],
    given: Option<Arc<D>>,
    result: Result<Constructed<D>, InvalidId>,
    i: int,
)
    ensures
        forall|h: &mut Handle<D>| #[trigger]
            call_ensures(Handle::<D>::send_constructor, (h, id, opcode, args, given), result)
                && h@.wf() && !(h@.constructor_verdict(
                id,
                opcode,
                arg_views(args@),
                given is Some,
            ) is Fault) ==> exists|data: Arc<D>| #[trigger]
                constructed_as_promised(
                    h@,
                    id,
                    opcode,
                    arg_views(args@),
                    data,
                    final(h)@,
                    result,
                    i,
                ) && (given is Some ==> data == given->0) && (given is None && h@.get(id) is Some
                    && !h@.get(id)->0.data.client_destroyed ==> call_ensures(
                    D::make_child,
                    (
                        &*(h@.map.objects[id.id].data.user_data->0),
                        &ObjectInfo {
                            id: h@.map.lowest_free(),
                            interface: final(h)@.map.objects[h@.map.lowest_free()].interface,
                            version: final(h)@.map.objects[h@.map.lowest_free()].version,
                        },
                    ),
                    data,
                )),
{
    assert forall|h: &mut Handle<D>| #[trigger]
        call_ensures(Handle::<D>::send_constructor, (h, id, opcode, args, given), result)
            && h@.wf() && !(h@.constructor_verdict(
            id,
            opcode,
            arg_views(args@),
            given is Some,
        ) is Fault) implies exists|data: Arc<D>| #[trigger]
        constructed_as_promised(
            h@,
            id,
            opcode,
            arg_views(args@),
            data,
            final(h)@,
            result,
            i,
        ) && (given is Some ==> data == given->0) && (given is None && h@.get(id) is Some
            && !h@.get(id)->0.data.client_destroyed ==> call_ensures(
            D::make_child,
            (
                &*(h@.map.objects[id.id].data.user_data->0),
                &ObjectInfo {
                    id: h@.map.lowest_free(),
                    interface: final(h)@.map.objects[h@.map.lowest_free()].interface,
                    version: final(h)@.map.objects[h@.map.lowest_free()].version,
                },
            ),
            data,
        )) by {
        let views = arg_views(args@);
        if h@.setup_verdict(id, opcode, views, given is Some) is Accepted {
            let data = choose|data: Arc<D>| #[trigger]
                h@.child_data(id, opcode, given, data) && h@.constructs(
                    id,
                    opcode,
                    views,
                    data,
                    final(h)@,
                    result,
                );
            law_what_a_constructor_creates(h@, id, opcode, data);
            law_what_a_constructor_sends(h@, id, opcode, views, data, final(h)@, result);
            assert(constructed_as_promised(h@, id, opcode, views, data, final(h)@, result, i));
        } else {
            let data = if given is Some {
                given->0
            } else {
                arbitrary()
            };
            assert(constructed_as_promised(h@, id, opcode, views, data, final(h)@, result, i));
        }
    }
}

/// Being told that the server has given up an id: the object that has it is gone if the client has
/// destroyed it, and else is marked. Nothing else changes.
pub open spec fn deleted_as_promised<D>(
    before: HandleView<D>,
    id: u32,
    after: HandleView<D>,
) -> bool {
    let known = before.map.objects.contains_key(id);
    let object = before.map.objects[id];
    let left = after.map.objects[id];
    &&& after.map.objects.contains_key(id) <==> known && !object.data.client_destroyed
    &&& known && !object.data.client_destroyed ==> {
        &&& left.data.server_destroyed
        &&& !left.data.client_destroyed
        &&& left.data.user_data == object.data.user_data
        &&& left.data.serial == object.data.serial
        &&& left.interface == object.interface
        &&& left.version == object.version
    }
    &&& known && object.data.client_destroyed ==> after.map.is_available(id)
    &&& forall|other: u32|
        other != id ==> (#[trigger] after.map.objects.contains_key(other)
            <==> before.map.objects.contains_key(other))
    &&& forall|other: u32|
        other != id && before.map.objects.contains_key(other) ==> #[trigger]
        after.map.objects[other] == before.map.objects[other]
    &&& after.last_error == before.last_error
    &&& after.last_serial == before.last_serial
    &&& after.pending == before.pending
    &&& after.debug == before.debug
}

/// Being told of an error: it is kept as the last error, with its code, its object, the interface
/// of its object, and its text. Nothing else changes.
pub open spec fn reported_as_promised<D>(
    before: HandleView<D>,
    object_id: u32,
    code: u32,
    text: Seq<char>,
    after: HandleView<D>,
) -> bool {
    &&& after.last_error == Some(
        ErrorView::Protocol {
            code,
            object_id,
            object_interface: if before.map.objects.contains_key(object_id) {
                before.map.objects[object_id].interface.name@
            } else {
                "<unknown>"@
            },
            message: text,
        },
    )
    &&& after.map == before.map
    &&& after.last_serial == before.last_serial
    &&& after.pending == before.pending
    &&& after.debug == before.debug
}

/// Handling an event of the display: the first of its events reports an error, the second gives up
/// an id.
pub proof fn law_handling_display_events<D>(
    message: Message,
    object_id: u32,
    code: u32,
    text: String,
    id: u32,
)
    ensures
        forall|h: &mut Handle<D>| #[trigger]
            call_ensures(Handle::<D>::record_server_error, (h, object_id, code, text), ())
                ==> reported_as_promised(h@, object_id, code, text@, final(h)@),
        forall|h: &mut Handle<D>| #[trigger]
            call_ensures(Handle::<D>::delete_id, (h, id), ()) && h@.wf() ==> deleted_as_promised(
                h@,
                id,
                final(h)@,
            ),
        forall|h: &mut Handle<D>| #[trigger]
            call_ensures(Handle::<D>::handle_display_event, (h, &message), ()) && h@.wf() ==> {
                &&& message.opcode == 0 ==> reported_as_promised(
                    h@,
                    message.args@[0]->Object_0,
                    message.args@[1]->Uint_0,
                    utf8_lossy(message.args@[2]->Str_0),
                    final(h)@,
                )
                &&& message.opcode == 1 ==> deleted_as_promised(
                    h@,
                    message.args@[0]->Uint_0,
                    final(h)@,
                )
            },
{
    assert forall|before: HandleView<D>, n: u32| before.wf() implies #[trigger] deleted_as_promised(
        before,
        n,
        before.id_deleted(n),
    ) by {
        if before.map.objects.contains_key(n) {
            assert(before.map.is_used(n));
        }
    }
}

/// Looking up an object that the server names, and taking up one that it creates.
pub proof fn law_looking_up_and_taking_up<D>(
    number: u32,
    expected: Option<&'static Interface>,
    creator: Object<Data<D>>,
    interface: &'static Interface,
    data: Arc<D>,
    result: Result<Id, ()>,
)
    ensures
        forall|h: &mut Handle<D>| #[trigger]
            call_ensures(Handle::<D>::identify_object, (h, number, expected), result) ==> {
                let known = h@.map.objects.contains_key(number);
                let object = h@.map.objects[number];
                let wrong = expected is Some && expected->0.name@ != object.interface.name@
                    && expected->0.name@ != "<anonymous>"@;
                &&& result is Ok <==> known && !wrong
                &&& result is Ok ==> {
                    &&& result->Ok_0.id == number
                    &&& result->Ok_0.serial == object.data.serial
                    &&& result->Ok_0.interface == object.interface
                    &&& final(h)@ == h@
                }
                &&& final(h)@.map == h@.map
                &&& final(h)@.last_serial == h@.last_serial
                &&& final(h)@.pending == h@.pending
                &&& final(h)@.debug == h@.debug
                &&& result is Err ==> final(h)@.last_error is Some
            },
        forall|h: &mut Handle<D>| #[trigger]
            call_ensures(
                Handle::<D>::adopt_child,
                (h, &creator, interface, number, data),
                result,
            ) && h@.wf() ==> {
                let taken = h@.map.objects.contains_key(number);
                let free = number != 0 && !taken && if number < SERVER_ID_LIMIT {
                    number <= h@.map.clients + 1
                } else {
                    number <= SERVER_ID_LIMIT + h@.map.servers
                };
                let gives_way = number >= SERVER_ID_LIMIT && taken
                    && h@.map.objects[number].data.client_destroyed;
                let made = final(h)@.map.objects[number];
                &&& result is Ok <==> free || gives_way
                &&& h@.last_serial < u32::MAX ==> final(h)@.last_serial == h@.last_serial + 1
                &&& h@.last_serial == u32::MAX ==> final(h)@.last_serial == 0
                &&& result is Ok ==> {
                    &&& result->Ok_0.id == number
                    &&& result->Ok_0.serial == final(h)@.last_serial
                    &&& result->Ok_0.interface == interface
                    &&& final(h)@.map.objects.contains_key(number)
                    &&& made.interface == interface
                    &&& made.version == creator.version
                    &&& made.data.client_destroyed == creator.data.client_destroyed
                    &&& !made.data.server_destroyed
                    &&& made.data.user_data == Some(data)
                    &&& made.data.serial == final(h)@.last_serial
                    &&& final(h)@.last_error == h@.last_error
                    &&& forall|other: u32|
                        other != number ==> #[trigger] final(h)@.map.objects[other]
                            == h@.map.objects[other]
                }
                &&& result is Err ==> final(h)@.map == h@.map && final(h)@.last_error is Some
                &&& final(h)@.pending == h@.pending
                &&& final(h)@.debug == h@.debug
            },
{
    assert forall|h: &mut Handle<D>| #[trigger]
        call_ensures(
            Handle::<D>::adopt_child,
            (h, &creator, interface, number, data),
            result,
        ) && h@.wf() && h@.map.objects.contains_key(number) implies h@.map.is_used(number) by {}
}

/// Checking a message tells whether it can be handled.
pub proof fn law_checking_events<D>(
    handle: Handle<D>,
    message: Message,
    fault: Option<EventFault>,
)
    requires
        call_ensures(Handle::<D>::check_event, (&handle, &message), fault),
    ensures
        fault == handle@.event_fault(message),
        fault is None ==> handle@.map.objects.contains_key(message.sender_id) && message.opcode
            < handle@.map.objects[message.sender_id].interface.events@.len(),
        ({
            let object = handle@.map.objects[message.sender_id];
            let args = message.args@;
            handle@.map.objects.contains_key(message.sender_id) && message.sender_id != 1
                && message.opcode < object.interface.events@.len() && args.len() <= 1000 && (
            object.interface.events@[message.opcode as int].child_interface is Some || forall|
                j: int,
            | 0 <= j < args.len() ==> !(#[trigger] args[j] is NewId)) ==> fault is None
        }),
{
}

/// What a user gets of an event is what was received: the opcode, the object with its data and its
/// identifier, and every argument, with plain values as they are and objects under their numbers.
/// Only an event of an object that the client has not destroyed is delivered.
pub open spec fn delivered_as_promised<D>(
    before: HandleView<D>,
    message: Message,
    after: HandleView<D>,
    outcome: EventOutcome<D>,
    i: int,
) -> bool {
    let object = before.map.objects[message.sender_id];
    let desc = object.interface.events@[message.opcode as int];
    let args = message.args@;
    let arg = args[i];
    let plain = forall|j: int|
        0 <= j < args.len() ==> !(#[trigger] args[j] is Object) && !(args[j] is NewId);
    &&& plain && !object.data.client_destroyed ==> outcome is Delivered
    &&& plain && object.data.client_destroyed ==> outcome is Swallowed && after == before
    &&& plain && !desc.is_destructor ==> after == before
    &&& outcome is Failed ==> after.last_error is Some
    &&& !(outcome is Failed) ==> after.last_error == before.last_error
    &&& after.pending == before.pending
    &&& after.debug == before.debug
    &&& outcome is Delivered ==> {
        let delivery = outcome->Delivered_0;
        let got = delivery.args@[i];
        &&& !object.data.client_destroyed
        &&& delivery.opcode == message.opcode
        &&& delivery.id.id == message.sender_id
        &&& delivery.id.serial == object.data.serial
        &&& delivery.id.interface == object.interface
        &&& delivery.name@ == desc.name@
        &&& object.data.user_data == Some(delivery.user_data)
        &&& delivery.destroyed <==> desc.is_destructor
        &&& after.map.objects.contains_key(message.sender_id)
        &&& after.map.objects[message.sender_id].data.serial == object.data.serial
        &&& after.map.objects[message.sender_id].data.client_destroyed <==> desc.is_destructor
        &&& desc.is_destructor ==> after.map.objects[message.sender_id].data.server_destroyed
        &&& delivery.args@.len() == args.len()
        &&& 0 <= i < args.len() ==> {
            &&& arg is Int ==> got == ArgumentView::<Id>::Int(arg->Int_0)
            &&& arg is Uint ==> got == ArgumentView::<Id>::Uint(arg->Uint_0)
            &&& arg is Fixed ==> got == ArgumentView::<Id>::Fixed(arg->Fixed_0)
            &&& arg is Str ==> got == ArgumentView::<Id>::Str(arg->Str_0)
            &&& arg is Array ==> got == ArgumentView::<Id>::Array(arg->Array_0)
            &&& arg is Fd ==> got == ArgumentView::<Id>::Fd(arg->Fd_0)
            &&& arg is Object ==> got is Object && got->Object_0.id == arg->Object_0
            &&& arg is NewId ==> {
                &&& got is NewId
                &&& got->NewId_0.id == arg->NewId_0
                &&& got->NewId_0.interface == desc.child_interface->0
                &&& after.map.objects.contains_key(arg->NewId_0)
                &&& after.map.objects[arg->NewId_0].data.serial == got->NewId_0.serial
                &&& after.map.objects[arg->NewId_0].interface == desc.child_interface->0
                &&& after.map.objects[arg->NewId_0].version == object.version
            }
        }
    }
    &&& outcome is Swallowed ==> {
        let swallowed = outcome->Swallowed_0;
        &&& object.data.client_destroyed
        &&& swallowed.id.id == message.sender_id
        &&& swallowed.id.serial == object.data.serial
        &&& swallowed.id.interface == object.interface
        &&& swallowed.name@ == desc.name@
        &&& swallowed.args@.len() == args.len()
        &&& swallowed.fds@ == args.filter(|a: ArgumentView<u32>| a is Fd).map_values(
            |a: ArgumentView<u32>| a->Fd_0,
        )
    }
}

proof fn lemma_delivered<D: ObjectData>(
    before: HandleView<D>,
    message: Message,
    children: Seq<Option<Arc<D>>>,
    after: HandleView<D>,
    outcome: EventOutcome<D>,
    i: int,
)
    requires
        before.wf(),
        before.map.objects.contains_key(message.sender_id),
        before.has_children(message.sender_id, message.opcode, message.args@, children),
        before.event_ends(message, children, after, outcome),
    ensures
        delivered_as_promised(before, message, after, outcome, i),
{
    let object = before.map.objects[message.sender_id];
    let desc = object.interface.events@[message.opcode as int];
    let args = message.args@;
    let action: DispatchAction<D> = match outcome {
        EventOutcome::Failed => DispatchAction::Return(Err(DispatchError::Protocol)),
        EventOutcome::Swallowed(swallowed) => DispatchAction::Close(swallowed),
        EventOutcome::Delivered(delivery) => DispatchAction::Deliver(delivery),
    };
    law_failed_events_are_kept(before, message, children, after, outcome, action);
    law_reading_keeps_live_objects(
        before,
        object,
        desc,
        args,
        children,
        children.len(),
    );
    if forall|j: int|
        0 <= j < args.len() ==> !(#[trigger] args[j] is Object) && !(args[j] is NewId) {
        lemma_plain_events_change_nothing(before, object, desc, args, children, children.len());
    }
    if outcome is Delivered {
        law_delivered_events_are_those_received(before, message, children, after, outcome, i);
        assert(before.convert(
            object,
            desc,
            args,
            children,
            children.len(),
        ).state.map.find(message.sender_id) == Some(object));
        if 0 <= i < args.len() && args[i] is NewId {
            law_created_objects_are_valid(
                before,
                object,
                desc,
                args,
                children,
                children.len(),
                i,
            );
        }
    }
    if outcome is Swallowed {
        law_swallowed_events_are_those_received(before, message, children, after, outcome, i);
    }
}

proof fn lemma_plain_events_change_nothing<D>(
    handle: HandleView<D>,
    receiver: Object<Data<D>>,
    desc: MessageDesc,
    args: Seq<ArgumentView<u32>>,
    children: Seq<Option<Arc<D>>>,
    n: nat,
)
    requires
        n <= args.len(),
        forall|j: int|
            0 <= j < args.len() ==> !(#[trigger] args[j] is Object) && !(args[j] is NewId),
    ensures
        !handle.convert(receiver, desc, args, children, n).failed,
        handle.convert(receiver, desc, args, children, n).state == handle,
    decreases n,
{
    if n > 0 {
        lemma_plain_events_change_nothing(
            handle,
            receiver,
            desc,
            args,
            children,
            (n - 1) as nat,
        );
        assert(!(args[n - 1] is Object) && !(args[n - 1] is NewId));
    }
}

/// Handling an event of an object other than the display.
pub proof fn law_handling_events<D: ObjectData>(
    message: Message,
    outcome: EventOutcome<D>,
    i: int,
)
    ensures
        forall|h: &mut Handle<D>| #[trigger]
            call_ensures(Handle::<D>::handle_event, (h, &message), outcome) && h@.wf()
                && h@.map.objects.contains_key(message.sender_id) ==> delivered_as_promised(
                h@,
                message,
                final(h)@,
                outcome,
                i,
            ),
{
    assert forall|h: &mut Handle<D>| #[trigger]
        call_ensures(Handle::<D>::handle_event, (h, &message), outcome) && h@.wf()
            && h@.map.objects.contains_key(message.sender_id) implies delivered_as_promised(
        h@,
        message,
        final(h)@,
        outcome,
        i,
    ) by {
        let children = choose|children: Seq<Option<Arc<D>>>| #[trigger]
            h@.has_children(message.sender_id, message.opcode, message.args@, children)
                && h@.event_ends(message, children, final(h)@, outcome);
        lemma_delivered(h@, message, children, final(h)@, outcome, i);
    }
}

/// Dispatching a message. An event of the display is handled, and reading goes on. Any other event
/// is delivered, or swallowed, or ends the dispatching with an error of the protocol.
pub proof fn law_dispatching_messages<D: ObjectData>(
    event: DispatchEvent,
    action: DispatchAction<D>,
    i: int,
)
    requires
        event is Read,
        event->Read_0 is Ok,
    ensures
        forall|b: &mut Backend<D>, dispatched: &mut usize| #[trigger]
            call_ensures(Backend::<D>::dispatch_events, (b, dispatched, event), action)
                && b@.wf() && b@.map.objects.contains_key(event->Read_0->Ok_0.sender_id) ==> {
                let message = event->Read_0->Ok_0;
                &&& *final(dispatched) == *dispatched
                &&& message.sender_id == 1 ==> {
                    &&& action is Read
                    &&& message.opcode == 0 ==> reported_as_promised(
                        b@,
                        message.args@[0]->Object_0,
                        message.args@[1]->Uint_0,
                        utf8_lossy(message.args@[2]->Str_0),
                        final(b)@,
                    )
                    &&& message.opcode == 1 ==> deleted_as_promised(
                        b@,
                        message.args@[0]->Uint_0,
                        final(b)@,
                    )
                }
                &&& message.sender_id != 1 ==> match action {
                    DispatchAction::Deliver(delivery) => delivered_as_promised(
                        b@,
                        message,
                        final(b)@,
                        EventOutcome::Delivered(delivery),
                        i,
                    ),
                    DispatchAction::Close(swallowed) => delivered_as_promised(
                        b@,
                        message,
                        final(b)@,
                        EventOutcome::<D>::Swallowed(swallowed),
                        i,
                    ),
                    DispatchAction::Return(Err(DispatchError::Protocol)) => delivered_as_promised(
                        b@,
                        message,
                        final(b)@,
                        EventOutcome::<D>::Failed,
                        i,
                    ),
                    _ => false,
                }
            },
{
    let message = event->Read_0->Ok_0;
    assert forall|before: HandleView<D>, n: u32| before.wf() implies #[trigger] deleted_as_promised(
        before,
        n,
        before.id_deleted(n),
    ) by {
        if before.map.objects.contains_key(n) {
            assert(before.map.is_used(n));
        }
    }
    assert forall|b: &mut Backend<D>, dispatched: &mut usize| #[trigger]
        call_ensures(Backend::<D>::dispatch_events, (b, dispatched, event), action) && b@.wf()
            && b@.map.objects.contains_key(message.sender_id) && message.sender_id
            != 1 implies match action {
        DispatchAction::Deliver(delivery) => delivered_as_promised(
            b@,
            message,
            final(b)@,
            EventOutcome::Delivered(delivery),
            i,
        ),
        DispatchAction::Close(swallowed) => delivered_as_promised(
            b@,
            message,
            final(b)@,
            EventOutcome::<D>::Swallowed(swallowed),
            i,
        ),
        DispatchAction::Return(Err(DispatchError::Protocol)) => delivered_as_promised(
            b@,
            message,
            final(b)@,
            EventOutcome::<D>::Failed,
            i,
        ),
        _ => false,
    } by {
        let (children, outcome) = choose|
            children: Seq<Option<Arc<D>>>,
            outcome: EventOutcome<D>,
        | #[trigger]
            action.follows(outcome) && #[trigger] b@.has_children(
                message.sender_id,
                message.opcode,
                message.args@,
                children,
            ) && b@.event_ends(message, children, final(b)@, outcome);
        lemma_delivered(b@, message, children, final(b)@, outcome, i);
    }
}

/// Dispatching goes on as long as there is something to read. It ends without an error only where
/// nothing more can be read for now and the user has got an event, and then tells how many. A
/// delivered event counts as one, and nothing else counts.
pub proof fn law_dispatching<D: ObjectData>(event: DispatchEvent, action: DispatchAction<D>)
    ensures
        forall|b: &mut Backend<D>, dispatched: &mut usize| #[trigger]
            call_ensures(Backend::<D>::dispatch_events, (b, dispatched, event), action) ==> {
                &&& event is Delivered ==> action is Read && *final(dispatched) == *dispatched + 1
                &&& !(event is Delivered) ==> *final(dispatched) == *dispatched
                &&& event is Closed ==> action is Read
                &&& event is Filled && event->Filled_0 is Ok ==> action is Read
                &&& event is Filled && event->Filled_0 is Err ==> {
                    let error = event->Filled_0->Err_0;
                    &&& error.would_block && *dispatched > 0 ==> action
                        == DispatchAction::<D>::Return(Ok(*dispatched))
                    &&& !error.would_block || *dispatched == 0 ==> action
                        == DispatchAction::<D>::Return(Err(DispatchError::Io(error.error)))
                }
                &&& event == DispatchEvent::Read(Err(MessageParseError::MissingData)) ==> action
                    is Fill
                &&& event == DispatchEvent::Read(Err(MessageParseError::MissingFD)) ==> action
                    is Fill
                &&& event == DispatchEvent::Read(Err(MessageParseError::Malformed)) ==> {
                    &&& action == DispatchAction::<D>::Return(Err(DispatchError::Protocol))
                    &&& final(b)@.last_error == Some(
                        ErrorView::Protocol {
                            code: 0,
                            object_id: 0,
                            object_interface: ""@,
                            message: "Malformed Wayland message."@,
                        },
                    )
                    &&& final(b)@.map == b@.map
                    &&& final(b)@.last_serial == b@.last_serial
                    &&& final(b)@.pending == b@.pending
                    &&& final(b)@.debug == b@.debug
                }
                &&& event is Delivered || event is Closed || event is Filled ==> final(b)@ == b@
                &&& event == DispatchEvent::Read(Err(MessageParseError::MissingData)) || event
                    == DispatchEvent::Read(Err(MessageParseError::MissingFD)) ==> final(b)@ == b@
            },
{
}

/// An error of the socket is handed on as it is.
pub proof fn law_handing_on_errors(error: DispatchError, io: std::io::Error)
    requires
        call_ensures(DispatchError::into_io_error, (error,), io),
    ensures
        error is Io ==> io == error->Io_0,
{
}

} // verus!
