//! What holds over the life of a connection, whatever the client and the server do.
//!
//! Each call that changes a connection is a [`Step`] of it. A law on all sequences of steps is a
//! law on all sequences of calls.

use std::sync::Arc;

use vstd::prelude::*;

use super::constructor::{lemma_with_child, Constructed};
use super::display::lemma_id_deleted_wf;
use super::event::{lemma_event_destroys_wf, EventOutcome};
use super::laws::{law_reading_keeps_live_objects, serial_after};
use super::model::HandleView;
use super::request::{lemma_client_destroys_wf, lemma_destructor_is_not_of_display};
use super::{Data, Id};
use crate::map::Object;
use crate::protocol::{ArgumentView, ErrorView, Interface, InvalidId, MessageDesc, ObjectData};
use crate::wire::Message;

verus! {

/// A change of a connection.
pub enum Step<D> {
    /// A placeholder is made.
    Placeholder { kind: Option<(&'static Interface, u32)> },
    /// A request is sent that creates no object.
    Request { id: Id, opcode: u16, args: Seq<ArgumentView<Id>> },
    /// A request creates an object with the data `data`. It is sent unless one of its arguments
    /// is invalid.
    Constructor { id: Id, opcode: u16, args: Seq<ArgumentView<Id>>, data: Arc<D> },
    /// A message could not be written.
    WriteFailed { error: std::io::Error },
    /// What was received is no message.
    Malformed,
    /// An event of the display is handled.
    DisplayEvent { opcode: u16, received: Seq<ArgumentView<u32>> },
    /// An event of another object is handled, which creates objects with the data `children`.
    Event {
        sender_id: u32,
        opcode: u16,
        received: Seq<ArgumentView<u32>>,
        children: Seq<Option<Arc<D>>>,
    },
}

impl<D> HandleView<D> {
    /// Whether a step can be taken: the call that takes it is no misuse, and is not refused
    /// before it changes anything.
    pub open spec fn permits(self, step: Step<D>) -> bool {
        match step {
            Step::Placeholder { .. } => true,
            Step::Request { id, opcode, args } => self.request_verdict(id, opcode, args)
                is Accepted,
            Step::Constructor { id, opcode, args, .. } => {
                &&& self.setup_verdict(id, opcode, args, true) is Accepted
                &&& !(self.constructor_verdict(id, opcode, args, true) is Fault)
            },
            Step::WriteFailed { .. } => true,
            Step::Malformed => true,
            Step::DisplayEvent { opcode, received } => self.is_readable(1, opcode, received),
            Step::Event { sender_id, opcode, received, children } => {
                &&& sender_id != 1
                &&& self.is_readable(sender_id, opcode, received)
                &&& self.has_typed_children(self.event(sender_id, opcode), received)
                &&& children.len() <= received.len()
                &&& children.len() < received.len() ==> self.converted(
                    sender_id,
                    opcode,
                    received,
                    children,
                ).failed
            },
        }
    }

    /// The state after a step.
    pub open spec fn next(self, step: Step<D>) -> Self {
        match step {
            Step::Placeholder { kind } => HandleView { pending: kind, ..self },
            Step::Request { id, opcode, .. } => self.after_request(id, self.request(id, opcode)),
            Step::Constructor { id, opcode, args, data } => if self.constructor_verdict(
                id,
                opcode,
                args,
                true,
            ) is Accepted {
                self.with_child(id, opcode, data).after_request(id, self.request(id, opcode))
            } else {
                self.with_child(id, opcode, data)
            },
            Step::WriteFailed { error } => HandleView {
                last_error: Some(ErrorView::Io(error)),
                ..self
            },
            Step::Malformed => self.protocol_failure("Malformed Wayland message."@),
            Step::DisplayEvent { opcode, received } => self.display_event(opcode, received),
            Step::Event { sender_id, opcode, received, children } => {
                let conversion = self.converted(sender_id, opcode, received, children);
                if !conversion.failed && !self.map.objects[sender_id].data.client_destroyed
                    && self.event(sender_id, opcode).is_destructor {
                    conversion.state.event_destroys(sender_id)
                } else {
                    conversion.state
                }
            },
        }
    }

    /// How many serials are used up while the first `n` arguments of an event are read.
    pub open spec fn serials_read(
        self,
        receiver: Object<Data<D>>,
        desc: MessageDesc,
        args: Seq<ArgumentView<u32>>,
        children: Seq<Option<Arc<D>>>,
        n: nat,
    ) -> nat
        decreases n,
    {
        if n == 0 {
            0
        } else {
            let k = (n - 1) as nat;
            let before = self.serials_read(receiver, desc, args, children, k);
            if args[k as int] is NewId && !self.convert(
                receiver,
                desc,
                args,
                children,
                k,
            ).failed {
                before + 1
            } else {
                before
            }
        }
    }

    /// How many serials a step uses up.
    pub open spec fn serials(self, step: Step<D>) -> nat {
        match step {
            Step::Constructor { .. } => 1,
            Step::Event { sender_id, opcode, received, children } => self.serials_read(
                self.map.objects[sender_id],
                self.event(sender_id, opcode),
                received,
                children,
                children.len(),
            ),
            _ => 0,
        }
    }

    /// The state after steps, one after the other.
    pub open spec fn run(self, steps: Seq<Step<D>>) -> Self
        decreases steps.len(),
    {
        if steps.len() == 0 {
            self
        } else {
            self.run(steps.drop_last()).next(steps.last())
        }
    }

    /// Whether steps can be taken one after the other.
    pub open spec fn permits_run(self, steps: Seq<Step<D>>) -> bool
        decreases steps.len(),
    {
        steps.len() == 0 || self.permits_run(steps.drop_last()) && self.run(
            steps.drop_last(),
        ).permits(steps.last())
    }

    /// How many serials are used up by steps.
    pub open spec fn serials_run(self, steps: Seq<Step<D>>) -> nat
        decreases steps.len(),
    {
        if steps.len() == 0 {
            0
        } else {
            self.serials_run(steps.drop_last()) + self.run(steps.drop_last()).serials(
                steps.last(),
            )
        }
    }
}

/// Whether an identifier still has the object that it had, if it has one: the same interface and
/// version, the same data of the user, and nothing that was destroyed is alive again.
pub open spec fn same_or_gone<D>(
    before: Option<Object<Data<D>>>,
    after: Option<Object<Data<D>>>,
) -> bool {
    after is Some ==> {
        &&& before is Some
        &&& after->0.interface == before->0.interface
        &&& after->0.version == before->0.version
        &&& after->0.data.user_data == before->0.data.user_data
        &&& after->0.data.serial == before->0.data.serial
        &&& before->0.data.client_destroyed ==> after->0.data.client_destroyed
        &&& before->0.data.server_destroyed ==> after->0.data.server_destroyed
    }
}

/// A constructor that creates its object is a step of the connection, whether the data of the
/// object was given or made.
pub proof fn law_constructing_is_a_step<D>(
    handle: HandleView<D>,
    id: Id,
    opcode: u16,
    args: Seq<ArgumentView<Id>>,
    has_data: bool,
    data: Arc<D>,
    after: HandleView<D>,
    result: Result<Constructed<D>, InvalidId>,
)
    requires
        handle.setup_verdict(id, opcode, args, has_data) is Accepted,
        !(handle.constructor_verdict(id, opcode, args, has_data) is Fault),
        handle.constructs(id, opcode, args, data, after, result),
    ensures
        handle.permits(Step::Constructor { id, opcode, args, data }),
        after == handle.next(Step::Constructor { id, opcode, args, data }),
{
}

/// Handling an event is a step of the connection.
pub proof fn law_handling_is_a_step<D: ObjectData>(
    handle: HandleView<D>,
    message: Message,
    children: Seq<Option<Arc<D>>>,
    after: HandleView<D>,
    outcome: EventOutcome<D>,
)
    requires
        message.sender_id != 1,
        handle.event_fault(message) is None,
        handle.has_children(message.sender_id, message.opcode, message.args@, children),
        handle.event_ends(message, children, after, outcome),
    ensures
        ({
            let step = Step::Event {
                sender_id: message.sender_id,
                opcode: message.opcode,
                received: message.args@,
                children,
            };
            handle.permits(step) && after == handle.next(step)
        }),
{
}

/// The invariant holds at all times.
pub proof fn law_runs_keep_the_invariant<D>(handle: HandleView<D>, steps: Seq<Step<D>>)
    requires
        handle.wf(),
        handle.permits_run(steps),
    ensures
        handle.run(steps).wf(),
    decreases steps.len(),
{
    if steps.len() > 0 {
        law_runs_keep_the_invariant(handle, steps.drop_last());
        lemma_next_wf(handle.run(steps.drop_last()), steps.last());
    }
}

proof fn lemma_next_wf<D>(handle: HandleView<D>, step: Step<D>)
    requires
        handle.wf(),
        handle.permits(step),
    ensures
        handle.next(step).wf(),
{
    match step {
        Step::Request { id, opcode, .. } => {
            if handle.request(id, opcode).is_destructor {
                lemma_destructor_is_not_of_display(handle, id, opcode);
                lemma_client_destroys_wf(handle, id.id);
            }
        },
        Step::Constructor { id, opcode, data, .. } => {
            lemma_with_child(handle, id, opcode, data);
            if handle.request(id, opcode).is_destructor {
                lemma_destructor_is_not_of_display(handle, id, opcode);
                assert(handle.map.find(id.id) is Some);
                lemma_client_destroys_wf(handle.with_child(id, opcode, data), id.id);
            }
        },
        Step::DisplayEvent { opcode, received } => {
            if opcode != 0 {
                lemma_id_deleted_wf(handle, received[0]->Uint_0);
            }
        },
        Step::Event { sender_id, opcode, received, children } => {
            let receiver = handle.map.objects[sender_id];
            let desc = handle.event(sender_id, opcode);
            law_reading_keeps_live_objects(
                handle,
                receiver,
                desc,
                received,
                children,
                children.len(),
            );
            let conversion = handle.converted(sender_id, opcode, received, children);
            if !conversion.failed && !receiver.data.client_destroyed && desc.is_destructor {
                lemma_event_destroys_wf(conversion.state, sender_id);
            }
        },
        _ => {},
    }
}

/// No operation clears the last error. An error may take the place of another.
pub proof fn law_operations_keep_errors<D>(
    handle: HandleView<D>,
    id: Id,
    opcode: u16,
    data: Arc<D>,
    receiver: Object<Data<D>>,
    desc: MessageDesc,
    received: Seq<ArgumentView<u32>>,
    children: Seq<Option<Arc<D>>>,
    n: nat,
    number: u32,
    code: u32,
    message: Seq<char>,
)
    requires
        handle.last_error is Some,
    ensures
        handle.client_destroys(number).last_error is Some,
        handle.event_destroys(number).last_error is Some,
        handle.with_child(id, opcode, data).last_error is Some,
        handle.convert(receiver, desc, received, children, n).state.last_error is Some,
        handle.id_deleted(number).last_error is Some,
        handle.server_error(number, code, message).last_error is Some,
        handle.protocol_failure(message).last_error is Some,
    decreases n,
{
    if n > 0 {
        law_operations_keep_errors(
            handle,
            id,
            opcode,
            data,
            receiver,
            desc,
            received,
            children,
            (n - 1) as nat,
            number,
            code,
            message,
        );
    }
}

/// A new connection has no error. Once there was an error, there is one at all times, though a
/// later one may take its place. It is set only where a message could not be written, where the
/// server reports an error, and where it breaks the rules of the protocol.
pub proof fn law_errors_are_never_cleared<D>(
    handle: HandleView<D>,
    steps: Seq<Step<D>>,
    debug: bool,
)
    ensures
        HandleView::<D>::connected(debug).last_error is None,
        handle.last_error is Some ==> handle.run(steps).last_error is Some,
        (forall|i: int|
            0 <= i < steps.len() ==> !handle.run(steps.take(i)).sets_error(#[trigger] steps[i]))
            ==> handle.run(steps).last_error == handle.last_error,
    decreases steps.len(),
{
    if steps.len() > 0 {
        let before = steps.drop_last();
        law_errors_are_never_cleared(handle, before, debug);
        assert(before =~= steps.take(steps.len() - 1));
        assert forall|i: int| 0 <= i < before.len() implies before.take(i) == steps.take(i) by {
            assert(before.take(i) =~= steps.take(i));
        }
        lemma_next_error(handle.run(before), steps.last());
    }
}

impl<D> HandleView<D> {
    /// Whether a step is one over which there is an error.
    pub open spec fn sets_error(self, step: Step<D>) -> bool {
        match step {
            Step::WriteFailed { .. } => true,
            Step::Malformed => true,
            Step::DisplayEvent { opcode, .. } => opcode == 0,
            Step::Event { sender_id, opcode, received, children } => self.converted(
                sender_id,
                opcode,
                received,
                children,
            ).failed,
            _ => false,
        }
    }
}

proof fn lemma_next_error<D>(handle: HandleView<D>, step: Step<D>)
    ensures
        handle.last_error is Some ==> handle.next(step).last_error is Some,
        !handle.sets_error(step) ==> handle.next(step).last_error == handle.last_error,
{
    if let Step::Event { sender_id, opcode, received, children } = step {
        lemma_read_error(
            handle,
            handle.map.objects[sender_id],
            handle.event(sender_id, opcode),
            received,
            children,
            children.len(),
        );
    }
}

proof fn lemma_read_error<D>(
    handle: HandleView<D>,
    receiver: Object<Data<D>>,
    desc: MessageDesc,
    args: Seq<ArgumentView<u32>>,
    children: Seq<Option<Arc<D>>>,
    n: nat,
)
    ensures
        ({
            let conversion = handle.convert(receiver, desc, args, children, n);
            &&& conversion.failed ==> conversion.state.last_error is Some
            &&& !conversion.failed ==> conversion.state.last_error == handle.last_error
        }),
    decreases n,
{
    if n > 0 {
        lemma_read_error(handle, receiver, desc, args, children, (n - 1) as nat);
    }
}

/// Drawing serials one by one is drawing them at once, and they come round late.
proof fn lemma_serials(serial: u32, n: nat, m: nat)
    ensures
        serial_after(serial_after(serial, n), m) == serial_after(serial, n + m),
        0 < n < 0x1_0000_0000 ==> serial_after(serial, n) != serial,
{
}

/// The last serial tells how many were used up since: one for each object that was created, and
/// for each that the server has tried to create under a number that it may not use.
pub proof fn law_serials_count_objects<D>(handle: HandleView<D>, steps: Seq<Step<D>>)
    ensures
        handle.run(steps).last_serial == serial_after(
            handle.last_serial,
            handle.serials_run(steps),
        ),
    decreases steps.len(),
{
    if steps.len() > 0 {
        let before = steps.drop_last();
        law_serials_count_objects(handle, before);
        lemma_next_serials(handle.run(before), steps.last());
        lemma_serials(
            handle.last_serial,
            handle.serials_run(before),
            handle.run(before).serials(steps.last()),
        );
    }
}

proof fn lemma_next_serials<D>(handle: HandleView<D>, step: Step<D>)
    ensures
        handle.next(step).last_serial == serial_after(handle.last_serial, handle.serials(step)),
{
    if let Step::Event { sender_id, opcode, received, children } = step {
        lemma_read_serials(
            handle,
            handle.map.objects[sender_id],
            handle.event(sender_id, opcode),
            received,
            children,
            children.len(),
        );
    }
}

proof fn lemma_read_serials<D>(
    handle: HandleView<D>,
    receiver: Object<Data<D>>,
    desc: MessageDesc,
    args: Seq<ArgumentView<u32>>,
    children: Seq<Option<Arc<D>>>,
    n: nat,
)
    ensures
        handle.convert(receiver, desc, args, children, n).state.last_serial == serial_after(
            handle.last_serial,
            handle.serials_read(receiver, desc, args, children, n),
        ),
    decreases n,
{
    if n > 0 {
        let k = (n - 1) as nat;
        lemma_read_serials(handle, receiver, desc, args, children, k);
        lemma_serials(
            handle.last_serial,
            handle.serials_read(receiver, desc, args, children, k),
            1,
        );
    }
}

/// An identifier does not come to name the object that uses its number again. `k` serials were
/// used up since its own, and with that of the new object they have not come round to it.
pub proof fn law_reused_numbers_leave_identifiers_invalid<D>(
    handle: HandleView<D>,
    stale: Id,
    k: nat,
    id: Id,
    opcode: u16,
    creator: Object<Data<D>>,
    interface: &'static Interface,
    data: Arc<D>,
)
    requires
        handle.last_serial == serial_after(stale.serial, k),
        k + 1 < 0x1_0000_0000,
    ensures
        stale.id == handle.child_id(id, opcode).id ==> {
            &&& handle.with_child(id, opcode, data).get(stale) is None
            &&& handle.with_child(id, opcode, data).get(handle.child_id(id, opcode)) is Some
        },
        handle.adopted(creator, interface, stale.id, data).get(stale) is None,
        handle.adopted(creator, interface, stale.id, data).get(
            handle.new_id(interface, stale.id),
        ) is Some,
{
    lemma_serials(stale.serial, k, 1);
    lemma_serials(stale.serial, k + 1, 0);
}

/// An identifier has one object and no other. `k` serials were used up since its own. As long as
/// they have not come round to it, the identifier still has the object that it had, or is
/// invalid; and once it is invalid, it stays so, even where its number is used again.
pub proof fn law_identifiers_have_one_object<D>(
    handle: HandleView<D>,
    id: Id,
    k: nat,
    steps: Seq<Step<D>>,
)
    requires
        handle.permits_run(steps),
        handle.last_serial == serial_after(id.serial, k),
        k + handle.serials_run(steps) < 0x1_0000_0000,
    ensures
        same_or_gone(handle.get(id), handle.run(steps).get(id)),
        handle.get(id) is None ==> handle.run(steps).get(id) is None,
    decreases steps.len(),
{
    if steps.len() > 0 {
        let before = steps.drop_last();
        law_identifiers_have_one_object(handle, id, k, before);
        law_serials_count_objects(handle, before);
        lemma_serials(id.serial, k, handle.serials_run(before));
        lemma_next_object(
            handle.run(before),
            id,
            k + handle.serials_run(before),
            steps.last(),
        );
    }
}

proof fn lemma_next_object<D>(handle: HandleView<D>, id: Id, k: nat, step: Step<D>)
    requires
        handle.permits(step),
        handle.last_serial == serial_after(id.serial, k),
        k + handle.serials(step) < 0x1_0000_0000,
    ensures
        same_or_gone(handle.get(id), handle.next(step).get(id)),
{
    match step {
        Step::Constructor { id: creator, opcode, data, .. } => {
            lemma_serials(id.serial, k, 1);
            lemma_serials(id.serial, k + 1, 0);
            let made = handle.with_child(creator, opcode, data);
            assert(same_or_gone(handle.get(id), made.get(id)));
            assert(made.map.objects.contains_key(creator.id));
        },
        Step::Event { sender_id, opcode, received, children } => {
            let receiver = handle.map.objects[sender_id];
            let desc = handle.event(sender_id, opcode);
            lemma_read_object(handle, id, k, receiver, desc, received, children, children.len());
            if !receiver.data.client_destroyed {
                lemma_read_keeps_receiver(
                    handle,
                    receiver,
                    desc,
                    received,
                    children,
                    sender_id,
                    children.len(),
                );
            }
        },
        _ => {},
    }
}

/// Reading an event leaves an object in its place that the client has not destroyed.
proof fn lemma_read_keeps_receiver<D>(
    handle: HandleView<D>,
    receiver: Object<Data<D>>,
    desc: MessageDesc,
    args: Seq<ArgumentView<u32>>,
    children: Seq<Option<Arc<D>>>,
    number: u32,
    n: nat,
)
    requires
        handle.map.objects.contains_key(number),
        !handle.map.objects[number].data.client_destroyed,
    ensures
        handle.convert(receiver, desc, args, children, n).state.map.find(number) == Some(
            handle.map.objects[number],
        ),
    decreases n,
{
    if n > 0 {
        lemma_read_keeps_receiver(handle, receiver, desc, args, children, number, (n - 1) as nat);
    }
}

proof fn lemma_read_object<D>(
    handle: HandleView<D>,
    id: Id,
    k: nat,
    receiver: Object<Data<D>>,
    desc: MessageDesc,
    args: Seq<ArgumentView<u32>>,
    children: Seq<Option<Arc<D>>>,
    n: nat,
)
    requires
        handle.last_serial == serial_after(id.serial, k),
        k + handle.serials_read(receiver, desc, args, children, n) < 0x1_0000_0000,
    ensures
        same_or_gone(
            handle.get(id),
            handle.convert(receiver, desc, args, children, n).state.get(id),
        ),
    decreases n,
{
    if n > 0 {
        let m = (n - 1) as nat;
        lemma_read_object(handle, id, k, receiver, desc, args, children, m);
        lemma_read_serials(handle, receiver, desc, args, children, m);
        let drawn = handle.serials_read(receiver, desc, args, children, m);
        lemma_serials(id.serial, k, drawn);
        lemma_serials(id.serial, k + drawn, 1);
        lemma_serials(id.serial, k + drawn + 1, 0);
    }
}

} // verus!
