//! The mathematical model of a connection, which the contracts speak of.

use std::sync::Arc;

use vstd::prelude::*;

use super::{Data, Id};
use crate::protocol::{
    anonymous_interface_spec, fits_signature, same_interface_spec, wl_display_interface_spec,
    AllowNull, ArgumentType, ArgumentView, ErrorView, Interface, MessageDesc, ObjectData,
    ObjectInfo,
};
use crate::map::{MapView, Object, SERVER_ID_LIMIT};
use crate::text::{decimal, utf8_lossy};

verus! {

/// A misuse of the library: a request that must not be made.
#[derive(Debug, Clone, Copy)]
pub enum RequestFault {
    /// The interface has no such request.
    UnknownOpcode,
    /// The arguments do not fit the signature of the request.
    WrongSignature,
    /// The request creates an object, and was not sent as a constructor.
    CreatesObject,
    /// The request describes no interface for the object.
    UnexpectedObject,
    /// An object of another interface is expected.
    WrongInterface { expected: &'static Interface, found: &'static Interface },
    /// The argument must not be null.
    NullObject,
    /// The placeholder was made for another interface.
    WrongPlaceholder { expected: &'static Interface, found: &'static Interface },
    /// The placeholder was made for another version.
    WrongPlaceholderVersion { expected_version: u32, found_version: u32 },
    /// The request creates an object of any interface, and no placeholder says which.
    MissingPlaceholder,
    /// The id given for the new object is not a placeholder.
    NotPlaceholder,
    /// No data was given for the new object, and its creator has none to make it from.
    MissingData,
    /// The client has used up its ids.
    IdsExhausted,
}

/// What becomes of a request.
#[derive(Debug, Clone, Copy)]
pub enum Verdict {
    /// It can be sent.
    Accepted,
    /// One of its objects does not exist (any more).
    InvalidId,
    /// It is a misuse of the library.
    Fault(RequestFault),
}

/// An argument as it travels: an object is named by its number. Every object that the message
/// creates has the number of `child`, where there is one.
pub open spec fn wire_arg(arg: ArgumentView<Id>, child: Option<Id>) -> ArgumentView<u32> {
    match arg {
        ArgumentView::Int(i) => ArgumentView::Int(i),
        ArgumentView::Uint(u) => ArgumentView::Uint(u),
        ArgumentView::Fixed(f) => ArgumentView::Fixed(f),
        ArgumentView::Str(s) => ArgumentView::Str(s),
        ArgumentView::Object(o) => ArgumentView::Object(o.id),
        ArgumentView::NewId(n) => ArgumentView::NewId(
            match child {
                Some(c) => c.id,
                None => n.id,
            },
        ),
        ArgumentView::Array(a) => ArgumentView::Array(a),
        ArgumentView::Fd(fd) => ArgumentView::Fd(fd),
    }
}

/// The arguments of a message as they travel.
pub open spec fn wire_args(args: Seq<ArgumentView<Id>>, child: Option<Id>) -> Seq<
    ArgumentView<u32>,
> {
    Seq::new(args.len(), |i: int| wire_arg(args[i], child))
}

/// Whether an argument names an object.
pub open spec fn names_object(arg: ArgumentView<u32>) -> bool {
    arg is Object && arg->Object_0 != 0
}

/// How many of the first `i` arguments name an object. This is the place that the interface of
/// the next one has among the interfaces of the object arguments.
pub open spec fn objects_before(args: Seq<ArgumentView<u32>>, i: int) -> int
    decreases i,
{
    if i <= 0 {
        0
    } else {
        objects_before(args, i - 1) + if names_object(args[i - 1]) {
            1int
        } else {
            0
        }
    }
}

/// The state of a connection.
#[verifier::ext_equal]
pub struct HandleView<D> {
    pub map: MapView<Data<D>>,
    pub last_error: Option<ErrorView>,
    /// The serial of the object that was created last.
    pub last_serial: u32,
    /// The interface and version of the object that the next constructor creates.
    pub pending: Option<(&'static Interface, u32)>,
    pub debug: bool,
}

/// Objects and their identifiers.
impl<D> HandleView<D> {
    /// What holds of the state at all times: the display is there, and is not destroyed, and
    /// every other object has the data of a user.
    pub open spec fn wf(self) -> bool {
        &&& self.map.wf()
        &&& self.map.objects.contains_key(1)
        &&& self.map.objects[1].interface == wl_display_interface_spec()
        &&& self.map.objects[1].version == 1
        &&& self.map.objects[1].data.serial == 0
        &&& !self.map.objects[1].data.client_destroyed
        &&& forall|id: u32| #[trigger]
            self.map.objects.contains_key(id) ==> (self.map.objects[id].data.user_data is None
                <==> id == 1)
    }

    /// The state of a connection that was just opened.
    pub open spec fn connected(debug: bool) -> Self {
        HandleView {
            map: MapView::empty().insert(
                1,
                Object {
                    interface: wl_display_interface_spec(),
                    version: 1,
                    data: Data {
                        client_destroyed: false,
                        server_destroyed: false,
                        user_data: None,
                        serial: 0,
                    },
                },
            ),
            last_error: None,
            last_serial: 0,
            pending: None,
            debug,
        }
    }

    /// The object of an identifier, which is there as long as no other object has its number.
    pub open spec fn get(self, id: Id) -> Option<Object<Data<D>>> {
        match self.map.find(id.id) {
            Some(object) => if object.data.serial == id.serial {
                Some(object)
            } else {
                None
            },
            None => None,
        }
    }

    /// The serial that follows the last.
    pub open spec fn next_serial(self) -> u32 {
        if self.last_serial == u32::MAX {
            0
        } else {
            (self.last_serial + 1) as u32
        }
    }

    /// The state with other data for an object.
    pub open spec fn with_data(self, id: u32, data: Data<D>) -> Self {
        HandleView {
            map: self.map.update(id, Object { data, ..self.map.objects[id] }),
            ..self
        }
    }

    /// The state after the client has destroyed an object.
    pub open spec fn client_destroys(self, id: u32) -> Self {
        self.with_data(id, Data { client_destroyed: true, ..self.map.objects[id].data })
    }
}

/// Requests.
impl<D> HandleView<D> {
    /// The description of a request.
    pub open spec fn request(self, id: Id, opcode: u16) -> MessageDesc {
        self.get(id)->0.interface.requests@[opcode as int]
    }

    /// The interface of the object of an identifier, where the object `child` is there too.
    pub open spec fn interface_of(self, id: Id, child: Option<Id>) -> Option<&'static Interface> {
        if child is Some && child->0.id == id.id {
            if child->0.serial == id.serial {
                Some(child->0.interface)
            } else {
                None
            }
        } else {
            match self.get(id) {
                Some(object) => Some(object.interface),
                None => None,
            }
        }
    }

    /// What a single argument of a request does to it. The request creates the object `child`,
    /// where there is one.
    pub open spec fn arg_verdict(
        self,
        desc: MessageDesc,
        args: Seq<ArgumentView<Id>>,
        i: int,
        child: Option<Id>,
    ) -> Verdict {
        match args[i] {
            ArgumentView::NewId(_) => if child is Some {
                Verdict::Accepted
            } else {
                Verdict::Fault(RequestFault::CreatesObject)
            },
            ArgumentView::Object(o) => if o.id != 0 {
                let place = objects_before(wire_args(args, child), i);
                match self.interface_of(o, child) {
                    None => Verdict::InvalidId,
                    Some(found) => if place >= desc.arg_interfaces@.len() {
                        Verdict::Fault(RequestFault::UnexpectedObject)
                    } else if !same_interface_spec(desc.arg_interfaces@[place], found) {
                        Verdict::Fault(
                            RequestFault::WrongInterface {
                                expected: desc.arg_interfaces@[place],
                                found,
                            },
                        )
                    } else {
                        Verdict::Accepted
                    },
                }
            } else if desc.signature@[i] == ArgumentType::Object(AllowNull::Yes) {
                Verdict::Accepted
            } else {
                Verdict::Fault(RequestFault::NullObject)
            },
            _ => Verdict::Accepted,
        }
    }

    /// What the arguments of a request from the `i`th on do to it: what the first of them does
    /// that is not accepted.
    pub open spec fn args_verdict(
        self,
        desc: MessageDesc,
        args: Seq<ArgumentView<Id>>,
        i: int,
        child: Option<Id>,
    ) -> Verdict
        decreases args.len() - i,
    {
        if i >= args.len() {
            Verdict::Accepted
        } else {
            match self.arg_verdict(desc, args, i, child) {
                Verdict::Accepted => self.args_verdict(desc, args, i + 1, child),
                verdict => verdict,
            }
        }
    }

    /// What becomes of a request before its arguments are looked at one by one.
    pub open spec fn entry_verdict(
        self,
        id: Id,
        opcode: u16,
        args: Seq<ArgumentView<Id>>,
    ) -> Verdict {
        match self.get(id) {
            None => Verdict::InvalidId,
            Some(object) => if object.data.client_destroyed {
                Verdict::InvalidId
            } else if opcode >= object.interface.requests@.len() {
                Verdict::Fault(RequestFault::UnknownOpcode)
            } else if !fits_signature(
                object.interface.requests@[opcode as int].signature@,
                args,
            ) {
                Verdict::Fault(RequestFault::WrongSignature)
            } else {
                Verdict::Accepted
            },
        }
    }

    /// What becomes of a request that creates no object.
    pub open spec fn request_verdict(
        self,
        id: Id,
        opcode: u16,
        args: Seq<ArgumentView<Id>>,
    ) -> Verdict {
        match self.entry_verdict(id, opcode, args) {
            Verdict::Accepted => self.args_verdict(self.request(id, opcode), args, 0, None),
            verdict => verdict,
        }
    }

    /// The state after a request was sent: a destructor destroys its object.
    pub open spec fn after_request(self, id: Id, desc: MessageDesc) -> Self {
        if desc.is_destructor {
            self.client_destroys(id.id)
        } else {
            self
        }
    }
}

/// Requests that create an object.
impl<D> HandleView<D> {
    /// The interface and version of the object that a constructor creates: those of the pending
    /// placeholder, else those that the request itself gives.
    pub open spec fn child_kind(self, id: Id, opcode: u16) -> Option<(&'static Interface, u32)> {
        match self.pending {
            Some(kind) => Some(kind),
            None => match self.request(id, opcode).child_interface {
                Some(interface) => Some((interface, self.get(id)->0.version)),
                None => None,
            },
        }
    }

    /// The identifier of the object that a constructor creates: the lowest free number, and the
    /// next serial.
    pub open spec fn child_id(self, id: Id, opcode: u16) -> Id {
        Id {
            serial: self.next_serial(),
            id: self.map.lowest_free(),
            interface: (self.child_kind(id, opcode)->0).0,
        }
    }

    /// What is known of the object that a constructor creates.
    pub open spec fn child_info(self, id: Id, opcode: u16) -> ObjectInfo {
        ObjectInfo {
            id: self.map.lowest_free(),
            interface: (self.child_kind(id, opcode)->0).0,
            version: (self.child_kind(id, opcode)->0).1,
        }
    }

    /// What becomes of a constructor before its object is created.
    pub open spec fn setup_verdict(
        self,
        id: Id,
        opcode: u16,
        args: Seq<ArgumentView<Id>>,
        has_data: bool,
    ) -> Verdict {
        match self.entry_verdict(id, opcode, args) {
            Verdict::Accepted => {
                let object = self.get(id)->0;
                let fixed = self.request(id, opcode).child_interface;
                if self.pending is Some && fixed is Some && !same_interface_spec(
                    fixed->0,
                    (self.pending->0).0,
                ) {
                    Verdict::Fault(
                        RequestFault::WrongPlaceholder {
                            expected: fixed->0,
                            found: (self.pending->0).0,
                        },
                    )
                } else if self.pending is Some && fixed is Some && (self.pending->0).1
                    != object.version {
                    Verdict::Fault(
                        RequestFault::WrongPlaceholderVersion {
                            expected_version: object.version,
                            found_version: (self.pending->0).1,
                        },
                    )
                } else if self.pending is None && fixed is None {
                    Verdict::Fault(RequestFault::MissingPlaceholder)
                } else if !self.map.has_room() {
                    Verdict::Fault(RequestFault::IdsExhausted)
                } else if !has_data && object.data.user_data is None {
                    Verdict::Fault(RequestFault::MissingData)
                } else if exists|i: int|
                    0 <= i < args.len() && #[trigger] args[i] is NewId && args[i]->NewId_0.id
                        != 0 {
                    Verdict::Fault(RequestFault::NotPlaceholder)
                } else {
                    Verdict::Accepted
                }
            },
            verdict => verdict,
        }
    }

    /// What becomes of a constructor.
    pub open spec fn constructor_verdict(
        self,
        id: Id,
        opcode: u16,
        args: Seq<ArgumentView<Id>>,
        has_data: bool,
    ) -> Verdict {
        match self.setup_verdict(id, opcode, args, has_data) {
            Verdict::Accepted => self.args_verdict(
                self.request(id, opcode),
                args,
                0,
                Some(self.child_id(id, opcode)),
            ),
            verdict => verdict,
        }
    }

    /// The state after a constructor has created its object.
    pub open spec fn with_child(self, id: Id, opcode: u16, data: Arc<D>) -> Self {
        let child = self.child_id(id, opcode);
        HandleView {
            map: self.map.insert(
                child.id,
                Object {
                    interface: child.interface,
                    version: (self.child_kind(id, opcode)->0).1,
                    data: Data {
                        client_destroyed: false,
                        server_destroyed: false,
                        user_data: Some(data),
                        serial: child.serial,
                    },
                },
            ),
            last_serial: child.serial,
            pending: None,
            ..self
        }
    }
}

/// The file descriptors among arguments, in order.
pub open spec fn fds(args: Seq<ArgumentView<Id>>) -> Seq<i32>
    decreases args.len(),
{
    if args.len() == 0 {
        Seq::empty()
    } else {
        match args.last() {
            ArgumentView::Fd(fd) => fds(args.drop_last()).push(fd),
            _ => fds(args.drop_last()),
        }
    }
}

/// What has become of an event whose first arguments were read.
pub struct Conversion<D> {
    pub state: HandleView<D>,
    /// The arguments that were read.
    pub args: Seq<ArgumentView<Id>>,
    /// An argument breaks the rules of the protocol, and is the last that is read.
    pub failed: bool,
}

/// Events.
impl<D> HandleView<D> {
    /// The description of an event.
    pub open spec fn event(self, sender_id: u32, opcode: u16) -> MessageDesc {
        self.map.objects[sender_id].interface.events@[opcode as int]
    }

    /// Whether a message can be made sense of: its object exists, and the interface of the object
    /// has the event. An event of the display carries what such an event carries.
    pub open spec fn is_readable(
        self,
        sender_id: u32,
        opcode: u16,
        args: Seq<ArgumentView<u32>>,
    ) -> bool {
        &&& self.map.objects.contains_key(sender_id)
        &&& opcode < self.map.objects[sender_id].interface.events@.len()
        &&& sender_id == 1 ==> is_display_event(opcode, args)
    }

    /// Whether the `i`th argument of an event names an object that the server may not name.
    pub open spec fn is_wrong_object(
        self,
        desc: MessageDesc,
        args: Seq<ArgumentView<u32>>,
        i: int,
    ) -> bool {
        names_object(args[i]) && self.object_complaint(
            args[i]->Object_0,
            Self::expected_interface(desc, args, i),
        ) is Some
    }

    /// Whether it is known of which interface the objects are that an event creates, up to the
    /// first argument that breaks the rules of the protocol.
    pub open spec fn has_typed_children(
        self,
        desc: MessageDesc,
        args: Seq<ArgumentView<u32>>,
    ) -> bool {
        desc.child_interface is Some || forall|i: int|
            0 <= i < args.len() && #[trigger] args[i] is NewId ==> exists|j: int|
                0 <= j < i && #[trigger] self.is_wrong_object(desc, args, j)
    }

    /// The state after the server was found to break the rules of the protocol.
    pub open spec fn protocol_failure(self, message: Seq<char>) -> Self {
        HandleView {
            last_error: Some(
                ErrorView::Protocol { code: 0, object_id: 0, object_interface: ""@, message },
            ),
            ..self
        }
    }

    /// What the server is told to have done wrong in naming an object, if anything: the object
    /// does not exist, or is not of the expected interface.
    pub open spec fn object_complaint(
        self,
        number: u32,
        expected: Option<&'static Interface>,
    ) -> Option<Seq<char>> {
        match self.map.find(number) {
            None => Some("Unknown object "@ + decimal(number as nat) + "."@),
            Some(object) => if expected is Some && !same_interface_spec(
                expected->0,
                object.interface,
            ) && !same_interface_spec(expected->0, anonymous_interface_spec()) {
                Some(
                    "Protocol error: server sent object "@ + decimal(number as nat)
                        + " for interface "@ + expected->0.name@ + ", but it has interface "@
                        + object.interface.name@ + "."@,
                )
            } else {
                None
            },
        }
    }

    /// The identifier of an object that the server names.
    pub open spec fn identify(self, number: u32) -> Id {
        let object = self.map.objects[number];
        Id { serial: object.data.serial, id: number, interface: object.interface }
    }

    /// The state after room was made for a new object of the server: an object of the server
    /// that the client has destroyed gives way.
    pub open spec fn vacated(self, number: u32) -> Self {
        if number >= SERVER_ID_LIMIT && self.map.objects.contains_key(number)
            && self.map.objects[number].data.client_destroyed {
            HandleView { map: self.map.remove(number), ..self }
        } else {
            self
        }
    }

    /// Whether the server may give a new object a number.
    pub open spec fn accepts_new_id(self, number: u32) -> bool {
        self.vacated(number).map.is_available(number)
    }

    /// The identifier of a new object.
    pub open spec fn new_id(self, interface: &'static Interface, number: u32) -> Id {
        Id { serial: self.next_serial(), id: number, interface }
    }

    /// The state after an event of `creator` has created an object.
    pub open spec fn adopted(
        self,
        creator: Object<Data<D>>,
        interface: &'static Interface,
        number: u32,
        data: Arc<D>,
    ) -> Self {
        HandleView {
            map: self.vacated(number).map.insert(
                number,
                Object {
                    interface,
                    version: creator.version,
                    data: Data {
                        client_destroyed: creator.data.client_destroyed,
                        server_destroyed: false,
                        user_data: Some(data),
                        serial: self.next_serial(),
                    },
                },
            ),
            last_serial: self.next_serial(),
            ..self
        }
    }

    /// The state after an event was found to create an object with a number that it cannot have.
    /// A serial is used up all the same.
    pub open spec fn refused(self, interface: &'static Interface, number: u32) -> Self {
        HandleView { last_serial: self.next_serial(), ..self }.protocol_failure(
            "Protocol error: server tried to create an object \""@ + interface.name@
                + "\" with invalid id "@ + decimal(number as nat) + "."@,
        )
    }

    /// The interface that an event expects of its `i`th argument, if it names an object.
    pub open spec fn expected_interface(
        desc: MessageDesc,
        args: Seq<ArgumentView<u32>>,
        i: int,
    ) -> Option<&'static Interface> {
        let place = objects_before(args, i);
        if place < desc.arg_interfaces@.len() {
            Some(desc.arg_interfaces@[place])
        } else {
            None
        }
    }

    /// Reads the `i`th argument of an event. `child` is the data of the object that it creates.
    pub open spec fn convert_arg(
        self,
        receiver: Object<Data<D>>,
        desc: MessageDesc,
        args: Seq<ArgumentView<u32>>,
        i: int,
        child: Option<Arc<D>>,
    ) -> (Self, Option<ArgumentView<Id>>) {
        match args[i] {
            ArgumentView::Int(v) => (self, Some(ArgumentView::Int(v))),
            ArgumentView::Uint(v) => (self, Some(ArgumentView::Uint(v))),
            ArgumentView::Fixed(v) => (self, Some(ArgumentView::Fixed(v))),
            ArgumentView::Str(v) => (self, Some(ArgumentView::Str(v))),
            ArgumentView::Array(v) => (self, Some(ArgumentView::Array(v))),
            ArgumentView::Fd(v) => (self, Some(ArgumentView::Fd(v))),
            ArgumentView::Object(number) => if number == 0 {
                (
                    self,
                    Some(
                        ArgumentView::Object(
                            Id { serial: 0, id: 0, interface: anonymous_interface_spec() },
                        ),
                    ),
                )
            } else {
                match self.object_complaint(number, Self::expected_interface(desc, args, i)) {
                    Some(message) => (self.protocol_failure(message), None),
                    None => (self, Some(ArgumentView::Object(self.identify(number)))),
                }
            },
            ArgumentView::NewId(number) => {
                let interface = desc.child_interface->0;
                if self.accepts_new_id(number) {
                    (
                        self.adopted(receiver, interface, number, child->0),
                        Some(ArgumentView::NewId(self.new_id(interface, number))),
                    )
                } else {
                    (self.refused(interface, number), None)
                }
            },
        }
    }

    /// Reads the first `n` arguments of an event, up to the first that breaks the rules of the
    /// protocol. `children` holds the data of the objects that the arguments create.
    pub open spec fn convert(
        self,
        receiver: Object<Data<D>>,
        desc: MessageDesc,
        args: Seq<ArgumentView<u32>>,
        children: Seq<Option<Arc<D>>>,
        n: nat,
    ) -> Conversion<D>
        decreases n,
    {
        if n == 0 {
            Conversion { state: self, args: Seq::empty(), failed: false }
        } else {
            let before = self.convert(receiver, desc, args, children, (n - 1) as nat);
            if before.failed {
                before
            } else {
                let (state, arg) = before.state.convert_arg(
                    receiver,
                    desc,
                    args,
                    n - 1,
                    children[n - 1],
                );
                match arg {
                    Some(arg) => Conversion { state, args: before.args.push(arg), failed: false },
                    None => Conversion { state, args: before.args, failed: true },
                }
            }
        }
    }

    /// What the whole of an event comes to, where `children` has an entry for each argument that
    /// was read.
    pub open spec fn converted(
        self,
        sender_id: u32,
        opcode: u16,
        args: Seq<ArgumentView<u32>>,
        children: Seq<Option<Arc<D>>>,
    ) -> Conversion<D> {
        self.convert(
            self.map.objects[sender_id],
            self.event(sender_id, opcode),
            args,
            children,
            children.len(),
        )
    }

    /// Whether `children` holds the data of the objects that an event creates: each was made by
    /// the user from the data of the receiver. It has an entry for each argument that is read,
    /// and these are all, or end with one that breaks the rules of the protocol.
    pub open spec fn has_children(
        self,
        sender_id: u32,
        opcode: u16,
        args: Seq<ArgumentView<u32>>,
        children: Seq<Option<Arc<D>>>,
    ) -> bool where D: ObjectData {
        let receiver = self.map.objects[sender_id];
        &&& children.len() <= args.len()
        &&& children.len() < args.len() ==> self.converted(
            sender_id,
            opcode,
            args,
            children,
        ).failed
        &&& forall|i: int|
            0 <= i < children.len() && #[trigger] args[i] is NewId ==> children[i] is Some
                && call_ensures(
                D::make_child,
                (
                    &*(receiver.data.user_data->0),
                    &ObjectInfo {
                        id: args[i]->NewId_0,
                        interface: self.event(sender_id, opcode).child_interface->0,
                        version: receiver.version,
                    },
                ),
                children[i]->0,
            )
    }

    /// The state after an event has destroyed its object.
    pub open spec fn event_destroys(self, id: u32) -> Self {
        self.with_data(
            id,
            Data {
                client_destroyed: true,
                server_destroyed: true,
                ..self.map.objects[id].data
            },
        )
    }
}

/// Whether a message is an event of the display.
pub open spec fn is_display_event(opcode: u16, args: Seq<ArgumentView<u32>>) -> bool {
    ||| opcode == 0 && args.len() == 3 && args[0] is Object && args[1] is Uint && args[2] is Str
    ||| opcode == 1 && args.len() == 1 && args[0] is Uint
}

/// Events of the display.
impl<D> HandleView<D> {
    /// The state after the server has reported an error of the client.
    pub open spec fn server_error(self, object_id: u32, code: u32, message: Seq<char>) -> Self {
        HandleView {
            last_error: Some(
                ErrorView::Protocol {
                    code,
                    object_id,
                    object_interface: match self.map.find(object_id) {
                        Some(object) => object.interface.name@,
                        None => "<unknown>"@,
                    },
                    message,
                },
            ),
            ..self
        }
    }

    /// The state after the server has given up an id: where the client has destroyed the object
    /// too, the id is free.
    pub open spec fn id_deleted(self, id: u32) -> Self {
        match self.map.find(id) {
            None => self,
            Some(object) => if object.data.client_destroyed {
                HandleView { map: self.map.remove(id), ..self }
            } else {
                self.with_data(id, Data { server_destroyed: true, ..object.data })
            },
        }
    }

    /// The state after an event of the display.
    pub open spec fn display_event(self, opcode: u16, args: Seq<ArgumentView<u32>>) -> Self {
        if opcode == 0 {
            self.server_error(
                args[0]->Object_0,
                args[1]->Uint_0,
                utf8_lossy(args[2]->Str_0),
            )
        } else {
            self.id_deleted(args[0]->Uint_0)
        }
    }
}

} // verus!
