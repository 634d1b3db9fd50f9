//! The vocabulary of the Wayland protocol: interfaces, messages, arguments and errors.

use vstd::prelude::*;

use crate::text::same_text;

verus! {

/// Whether an argument may be null.
#[derive(Clone, Copy, PartialEq, Eq, Structural, Debug)]
pub enum AllowNull {
    Yes,
    No,
}

/// The type of one argument in the signature of a message.
#[derive(Clone, Copy, PartialEq, Eq, Structural, Debug)]
pub enum ArgumentType {
    Int,
    Uint,
    Fixed,
    Str(AllowNull),
    Object(AllowNull),
    NewId(AllowNull),
    Array(AllowNull),
    Fd,
}

/// The description of a request or of an event of an interface.
#[derive(Debug)]
pub struct MessageDesc {
    pub name: &'static str,
    /// The types of the arguments, in order.
    pub signature: &'static [ArgumentType],
    /// The version of the interface in which the message appeared.
    pub since: u32,
    /// Whether the message ends the life of the object.
    pub is_destructor: bool,
    /// The interface of the object that the message creates, where it is fixed.
    pub child_interface: Option<&'static Interface>,
    /// The interfaces of the object arguments, in order.
    pub arg_interfaces: &'static [&'static Interface],
}

/// The description of an interface.
#[derive(Debug)]
pub struct Interface {
    pub name: &'static str,
    pub version: u32,
    /// The messages that a client sends, by opcode.
    pub requests: &'static [MessageDesc],
    /// The messages that a server sends, by opcode.
    pub events: &'static [MessageDesc],
}

/// The interface that stands for an object of any interface.
pub open spec fn anonymous_interface_spec() -> &'static Interface {
    &Interface { name: "<anonymous>", version: 0, requests: &[], events: &[] }
}

/// The interface that stands for an object of any interface.
#[verifier::when_used_as_spec(anonymous_interface_spec)]
pub fn anonymous_interface() -> (r: &'static Interface)
    ensures
        r == anonymous_interface_spec(),
{
    &Interface { name: "<anonymous>", version: 0, requests: &[], events: &[] }
}

/// Two interfaces are the same where they have the same name.
pub open spec fn same_interface_spec(a: &'static Interface, b: &'static Interface) -> bool {
    a.name@ == b.name@
}

/// Whether two interfaces are the same.
#[verifier::when_used_as_spec(same_interface_spec)]
pub fn same_interface(a: &'static Interface, b: &'static Interface) -> (r: bool)
    ensures
        r == same_interface_spec(a, b),
{
    same_text(a.name, b.name)
}

/// `wl_display`, the interface of the object that every connection begins with.
#[verifier::opaque]
pub open spec fn wl_display_interface_spec() -> &'static Interface {
    &Interface {
        name: "wl_display",
        version: 1,
        requests: &[
            MessageDesc {
                name: "sync",
                signature: &[ArgumentType::NewId(AllowNull::No)],
                since: 1,
                is_destructor: false,
                child_interface: Some(
                    &Interface {
                        name: "wl_callback",
                        version: 1,
                        requests: &[],
                        events: &[
                            MessageDesc {
                                name: "done",
                                signature: &[ArgumentType::Uint],
                                since: 1,
                                is_destructor: true,
                                child_interface: None,
                                arg_interfaces: &[],
                            },
                        ],
                    },
                ),
                arg_interfaces: &[],
            },
            MessageDesc {
                name: "get_registry",
                signature: &[ArgumentType::NewId(AllowNull::No)],
                since: 1,
                is_destructor: false,
                child_interface: Some(
                    &Interface {
                        name: "wl_registry",
                        version: 1,
                        requests: &[
                            MessageDesc {
                                name: "bind",
                                signature: &[
                                    ArgumentType::Uint,
                                    ArgumentType::Str(AllowNull::No),
                                    ArgumentType::Uint,
                                    ArgumentType::NewId(AllowNull::No),
                                ],
                                since: 1,
                                is_destructor: false,
                                child_interface: None,
                                arg_interfaces: &[],
                            },
                        ],
                        events: &[
                            MessageDesc {
                                name: "global",
                                signature: &[
                                    ArgumentType::Uint,
                                    ArgumentType::Str(AllowNull::No),
                                    ArgumentType::Uint,
                                ],
                                since: 1,
                                is_destructor: false,
                                child_interface: None,
                                arg_interfaces: &[],
                            },
                            MessageDesc {
                                name: "global_remove",
                                signature: &[ArgumentType::Uint],
                                since: 1,
                                is_destructor: false,
                                child_interface: None,
                                arg_interfaces: &[],
                            },
                        ],
                    },
                ),
                arg_interfaces: &[],
            },
        ],
        events: &[
            MessageDesc {
                name: "error",
                signature: &[
                    ArgumentType::Object(AllowNull::No),
                    ArgumentType::Uint,
                    ArgumentType::Str(AllowNull::No),
                ],
                since: 1,
                is_destructor: false,
                child_interface: None,
                arg_interfaces: &[
                    &Interface { name: "<anonymous>", version: 0, requests: &[], events: &[] },
                ],
            },
            MessageDesc {
                name: "delete_id",
                signature: &[ArgumentType::Uint],
                since: 1,
                is_destructor: false,
                child_interface: None,
                arg_interfaces: &[],
            },
        ],
    }
}

/// `wl_display`, the interface of the object that every connection begins with.
#[verifier::when_used_as_spec(wl_display_interface_spec)]
pub fn wl_display_interface() -> (r: &'static Interface)
    ensures
        r == wl_display_interface_spec(),
{
    reveal(wl_display_interface_spec);
    &Interface {
        name: "wl_display",
        version: 1,
        requests: &[
            MessageDesc {
                name: "sync",
                signature: &[ArgumentType::NewId(AllowNull::No)],
                since: 1,
                is_destructor: false,
                child_interface: Some(
                    &Interface {
                        name: "wl_callback",
                        version: 1,
                        requests: &[],
                        events: &[
                            MessageDesc {
                                name: "done",
                                signature: &[ArgumentType::Uint],
                                since: 1,
                                is_destructor: true,
                                child_interface: None,
                                arg_interfaces: &[],
                            },
                        ],
                    },
                ),
                arg_interfaces: &[],
            },
            MessageDesc {
                name: "get_registry",
                signature: &[ArgumentType::NewId(AllowNull::No)],
                since: 1,
                is_destructor: false,
                child_interface: Some(
                    &Interface {
                        name: "wl_registry",
                        version: 1,
                        requests: &[
                            MessageDesc {
                                name: "bind",
                                signature: &[
                                    ArgumentType::Uint,
                                    ArgumentType::Str(AllowNull::No),
                                    ArgumentType::Uint,
                                    ArgumentType::NewId(AllowNull::No),
                                ],
                                since: 1,
                                is_destructor: false,
                                child_interface: None,
                                arg_interfaces: &[],
                            },
                        ],
                        events: &[
                            MessageDesc {
                                name: "global",
                                signature: &[
                                    ArgumentType::Uint,
                                    ArgumentType::Str(AllowNull::No),
                                    ArgumentType::Uint,
                                ],
                                since: 1,
                                is_destructor: false,
                                child_interface: None,
                                arg_interfaces: &[],
                            },
                            MessageDesc {
                                name: "global_remove",
                                signature: &[ArgumentType::Uint],
                                since: 1,
                                is_destructor: false,
                                child_interface: None,
                                arg_interfaces: &[],
                            },
                        ],
                    },
                ),
                arg_interfaces: &[],
            },
        ],
        events: &[
            MessageDesc {
                name: "error",
                signature: &[
                    ArgumentType::Object(AllowNull::No),
                    ArgumentType::Uint,
                    ArgumentType::Str(AllowNull::No),
                ],
                since: 1,
                is_destructor: false,
                child_interface: None,
                arg_interfaces: &[
                    &Interface { name: "<anonymous>", version: 0, requests: &[], events: &[] },
                ],
            },
            MessageDesc {
                name: "delete_id",
                signature: &[ArgumentType::Uint],
                since: 1,
                is_destructor: false,
                child_interface: None,
                arg_interfaces: &[],
            },
        ],
    }
}

/// The messages of `wl_display`: what its two events carry, and that none of its requests is a
/// destructor.
pub proof fn lemma_display_messages()
    ensures
        wl_display_interface_spec().name@ == "wl_display"@,
        wl_display_interface_spec().version == 1,
        wl_display_interface_spec().requests@.len() == 2,
        forall|i: int|
            0 <= i < 2 ==> !(#[trigger] wl_display_interface_spec().requests@[i]).is_destructor,
        wl_display_interface_spec().events@.len() == 2,
        wl_display_interface_spec().events@[0].signature@ == seq![
            ArgumentType::Object(AllowNull::No),
            ArgumentType::Uint,
            ArgumentType::Str(AllowNull::No),
        ],
        wl_display_interface_spec().events@[1].signature@ == seq![ArgumentType::Uint],
{
    reveal(wl_display_interface_spec);
    let requests = wl_display_interface_spec().requests@;
    assert(requests.len() == 2);
    assert(!requests[0].is_destructor);
    assert(!requests[1].is_destructor);
}

/// `wl_display` has the requests `sync` and `get_registry`, which create an object each, and the
/// events `error` and `delete_id`. A callback is done with its one event. A registry binds objects
/// of any interface, and tells of the globals that come and go.
pub proof fn law_display_speaks_the_protocol()
    ensures
        ({
            let display = wl_display_interface_spec();
            let sync = display.requests@[0];
            let get_registry = display.requests@[1];
            let error = display.events@[0];
            let delete_id = display.events@[1];
            &&& display.name@ == "wl_display"@
            &&& display.version == 1
            &&& display.requests@.len() == 2
            &&& display.events@.len() == 2
            &&& sync.name@ == "sync"@
            &&& sync.signature@ == seq![ArgumentType::NewId(AllowNull::No)]
            &&& !sync.is_destructor
            &&& sync.child_interface is Some
            &&& sync.arg_interfaces@.len() == 0
            &&& get_registry.name@ == "get_registry"@
            &&& get_registry.signature@ == seq![ArgumentType::NewId(AllowNull::No)]
            &&& !get_registry.is_destructor
            &&& get_registry.child_interface is Some
            &&& get_registry.arg_interfaces@.len() == 0
            &&& error.name@ == "error"@
            &&& error.signature@ == seq![
                ArgumentType::Object(AllowNull::No),
                ArgumentType::Uint,
                ArgumentType::Str(AllowNull::No),
            ]
            &&& !error.is_destructor
            &&& error.child_interface is None
            &&& error.arg_interfaces@.len() == 1
            &&& error.arg_interfaces@[0].name@ == "<anonymous>"@
            &&& delete_id.name@ == "delete_id"@
            &&& delete_id.signature@ == seq![ArgumentType::Uint]
            &&& !delete_id.is_destructor
            &&& delete_id.child_interface is None
            &&& delete_id.arg_interfaces@.len() == 0
        }),
        ({
            let callback = wl_display_interface_spec().requests@[0].child_interface->0;
            let done = callback.events@[0];
            &&& callback.name@ == "wl_callback"@
            &&& callback.version == 1
            &&& callback.requests@.len() == 0
            &&& callback.events@.len() == 1
            &&& done.name@ == "done"@
            &&& done.signature@ == seq![ArgumentType::Uint]
            &&& done.is_destructor
            &&& done.child_interface is None
        }),
        ({
            let registry = wl_display_interface_spec().requests@[1].child_interface->0;
            let bind = registry.requests@[0];
            let global = registry.events@[0];
            let global_remove = registry.events@[1];
            &&& registry.name@ == "wl_registry"@
            &&& registry.version == 1
            &&& registry.requests@.len() == 1
            &&& registry.events@.len() == 2
            &&& bind.name@ == "bind"@
            &&& bind.signature@ == seq![
                ArgumentType::Uint,
                ArgumentType::Str(AllowNull::No),
                ArgumentType::Uint,
                ArgumentType::NewId(AllowNull::No),
            ]
            &&& !bind.is_destructor
            &&& bind.child_interface is None
            &&& global.name@ == "global"@
            &&& global.signature@ == seq![
                ArgumentType::Uint,
                ArgumentType::Str(AllowNull::No),
                ArgumentType::Uint,
            ]
            &&& !global.is_destructor
            &&& global_remove.name@ == "global_remove"@
            &&& global_remove.signature@ == seq![ArgumentType::Uint]
            &&& !global_remove.is_destructor
        }),
{
    reveal(wl_display_interface_spec);
}

/// Interfaces are told apart by their names alone. The anonymous interface has no messages.
pub proof fn law_interfaces_are_told_apart_by_name(a: &'static Interface, b: &'static Interface)
    ensures
        same_interface_spec(a, b) <==> a.name@ == b.name@,
        anonymous_interface_spec().name@ == "<anonymous>"@,
        anonymous_interface_spec().version == 0,
        anonymous_interface_spec().requests@.len() == 0,
        anonymous_interface_spec().events@.len() == 0,
{
}

/// An argument of a message. `I` is what names an object: its number on the wire, a full
/// identifier in the hands of a client.
#[derive(Debug)]
pub enum Argument<I> {
    Int(i32),
    Uint(u32),
    /// A fixed point number, with eight fractional bits.
    Fixed(i32),
    /// The bytes of a string, without the nul that ends it on the wire.
    Str(Vec<u8>),
    Object(I),
    NewId(I),
    Array(Vec<u8>),
    /// A file descriptor.
    Fd(i32),
}

/// What an [`Argument`] holds.
pub enum ArgumentView<I> {
    Int(i32),
    Uint(u32),
    Fixed(i32),
    Str(Seq<u8>),
    Object(I),
    NewId(I),
    Array(Seq<u8>),
    Fd(i32),
}

impl<I> View for Argument<I> {
    type V = ArgumentView<I>;

    open spec fn view(&self) -> ArgumentView<I> {
        match *self {
            Argument::Int(i) => ArgumentView::Int(i),
            Argument::Uint(u) => ArgumentView::Uint(u),
            Argument::Fixed(f) => ArgumentView::Fixed(f),
            Argument::Str(s) => ArgumentView::Str(s@),
            Argument::Object(o) => ArgumentView::Object(o),
            Argument::NewId(n) => ArgumentView::NewId(n),
            Argument::Array(a) => ArgumentView::Array(a@),
            Argument::Fd(fd) => ArgumentView::Fd(fd),
        }
    }
}

/// What a list of arguments holds.
pub open spec fn arg_views<I>(args: Seq<Argument<I>>) -> Seq<ArgumentView<I>> {
    Seq::new(args.len(), |i: int| args[i]@)
}

/// A copy of a list of bytes.
fn copy_bytes(bytes: &Vec<u8>) -> (r: Vec<u8>)
    ensures
        r@ == bytes@,
{
    let r: Vec<u8> = bytes.clone();
    assert(r@ =~= bytes@);
    r
}

impl<I: Copy> Clone for Argument<I> {
    /// A copy of the argument. A file descriptor is copied as a number: it is not duplicated.
    fn clone(&self) -> (r: Argument<I>)
        ensures
            r@ == self@,
    {
        match self {
            Argument::Int(i) => Argument::Int(*i),
            Argument::Uint(u) => Argument::Uint(*u),
            Argument::Fixed(f) => Argument::Fixed(*f),
            Argument::Str(s) => Argument::Str(copy_bytes(s)),
            Argument::Object(o) => Argument::Object(*o),
            Argument::NewId(n) => Argument::NewId(*n),
            Argument::Array(a) => Argument::Array(copy_bytes(a)),
            Argument::Fd(fd) => Argument::Fd(*fd),
        }
    }
}

/// Whether an argument has a type. Whether it may be null plays no part.
pub open spec fn has_type<I>(arg: ArgumentView<I>, typ: ArgumentType) -> bool {
    match arg {
        ArgumentView::Int(_) => typ is Int,
        ArgumentView::Uint(_) => typ is Uint,
        ArgumentView::Fixed(_) => typ is Fixed,
        ArgumentView::Str(_) => typ is Str,
        ArgumentView::Object(_) => typ is Object,
        ArgumentView::NewId(_) => typ is NewId,
        ArgumentView::Array(_) => typ is Array,
        ArgumentView::Fd(_) => typ is Fd,
    }
}

/// Whether arguments fit a signature: as many, and each of its type.
pub open spec fn fits_signature<I>(
    signature: Seq<ArgumentType>,
    args: Seq<ArgumentView<I>>,
) -> bool {
    &&& signature.len() == args.len()
    &&& forall|i: int| 0 <= i < args.len() ==> has_type(#[trigger] args[i], signature[i])
}

/// Arguments fit a signature where there are as many as it has types, and each is of the kind of
/// its type. Every argument is of exactly one kind.
pub proof fn law_signatures_fix_the_kinds<I>(
    signature: Seq<ArgumentType>,
    args: Seq<ArgumentView<I>>,
    arg: ArgumentView<I>,
    typ: ArgumentType,
)
    ensures
        has_type(arg, typ) <==> {
            ||| arg is Int && typ is Int
            ||| arg is Uint && typ is Uint
            ||| arg is Fixed && typ is Fixed
            ||| arg is Str && typ is Str
            ||| arg is Object && typ is Object
            ||| arg is NewId && typ is NewId
            ||| arg is Array && typ is Array
            ||| arg is Fd && typ is Fd
        },
        fits_signature(signature, args) ==> signature.len() == args.len(),
        fits_signature(signature, args) ==> forall|i: int|
            0 <= i < args.len() ==> has_type(#[trigger] args[i], signature[i]),
        signature.len() == args.len() && !fits_signature(signature, args) ==> exists|i: int|
            0 <= i < args.len() && !has_type(#[trigger] args[i], signature[i]),
{
}

/// What an argument holds is all of it: its kind and its value. So it is for a list of arguments,
/// in order.
pub proof fn law_arguments_hold_their_values<I>(arg: Argument<I>, args: Seq<Argument<I>>, i: int)
    ensures
        arg is Int ==> arg@ == ArgumentView::<I>::Int(arg->Int_0),
        arg is Uint ==> arg@ == ArgumentView::<I>::Uint(arg->Uint_0),
        arg is Fixed ==> arg@ == ArgumentView::<I>::Fixed(arg->Fixed_0),
        arg is Str ==> arg@ == ArgumentView::<I>::Str(arg->Str_0@),
        arg is Object ==> arg@ == ArgumentView::Object(arg->Object_0),
        arg is NewId ==> arg@ == ArgumentView::NewId(arg->NewId_0),
        arg is Array ==> arg@ == ArgumentView::<I>::Array(arg->Array_0@),
        arg is Fd ==> arg@ == ArgumentView::<I>::Fd(arg->Fd_0),
        arg_views(args).len() == args.len(),
        0 <= i < args.len() ==> arg_views(args)[i] == args[i]@,
{
}

fn check_type<I>(arg: &Argument<I>, typ: ArgumentType) -> (r: bool)
    ensures
        r == has_type(arg@, typ),
{
    match arg {
        Argument::Int(_) => matches!(typ, ArgumentType::Int),
        Argument::Uint(_) => matches!(typ, ArgumentType::Uint),
        Argument::Fixed(_) => matches!(typ, ArgumentType::Fixed),
        Argument::Str(_) => matches!(typ, ArgumentType::Str(_)),
        Argument::Object(_) => matches!(typ, ArgumentType::Object(_)),
        Argument::NewId(_) => matches!(typ, ArgumentType::NewId(_)),
        Argument::Array(_) => matches!(typ, ArgumentType::Array(_)),
        Argument::Fd(_) => matches!(typ, ArgumentType::Fd),
    }
}

/// Whether arguments fit a signature.
pub fn check_for_signature<I>(signature: &[ArgumentType], args: &[Argument<I>]) -> (r: bool)
    ensures
        r == fits_signature(signature@, arg_views(args@)),
{
    if signature.len() != args.len() {
        return false;
    }
    let mut i: usize = 0;
    while i < args.len()
        invariant
            i <= args.len(),
            signature.len() == args.len(),
            forall|j: int|
                0 <= j < i ==> has_type(#[trigger] arg_views(args@)[j], signature@[j]),
        decreases args.len() - i,
    {
        if !check_type(&args[i], signature[i]) {
            assert(!has_type(arg_views(args@)[i as int], signature@[i as int]));
            return false;
        }
        i += 1;
    }
    true
}

/// What is known of an object.
#[derive(Clone, Copy, Debug)]
pub struct ObjectInfo {
    pub id: u32,
    pub interface: &'static Interface,
    pub version: u32,
}

/// The error of an operation on an object that does not exist (any more).
#[derive(Clone, Copy, PartialEq, Eq, Structural, Debug)]
pub struct InvalidId;

/// An error that ends the connection: a rule of the protocol was broken.
#[derive(Debug)]
pub struct ProtocolError {
    pub code: u32,
    /// The object at fault, 0 where there is none.
    pub object_id: u32,
    pub object_interface: &'static str,
    pub message: String,
}

/// [`std::io::Error`], which the library carries and never looks into.
#[verifier::external_type_specification]
#[verifier::external_body]
pub struct ExIoError(std::io::Error);

/// An error of the connection.
#[derive(Debug)]
pub enum WaylandError {
    Io(std::io::Error),
    Protocol(ProtocolError),
}

/// What a [`WaylandError`] holds.
pub enum ErrorView {
    Io(std::io::Error),
    Protocol { code: u32, object_id: u32, object_interface: Seq<char>, message: Seq<char> },
}

impl View for WaylandError {
    type V = ErrorView;

    open spec fn view(&self) -> ErrorView {
        match *self {
            WaylandError::Io(e) => ErrorView::Io(e),
            WaylandError::Protocol(p) => ErrorView::Protocol {
                code: p.code,
                object_id: p.object_id,
                object_interface: p.object_interface@,
                message: p.message@,
            },
        }
    }
}

/// What an error holds is all of it.
pub proof fn law_errors_hold_their_values(error: WaylandError)
    ensures
        error is Io ==> error@ == ErrorView::Io(error->Io_0),
        error is Protocol ==> error@ == (ErrorView::Protocol {
            code: error->Protocol_0.code,
            object_id: error->Protocol_0.object_id,
            object_interface: error->Protocol_0.object_interface@,
            message: error->Protocol_0.message@,
        }),
{
}

/// What a user keeps with an object.
pub trait ObjectData: Sized {
    /// Makes the data of an object that was just created by a message of this one.
    fn make_child(&self, child_info: &ObjectInfo) -> std::sync::Arc<Self>;
}

} // verus!
