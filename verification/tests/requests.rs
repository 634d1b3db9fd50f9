use std::sync::Arc;

use wayland_backend_rs::client::model::{RequestFault, Verdict};
use wayland_backend_rs::client::{Backend, Handle, Id};
use wayland_backend_rs::protocol::{
    AllowNull, Argument, ArgumentType, Interface, MessageDesc, ObjectData, ObjectInfo,
};

static CHILD: Interface = Interface {
    name: "child",
    version: 1,
    requests: &[MessageDesc {
        name: "destroy",
        signature: &[],
        since: 1,
        is_destructor: true,
        child_interface: None,
        arg_interfaces: &[],
    }],
    events: &[],
};

static ROOT: Interface = Interface {
    name: "root",
    version: 5,
    requests: &[
        MessageDesc {
            name: "touch",
            signature: &[
                ArgumentType::Int,
                ArgumentType::Uint,
                ArgumentType::Fixed,
                ArgumentType::Str(AllowNull::No),
                ArgumentType::Array(AllowNull::No),
                ArgumentType::Fd,
            ],
            since: 1,
            is_destructor: false,
            child_interface: None,
            arg_interfaces: &[],
        },
        MessageDesc {
            name: "attach",
            signature: &[
                ArgumentType::Object(AllowNull::Yes),
                ArgumentType::Uint,
                ArgumentType::Object(AllowNull::No),
            ],
            since: 1,
            is_destructor: false,
            child_interface: None,
            arg_interfaces: &[&CHILD, &ROOT],
        },
        MessageDesc {
            name: "destroy",
            signature: &[],
            since: 1,
            is_destructor: true,
            child_interface: None,
            arg_interfaces: &[],
        },
        MessageDesc {
            name: "make_child",
            signature: &[
                ArgumentType::NewId(AllowNull::No),
                ArgumentType::Object(AllowNull::Yes),
            ],
            since: 1,
            is_destructor: false,
            child_interface: Some(&CHILD),
            arg_interfaces: &[&ROOT],
        },
        MessageDesc {
            name: "make_any",
            signature: &[ArgumentType::Uint, ArgumentType::NewId(AllowNull::No)],
            since: 1,
            is_destructor: false,
            child_interface: None,
            arg_interfaces: &[],
        },
        MessageDesc {
            name: "become",
            signature: &[ArgumentType::NewId(AllowNull::No)],
            since: 1,
            is_destructor: true,
            child_interface: Some(&CHILD),
            arg_interfaces: &[],
        },
        MessageDesc {
            name: "undescribed",
            signature: &[ArgumentType::Object(AllowNull::No)],
            since: 1,
            is_destructor: false,
            child_interface: None,
            arg_interfaces: &[],
        },
    ],
    events: &[],
};

#[derive(Debug, PartialEq)]
struct Tag(String);

impl ObjectData for Tag {
    fn make_child(&self, info: &ObjectInfo) -> Arc<Tag> {
        Arc::new(Tag(format!("{}/{}@{}v{}", self.0, info.interface.name, info.id, info.version)))
    }
}

fn tag(name: &str) -> Option<Arc<Tag>> {
    Some(Arc::new(Tag(name.to_string())))
}

/// A connection with a registry (id 2) and an object of the interface `root`, version 3 (id 3).
fn connection() -> (Backend<Tag>, Id, Id) {
    let mut backend: Backend<Tag> = Backend::connect(None);
    let handle = backend.handle();
    let display = handle.display_id();
    let placeholder = handle.placeholder_id(None);
    let registry = handle
        .send_constructor(display, 1, &[Argument::NewId(placeholder)], tag("registry"))
        .unwrap()
        .id;
    let root = bind(handle, registry, &ROOT, 3);
    (backend, registry, root)
}

fn bind(handle: &mut Handle<Tag>, registry: Id, interface: &'static Interface, version: u32) -> Id {
    let placeholder = handle.placeholder_id(Some((interface, version)));
    let args = [
        Argument::Uint(1),
        Argument::Str(interface.name.as_bytes().to_vec()),
        Argument::Uint(version),
        Argument::NewId(placeholder),
    ];
    handle.send_constructor(registry, 0, &args, tag(interface.name)).unwrap().id
}

fn fault(verdict: Verdict) -> RequestFault {
    match verdict {
        Verdict::Fault(fault) => fault,
        other => panic!("{:?}", other),
    }
}

#[test]
fn a_connection_begins_with_the_display() {
    let mut backend: Backend<Tag> = Backend::connect(None);
    let handle = backend.handle();
    let display = handle.display_id();
    assert_eq!((display.id, display.serial, display.interface.name), (1, 0, "wl_display"));
    let info = handle.info(display).unwrap();
    assert_eq!((info.id, info.version, info.interface.name), (1, 1, "wl_display"));
    assert!(handle.get_data(display).unwrap().is_none());
    assert!(handle.last_error().is_none());
    let null = handle.null_id();
    assert_eq!((null.id, null.serial, null.interface.name), (0, 0, "<anonymous>"));
    assert!(null.is_null());
    assert!(handle.info(null).is_err());
    assert!(handle.get_data(null).is_err());
}

#[test]
fn debugging_is_asked_for_by_two_values() {
    let debug = |value: Option<&str>| Backend::<Tag>::connect(value).as_handle().debug();
    assert!(debug(Some("1")));
    assert!(debug(Some("client")));
    assert!(!debug(Some("server")));
    assert!(!debug(Some("0")));
    assert!(!debug(Some("")));
    assert!(!debug(None));
}

#[test]
fn requests_carry_every_kind_of_argument() {
    let (mut backend, _, root) = connection();
    let args = [
        Argument::Int(-5),
        Argument::Uint(6),
        Argument::Fixed(0x180),
        Argument::Str(b"text".to_vec()),
        Argument::Array(vec![1, 2, 3]),
        Argument::Fd(17),
    ];
    let outgoing = backend.handle().send_request(root, 0, &args).unwrap();
    assert_eq!(outgoing.message.sender_id, 3);
    assert_eq!(outgoing.message.opcode, 0);
    assert!(outgoing.destroyed.is_none());
    let sent = outgoing.message.args.as_slice();
    assert_eq!(sent.len(), 6);
    assert!(matches!(sent[0], Argument::Int(-5)));
    assert!(matches!(sent[1], Argument::Uint(6)));
    assert!(matches!(sent[2], Argument::Fixed(0x180)));
    assert!(matches!(&sent[3], Argument::Str(s) if s == b"text"));
    assert!(matches!(&sent[4], Argument::Array(a) if *a == vec![1, 2, 3]));
    assert!(matches!(sent[5], Argument::Fd(17)));
}

#[test]
fn requests_name_objects_by_number() {
    let (mut backend, registry, root) = connection();
    let handle = backend.handle();
    let child = bind(handle, registry, &CHILD, 1);
    let null = handle.null_id();
    let full = [Argument::Object(child), Argument::Uint(0), Argument::Object(root)];
    let sent = handle.send_request(root, 1, &full).unwrap().message;
    assert!(matches!(sent.args.as_slice()[0], Argument::Object(4)));
    assert!(matches!(sent.args.as_slice()[2], Argument::Object(3)));
    // A null argument leaves its interface to the next object: a child is expected, not a root.
    let partly = [Argument::Object(null), Argument::Uint(0), Argument::Object(child)];
    let sent = handle.send_request(root, 1, &partly).unwrap().message;
    assert!(matches!(sent.args.as_slice()[0], Argument::Object(0)));
    assert!(matches!(sent.args.as_slice()[2], Argument::Object(4)));
    let shifted = [Argument::Object(null), Argument::Uint(0), Argument::Object(root)];
    assert!(matches!(
        fault(handle.check_request(root, 1, &shifted)),
        RequestFault::WrongInterface { expected, found }
            if expected.name == "child" && found.name == "root"
    ));
}

#[test]
fn misuses_are_told_apart() {
    let (mut backend, registry, root) = connection();
    let handle = backend.handle();
    let child = bind(handle, registry, &CHILD, 1);
    let null = handle.null_id();
    assert!(matches!(fault(handle.check_request(root, 7, &[])), RequestFault::UnknownOpcode));
    assert!(matches!(
        fault(handle.check_request(root, 0, &[Argument::Int(1)])),
        RequestFault::WrongSignature
    ));
    assert!(matches!(
        fault(handle.check_request(root, 5, &[Argument::NewId(null)])),
        RequestFault::CreatesObject
    ));
    assert!(matches!(
        fault(handle.check_request(root, 6, &[Argument::Object(root)])),
        RequestFault::UnexpectedObject
    ));
    assert!(matches!(
        fault(handle.check_request(root, 6, &[Argument::Object(null)])),
        RequestFault::NullObject
    ));
    let swapped = [Argument::Object(root), Argument::Uint(0), Argument::Object(child)];
    assert!(matches!(
        fault(handle.check_request(root, 1, &swapped)),
        RequestFault::WrongInterface { expected, found }
            if expected.name == "child" && found.name == "root"
    ));
    assert!(matches!(handle.check_request(root, 2, &[]), Verdict::Accepted));
}

#[test]
fn what_comes_first_decides() {
    let (mut backend, registry, root) = connection();
    let handle = backend.handle();
    let child = bind(handle, registry, &CHILD, 1);
    let stale = Id { serial: child.serial + 1, ..child };
    let null = handle.null_id();
    // The invalid object comes before the null one.
    let args = [Argument::Object(stale), Argument::Uint(0), Argument::Object(null)];
    assert!(matches!(handle.check_request(root, 1, &args), Verdict::InvalidId));
    // The wrong interface comes before the invalid object.
    let args = [Argument::Object(root), Argument::Uint(0), Argument::Object(stale)];
    assert!(matches!(handle.check_request(root, 1, &args), Verdict::Fault(_)));
    // An invalid object of the request comes before everything.
    let gone = Id { serial: root.serial + 1, ..root };
    assert!(matches!(handle.check_request(gone, 99, &args), Verdict::InvalidId));
}

#[test]
fn invalid_objects_are_refused_and_change_nothing() {
    let (mut backend, registry, root) = connection();
    let handle = backend.handle();
    let child = bind(handle, registry, &CHILD, 1);
    let stale = Id { serial: child.serial + 1, ..child };
    let args = [Argument::Object(stale), Argument::Uint(0), Argument::Object(root)];
    assert!(handle.send_request(root, 1, &args).is_err());
    assert!(handle.send_request(stale, 0, &[]).is_err());
    let null = handle.null_id();
    assert!(handle.send_request(null, 0, &[]).is_err());
    assert_eq!(handle.info(child).unwrap().id, 4);
    assert_eq!(handle.info(root).unwrap().version, 3);
    assert!(handle.last_error().is_none());
}

#[test]
fn destroyed_objects_take_no_requests() {
    let (mut backend, registry, root) = connection();
    let handle = backend.handle();
    let outgoing = handle.send_request(root, 2, &[]).unwrap();
    assert_eq!(outgoing.destroyed, tag("root"));
    assert_eq!(outgoing.message.args.as_slice().len(), 0);
    // The object is still known, but can no longer be used.
    assert_eq!(handle.info(root).unwrap().version, 3);
    assert_eq!(handle.get_data(root).unwrap(), tag("root"));
    assert!(handle.send_request(root, 2, &[]).is_err());
    assert!(matches!(handle.check_request(root, 99, &[]), Verdict::InvalidId));
    assert!(matches!(handle.check_constructor(root, 3, &[], true), Verdict::InvalidId));
    assert!(handle.info(registry).is_ok());
    // It may still be an argument.
    let other = bind(handle, registry, &ROOT, 3);
    let placeholder = handle.placeholder_id(None);
    let args = [Argument::NewId(placeholder), Argument::Object(root)];
    assert!(handle.send_constructor(other, 3, &args, None).is_ok());
}

#[test]
fn ids_are_free_once_both_sides_have_given_them_up() {
    let (mut backend, registry, root) = connection();
    let handle = backend.handle();
    // The server is first: the object stays.
    handle.delete_id(3);
    assert!(handle.info(root).is_ok());
    assert!(handle.send_request(root, 2, &[]).is_ok());
    assert!(handle.info(root).is_ok());
    // The client was first: the object goes.
    handle.delete_id(3);
    assert!(handle.info(root).is_err());
    assert!(handle.get_data(root).is_err());
    let again = bind(handle, registry, &ROOT, 1);
    assert_eq!(again.id, 3);
    assert_ne!(again.serial, root.serial);
    assert!(handle.info(root).is_err());
    assert_eq!(handle.info(again).unwrap().version, 1);
    // Giving up an id that nobody has does nothing, and the display stays.
    handle.delete_id(77);
    handle.delete_id(0);
    handle.delete_id(1);
    let display = handle.display_id();
    assert!(handle.info(display).is_ok());
}

#[test]
fn write_errors_are_kept() {
    let (mut backend, _, _) = connection();
    let handle = backend.handle();
    handle.write_failed(std::io::Error::from_raw_os_error(32));
    match handle.last_error() {
        Some(wayland_backend_rs::protocol::WaylandError::Io(e)) => {
            assert_eq!(e.raw_os_error(), Some(32))
        }
        other => panic!("{:?}", other),
    }
}
