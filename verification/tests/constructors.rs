use std::sync::Arc;

use wayland_backend_rs::client::model::{RequestFault, Verdict};
use wayland_backend_rs::client::{Backend, Handle, Id};
use wayland_backend_rs::protocol::{
    AllowNull, Argument, ArgumentType, Interface, MessageDesc, ObjectData, ObjectInfo,
};

static CHILD: Interface = Interface {
    name: "child",
    version: 1,
    requests: &[MessageDesc {
        name: "destroy",
        signature: &[],
        since: 1,
        is_destructor: true,
        child_interface: None,
        arg_interfaces: &[],
    }],
    events: &[],
};

static ROOT: Interface = Interface {
    name: "root",
    version: 5,
    requests: &[
        MessageDesc {
            name: "touch",
            signature: &[
                ArgumentType::Int,
                ArgumentType::Uint,
                ArgumentType::Fixed,
                ArgumentType::Str(AllowNull::No),
                ArgumentType::Array(AllowNull::No),
                ArgumentType::Fd,
            ],
            since: 1,
            is_destructor: false,
            child_interface: None,
            arg_interfaces: &[],
        },
        MessageDesc {
            name: "attach",
            signature: &[
                ArgumentType::Object(AllowNull::Yes),
                ArgumentType::Uint,
                ArgumentType::Object(AllowNull::No),
            ],
            since: 1,
            is_destructor: false,
            child_interface: None,
            arg_interfaces: &[&CHILD, &ROOT],
        },
        MessageDesc {
            name: "destroy",
            signature: &[],
            since: 1,
            is_destructor: true,
            child_interface: None,
            arg_interfaces: &[],
        },
        MessageDesc {
            name: "make_child",
            signature: &[
                ArgumentType::NewId(AllowNull::No),
                ArgumentType::Object(AllowNull::Yes),
            ],
            since: 1,
            is_destructor: false,
            child_interface: Some(&CHILD),
            arg_interfaces: &[&ROOT],
        },
        MessageDesc {
            name: "make_any",
            signature: &[ArgumentType::Uint, ArgumentType::NewId(AllowNull::No)],
            since: 1,
            is_destructor: false,
            child_interface: None,
            arg_interfaces: &[],
        },
        MessageDesc {
            name: "become",
            signature: &[ArgumentType::NewId(AllowNull::No)],
            since: 1,
            is_destructor: true,
            child_interface: Some(&CHILD),
            arg_interfaces: &[],
        },
        MessageDesc {
            name: "undescribed",
            signature: &[ArgumentType::Object(AllowNull::No)],
            since: 1,
            is_destructor: false,
            child_interface: None,
            arg_interfaces: &[],
        },
    ],
    events: &[],
};

#[derive(Debug, PartialEq)]
struct Tag(String);

impl ObjectData for Tag {
    fn make_child(&self, info: &ObjectInfo) -> Arc<Tag> {
        Arc::new(Tag(format!("{}/{}@{}v{}", self.0, info.interface.name, info.id, info.version)))
    }
}

fn tag(name: &str) -> Option<Arc<Tag>> {
    Some(Arc::new(Tag(name.to_string())))
}

/// A connection with a registry (id 2) and an object of the interface `root`, version 3 (id 3).
fn connection() -> (Backend<Tag>, Id, Id) {
    let mut backend: Backend<Tag> = Backend::connect(None);
    let handle = backend.handle();
    let display = handle.display_id();
    let placeholder = handle.placeholder_id(None);
    let registry = handle
        .send_constructor(display, 1, &[Argument::NewId(placeholder)], tag("registry"))
        .unwrap()
        .id;
    let root = bind(handle, registry, &ROOT, 3);
    (backend, registry, root)
}

fn bind(handle: &mut Handle<Tag>, registry: Id, interface: &'static Interface, version: u32) -> Id {
    let placeholder = handle.placeholder_id(Some((interface, version)));
    let args = [
        Argument::Uint(1),
        Argument::Str(interface.name.as_bytes().to_vec()),
        Argument::Uint(version),
        Argument::NewId(placeholder),
    ];
    handle.send_constructor(registry, 0, &args, tag(interface.name)).unwrap().id
}

fn number(arg: &Argument<u32>) -> u32 {
    match arg {
        Argument::NewId(n) => *n,
        other => panic!("{:?}", other),
    }
}

#[test]
fn constructors_create_objects_in_order() {
    let mut backend: Backend<Tag> = Backend::connect(None);
    let handle = backend.handle();
    let display = handle.display_id();
    let placeholder = handle.placeholder_id(None);
    assert_eq!((placeholder.id, placeholder.serial), (0, 0));
    assert_eq!(placeholder.interface.name, "<anonymous>");
    let args = [Argument::NewId(placeholder)];
    let info = handle.constructor_info(display, 0);
    assert_eq!((info.id, info.version, info.interface.name), (2, 1, "wl_callback"));
    let made = handle.send_constructor(display, 0, &args, tag("callback")).unwrap();
    assert_eq!((made.id.id, made.id.serial, made.id.interface.name), (2, 1, "wl_callback"));
    assert_eq!(made.outgoing.message.sender_id, 1);
    assert_eq!(made.outgoing.message.opcode, 0);
    assert_eq!(number(&made.outgoing.message.args.as_slice()[0]), 2);
    assert!(made.outgoing.destroyed.is_none());
    assert_eq!(handle.get_data(made.id).unwrap(), tag("callback"));
    let next = handle.send_constructor(display, 0, &args, tag("callback")).unwrap();
    assert_eq!((next.id.id, next.id.serial), (3, 2));
    let info = handle.info(next.id).unwrap();
    assert_eq!((info.id, info.version, info.interface.name), (3, 1, "wl_callback"));
}

#[test]
fn placeholders_decide_what_is_created() {
    let (mut backend, registry, root) = connection();
    let handle = backend.handle();
    assert_eq!((root.id, root.serial, root.interface.name), (3, 2, "root"));
    assert_eq!(handle.info(root).unwrap().version, 3);
    let placeholder = handle.placeholder_id(Some((&CHILD, 9)));
    assert_eq!((placeholder.id, placeholder.interface.name), (0, "child"));
    let args = [Argument::Uint(8), Argument::NewId(placeholder)];
    let made = handle.send_constructor(root, 4, &args, tag("any")).unwrap();
    assert_eq!(made.id.interface.name, "child");
    assert_eq!(handle.info(made.id).unwrap().version, 9);
    let sent = made.outgoing.message.args.as_slice();
    assert!(matches!(sent[0], Argument::Uint(8)));
    assert_eq!(number(&sent[1]), 4);
    // It is used up.
    assert!(matches!(
        handle.check_constructor(root, 4, &args, true),
        Verdict::Fault(RequestFault::MissingPlaceholder)
    ));
    // It can be taken back.
    handle.placeholder_id(Some((&CHILD, 9)));
    handle.placeholder_id(None);
    assert!(matches!(
        handle.check_constructor(root, 4, &args, true),
        Verdict::Fault(RequestFault::MissingPlaceholder)
    ));
    assert!(handle.info(registry).is_ok());
}

#[test]
fn placeholders_must_fit_the_request() {
    let (mut backend, _, root) = connection();
    let handle = backend.handle();
    let null = handle.null_id();
    let args = [Argument::NewId(null), Argument::Object(root)];
    handle.placeholder_id(Some((&ROOT, 3)));
    assert!(matches!(
        handle.check_constructor(root, 3, &args, true),
        Verdict::Fault(RequestFault::WrongPlaceholder { expected, found })
            if expected.name == "child" && found.name == "root"
    ));
    handle.placeholder_id(Some((&CHILD, 2)));
    assert!(matches!(
        handle.check_constructor(root, 3, &args, true),
        Verdict::Fault(RequestFault::WrongPlaceholderVersion {
            expected_version: 3,
            found_version: 2
        })
    ));
    handle.placeholder_id(Some((&CHILD, 3)));
    assert!(matches!(handle.check_constructor(root, 3, &args, true), Verdict::Accepted));
}

#[test]
fn new_ids_must_be_placeholders() {
    let (mut backend, registry, root) = connection();
    let handle = backend.handle();
    let display = handle.display_id();
    let null = handle.null_id();
    for wrong in [display, registry, root, Id { id: u32::MAX, ..null }, Id { id: 77, ..null }] {
        let args = [Argument::NewId(wrong), Argument::Object(root)];
        assert!(matches!(
            handle.check_constructor(root, 3, &args, true),
            Verdict::Fault(RequestFault::NotPlaceholder)
        ));
        assert!(matches!(
            handle.check_constructor(display, 1, &[Argument::NewId(wrong)], true),
            Verdict::Fault(RequestFault::NotPlaceholder)
        ));
    }
    // Only the number tells a placeholder.
    let args = [Argument::NewId(Id { serial: 9, ..null }), Argument::Object(root)];
    assert!(matches!(handle.check_constructor(root, 3, &args, true), Verdict::Accepted));
}

#[test]
fn data_is_made_from_that_of_the_creator() {
    let (mut backend, _, root) = connection();
    let handle = backend.handle();
    let placeholder = handle.placeholder_id(None);
    let args = [Argument::NewId(placeholder), Argument::Object(root)];
    let made = handle.send_constructor(root, 3, &args, None).unwrap();
    assert_eq!(handle.get_data(made.id).unwrap(), tag("root/child@4v3"));
    // The display has no data to make any from.
    let display = handle.display_id();
    let args = [Argument::NewId(placeholder)];
    assert!(matches!(
        handle.check_constructor(display, 0, &args, false),
        Verdict::Fault(RequestFault::MissingData)
    ));
    assert!(matches!(handle.check_constructor(display, 0, &args, true), Verdict::Accepted));
}

#[test]
fn an_invalid_argument_is_refused_after_the_object_is_created() {
    let (mut backend, _, root) = connection();
    let handle = backend.handle();
    let placeholder = handle.placeholder_id(Some((&CHILD, 3)));
    let stale = Id { serial: 77, ..root };
    let args = [Argument::NewId(placeholder), Argument::Object(stale)];
    assert!(matches!(handle.check_constructor(root, 3, &args, true), Verdict::InvalidId));
    assert!(handle.send_constructor(root, 3, &args, tag("lost")).is_err());
    let lost = Id { serial: 3, id: 4, interface: &CHILD };
    assert_eq!(handle.get_data(lost).unwrap(), tag("lost"));
    // The placeholder is gone, and the next object gets another number.
    handle_any_needs_placeholder(handle, root);
    let args = [Argument::NewId(placeholder), Argument::Object(root)];
    assert_eq!(handle.send_constructor(root, 3, &args, None).unwrap().id.id, 5);
}

fn handle_any_needs_placeholder(handle: &mut Handle<Tag>, root: Id) {
    let null = handle.null_id();
    assert!(matches!(
        handle.check_constructor(root, 4, &[Argument::Uint(0), Argument::NewId(null)], true),
        Verdict::Fault(RequestFault::MissingPlaceholder)
    ));
}

#[test]
fn an_invalid_creator_is_refused_and_changes_nothing() {
    let (mut backend, _, root) = connection();
    let handle = backend.handle();
    let placeholder = handle.placeholder_id(Some((&CHILD, 9)));
    let stale = Id { serial: 77, ..root };
    let args = [Argument::Uint(0), Argument::NewId(placeholder)];
    assert!(handle.send_constructor(stale, 4, &args, tag("lost")).is_err());
    assert!(handle.construct(stale, 4, &args, Arc::new(Tag("lost".to_string()))).is_err());
    // The placeholder is still there, and so are the number and the serial.
    let made = handle.send_constructor(root, 4, &args, tag("any")).unwrap();
    assert_eq!((made.id.id, made.id.serial), (4, 3));
    assert_eq!(handle.info(made.id).unwrap().version, 9);
}

#[test]
fn arguments_can_name_the_new_object() {
    let (mut backend, _, root) = connection();
    let handle = backend.handle();
    let placeholder = handle.placeholder_id(None);
    let new = Id { serial: root.serial + 1, id: 4, interface: &CHILD };
    let args = [Argument::NewId(placeholder), Argument::Object(new)];
    // It is found, as an object of the wrong interface.
    assert!(matches!(
        handle.check_constructor(root, 3, &args, true),
        Verdict::Fault(RequestFault::WrongInterface { found, .. }) if found.name == "child"
    ));
    let other = Id { serial: root.serial + 2, ..new };
    let args = [Argument::NewId(placeholder), Argument::Object(other)];
    assert!(matches!(handle.check_constructor(root, 3, &args, true), Verdict::InvalidId));
}

#[test]
fn a_constructor_can_be_a_destructor() {
    let (mut backend, _, root) = connection();
    let handle = backend.handle();
    let placeholder = handle.placeholder_id(None);
    let made = handle.send_constructor(root, 5, &[Argument::NewId(placeholder)], None).unwrap();
    assert_eq!(made.outgoing.destroyed, tag("root"));
    assert_eq!(number(&made.outgoing.message.args.as_slice()[0]), 4);
    assert!(matches!(handle.check_request(root, 2, &[]), Verdict::InvalidId));
    assert_eq!(handle.send_request(made.id, 0, &[]).unwrap().destroyed, tag("root/child@4v3"));
}

#[test]
fn other_misuses_of_constructors() {
    let (mut backend, _, root) = connection();
    let handle = backend.handle();
    let null = handle.null_id();
    assert!(matches!(
        handle.check_constructor(root, 99, &[], true),
        Verdict::Fault(RequestFault::UnknownOpcode)
    ));
    assert!(matches!(
        handle.check_constructor(root, 3, &[Argument::NewId(null)], true),
        Verdict::Fault(RequestFault::WrongSignature)
    ));
    // A null object is fine where it is allowed.
    let args = [Argument::NewId(null), Argument::Object(null)];
    assert!(matches!(handle.check_constructor(root, 3, &args, true), Verdict::Accepted));
}
