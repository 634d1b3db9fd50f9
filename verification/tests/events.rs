use std::sync::Arc;

use wayland_backend_rs::client::dispatch::{
    DispatchAction, DispatchError, DispatchEvent, FillError,
};
use wayland_backend_rs::client::event::{EventFault, EventOutcome};
use wayland_backend_rs::client::{Backend, Handle, Id};
use wayland_backend_rs::map::SERVER_ID_LIMIT;
use wayland_backend_rs::protocol::{
    anonymous_interface, AllowNull, Argument, ArgumentType, Interface, MessageDesc, ObjectData,
    ObjectInfo, WaylandError,
};
use wayland_backend_rs::wire::{EventArgs, Message, MessageArgs, MessageParseError};

static ANY: Interface =
    Interface { name: "<anonymous>", version: 0, requests: &[], events: &[] };

static CHILD: Interface = Interface {
    name: "child",
    version: 1,
    requests: &[MessageDesc {
        name: "destroy",
        signature: &[],
        since: 1,
        is_destructor: true,
        child_interface: None,
        arg_interfaces: &[],
    }],
    events: &[],
};

static ROOT: Interface = Interface {
    name: "root",
    version: 5,
    requests: &[MessageDesc {
        name: "destroy",
        signature: &[],
        since: 1,
        is_destructor: true,
        child_interface: None,
        arg_interfaces: &[],
    }],
    events: &[
        MessageDesc {
            name: "values",
            signature: &[
                ArgumentType::Int,
                ArgumentType::Uint,
                ArgumentType::Fixed,
                ArgumentType::Str(AllowNull::No),
                ArgumentType::Array(AllowNull::No),
                ArgumentType::Fd,
                ArgumentType::Fd,
            ],
            since: 1,
            is_destructor: false,
            child_interface: None,
            arg_interfaces: &[],
        },
        MessageDesc {
            name: "objects",
            signature: &[
                ArgumentType::Object(AllowNull::Yes),
                ArgumentType::Object(AllowNull::Yes),
                ArgumentType::Object(AllowNull::Yes),
            ],
            since: 1,
            is_destructor: false,
            child_interface: None,
            arg_interfaces: &[&ROOT, &ANY],
        },
        MessageDesc {
            name: "spawn",
            signature: &[
                ArgumentType::NewId(AllowNull::No),
                ArgumentType::NewId(AllowNull::No),
                ArgumentType::Object(AllowNull::No),
            ],
            since: 1,
            is_destructor: false,
            child_interface: Some(&CHILD),
            arg_interfaces: &[&CHILD],
        },
        MessageDesc {
            name: "gone",
            signature: &[ArgumentType::Uint],
            since: 1,
            is_destructor: true,
            child_interface: None,
            arg_interfaces: &[],
        },
        MessageDesc {
            name: "untyped",
            signature: &[ArgumentType::NewId(AllowNull::No)],
            since: 1,
            is_destructor: false,
            child_interface: None,
            arg_interfaces: &[],
        },
        MessageDesc {
            name: "born",
            signature: &[ArgumentType::NewId(AllowNull::No)],
            since: 1,
            is_destructor: false,
            child_interface: Some(&CHILD),
            arg_interfaces: &[],
        },
        MessageDesc {
            name: "late_untyped",
            signature: &[ArgumentType::Object(AllowNull::No), ArgumentType::NewId(AllowNull::No)],
            since: 1,
            is_destructor: false,
            child_interface: None,
            arg_interfaces: &[&ROOT],
        },
    ],
};

#[derive(Debug, PartialEq)]
struct Tag(String);

impl ObjectData for Tag {
    fn make_child(&self, info: &ObjectInfo) -> Arc<Tag> {
        Arc::new(Tag(format!("{}/{}@{}v{}", self.0, info.interface.name, info.id, info.version)))
    }
}

fn tag(name: &str) -> Option<Arc<Tag>> {
    Some(Arc::new(Tag(name.to_string())))
}

/// A connection with a registry (id 2) and an object of the interface `root`, version 3 (id 3).
fn connection() -> (Backend<Tag>, Id, Id) {
    let mut backend: Backend<Tag> = Backend::connect(None);
    let handle = backend.handle();
    let display = handle.display_id();
    let placeholder = handle.placeholder_id(None);
    let registry = handle
        .send_constructor(display, 1, &[Argument::NewId(placeholder)], tag("registry"))
        .unwrap()
        .id;
    let root = bind(handle, registry, &ROOT, 3);
    (backend, registry, root)
}

fn bind(handle: &mut Handle<Tag>, registry: Id, interface: &'static Interface, version: u32) -> Id {
    let placeholder = handle.placeholder_id(Some((interface, version)));
    let args = [
        Argument::Uint(1),
        Argument::Str(interface.name.as_bytes().to_vec()),
        Argument::Uint(version),
        Argument::NewId(placeholder),
    ];
    handle.send_constructor(registry, 0, &args, tag(interface.name)).unwrap().id
}

fn message(sender_id: u32, opcode: u16, args: Vec<Argument<u32>>) -> Message {
    let mut list = MessageArgs::with_capacity(args.len());
    for arg in args {
        list.push(arg);
    }
    Message { sender_id, opcode, args: list }
}

fn dispatch(backend: &mut Backend<Tag>, message: Message) -> DispatchAction<Tag> {
    assert_eq!(backend.as_handle().check_event(&message), None);
    let mut dispatched = 5;
    let action = backend.dispatch_events(&mut dispatched, DispatchEvent::Read(Ok(message)));
    assert_eq!(dispatched, 5);
    action
}

fn new_id(arg: &Argument<Id>) -> Id {
    match arg {
        Argument::NewId(id) => *id,
        other => panic!("{:?}", other),
    }
}

fn object(arg: &Argument<Id>) -> Id {
    match arg {
        Argument::Object(id) => *id,
        other => panic!("{:?}", other),
    }
}

fn complaint(backend: &Backend<Tag>) -> String {
    match backend.as_handle().last_error() {
        Some(WaylandError::Protocol(e)) => {
            assert_eq!((e.code, e.object_id, e.object_interface), (0, 0, ""));
            e.message.clone()
        }
        other => panic!("{:?}", other),
    }
}

fn failed(action: DispatchAction<Tag>) -> bool {
    matches!(action, DispatchAction::Return(Err(DispatchError::Protocol)))
}

fn values() -> Vec<Argument<u32>> {
    vec![
        Argument::Int(-7),
        Argument::Uint(8),
        Argument::Fixed(9),
        Argument::Str(b"abc".to_vec()),
        Argument::Array(vec![4, 5]),
        Argument::Fd(21),
        Argument::Fd(22),
    ]
}

#[test]
fn events_are_delivered_with_their_arguments() {
    let (mut backend, _, root) = connection();
    match dispatch(&mut backend, message(3, 0, values())) {
        DispatchAction::Deliver(delivery) => {
            assert_eq!(Some(delivery.user_data), tag("root"));
            assert_eq!((delivery.id.id, delivery.id.serial), (root.id, root.serial));
            assert_eq!(delivery.id.interface.name, "root");
            assert_eq!((delivery.opcode, delivery.name), (0, "values"));
            assert!(!delivery.destroyed);
            let args = delivery.args.as_slice();
            assert_eq!(args.len(), 7);
            assert!(matches!(args[0], Argument::Int(-7)));
            assert!(matches!(args[1], Argument::Uint(8)));
            assert!(matches!(args[2], Argument::Fixed(9)));
            assert!(matches!(&args[3], Argument::Str(s) if s == b"abc"));
            assert!(matches!(&args[4], Argument::Array(a) if *a == vec![4, 5]));
            assert!(matches!(args[5], Argument::Fd(21)));
            assert!(matches!(args[6], Argument::Fd(22)));
        }
        _ => panic!(),
    }
}

#[test]
fn events_of_destroyed_objects_are_swallowed() {
    let (mut backend, _, root) = connection();
    backend.handle().send_request(root, 0, &[]).unwrap();
    match dispatch(&mut backend, message(3, 0, values())) {
        DispatchAction::Close(swallowed) => {
            assert_eq!(swallowed.fds, [21, 22]);
            assert_eq!(swallowed.id.id, 3);
            assert_eq!(swallowed.name, "values");
            assert_eq!(swallowed.args.as_slice().len(), 7);
        }
        _ => panic!(),
    }
}

#[test]
fn named_objects_are_identified() {
    let (mut backend, registry, root) = connection();
    let args = vec![Argument::Object(3), Argument::Object(2), Argument::Object(1)];
    match dispatch(&mut backend, message(3, 1, args)) {
        DispatchAction::Deliver(delivery) => {
            let args = delivery.args.as_slice();
            assert_eq!((object(&args[0]).id, object(&args[0]).serial), (3, root.serial));
            assert_eq!((object(&args[1]).id, object(&args[1]).serial), (2, registry.serial));
            assert_eq!(object(&args[1]).interface.name, "wl_registry");
            assert_eq!(object(&args[2]).to_string(), "wl_display@1");
        }
        _ => panic!(),
    }
    let args = vec![Argument::Object(0), Argument::Object(3), Argument::Object(0)];
    match dispatch(&mut backend, message(3, 1, args)) {
        DispatchAction::Deliver(delivery) => {
            let null = object(&delivery.args.as_slice()[0]);
            assert!(null.is_null());
            assert_eq!((null.serial, null.interface.name), (0, anonymous_interface().name));
        }
        _ => panic!(),
    }
    assert!(backend.as_handle().last_error().is_none());
}

#[test]
fn unknown_objects_break_the_protocol() {
    let (mut backend, _, _) = connection();
    let args = vec![Argument::Object(0), Argument::Object(77), Argument::Object(78)];
    assert!(failed(dispatch(&mut backend, message(3, 1, args))));
    assert_eq!(complaint(&backend), "Unknown object 77.");
}

#[test]
fn objects_of_another_interface_break_the_protocol() {
    let (mut backend, _, _) = connection();
    let args = vec![Argument::Object(0), Argument::Object(2), Argument::Object(3)];
    assert!(failed(dispatch(&mut backend, message(3, 1, args))));
    assert_eq!(
        complaint(&backend),
        "Protocol error: server sent object 2 for interface root, but it has interface wl_registry."
    );
}

#[test]
fn created_objects_are_taken_up() {
    let (mut backend, _, _) = connection();
    let first = SERVER_ID_LIMIT;
    let args =
        vec![Argument::NewId(first), Argument::NewId(first + 1), Argument::Object(first)];
    let (one, two) = match dispatch(&mut backend, message(3, 2, args)) {
        DispatchAction::Deliver(delivery) => {
            let args = delivery.args.as_slice();
            assert_eq!(object(&args[2]).serial, new_id(&args[0]).serial);
            (new_id(&args[0]), new_id(&args[1]))
        }
        _ => panic!(),
    };
    assert_eq!((one.id, one.serial, one.interface.name), (first, 3, "child"));
    assert_eq!((two.id, two.serial), (first + 1, 4));
    let handle = backend.handle();
    assert_eq!(handle.info(one).unwrap().version, 3);
    assert_eq!(handle.get_data(one).unwrap(), tag("root/child@4278190080v3"));
    assert_eq!(handle.get_data(two).unwrap(), tag("root/child@4278190081v3"));
    // They take requests.
    assert_eq!(handle.send_request(one, 0, &[]).unwrap().message.sender_id, first);
}

#[test]
fn numbers_in_use_break_the_protocol() {
    let (mut backend, registry, root) = connection();
    let first = SERVER_ID_LIMIT;
    assert!(matches!(
        dispatch(&mut backend, message(3, 5, vec![Argument::NewId(first)])),
        DispatchAction::Deliver(_)
    ));
    for number in [0, 1, 3, 9, first, first + 2] {
        let action = dispatch(&mut backend, message(3, 5, vec![Argument::NewId(number)]));
        assert!(failed(action));
        assert_eq!(
            complaint(&backend),
            format!(
                "Protocol error: server tried to create an object \"child\" with invalid id {}.",
                number
            )
        );
    }
    assert!(backend.as_handle().info(root).is_ok());
    // Each attempt has used up a serial.
    let next = bind(backend.handle(), registry, &ROOT, 1);
    assert_eq!(next.serial, root.serial + 1 + 6 + 1);
}

#[test]
fn destroyed_objects_of_the_server_give_way() {
    let (mut backend, _, root) = connection();
    let first = SERVER_ID_LIMIT;
    let old = match dispatch(&mut backend, message(3, 5, vec![Argument::NewId(first)])) {
        DispatchAction::Deliver(delivery) => new_id(&delivery.args.as_slice()[0]),
        _ => panic!(),
    };
    backend.handle().send_request(old, 0, &[]).unwrap();
    let new = match dispatch(&mut backend, message(3, 5, vec![Argument::NewId(first)])) {
        DispatchAction::Deliver(delivery) => new_id(&delivery.args.as_slice()[0]),
        _ => panic!(),
    };
    assert_eq!(new.id, old.id);
    assert!(backend.as_handle().info(old).is_err());
    assert!(backend.as_handle().info(new).is_ok());
    // A destroyed object of the client does not.
    let handle = backend.handle();
    handle.send_request(root, 0, &[]).unwrap();
    let again = message(3, 5, vec![Argument::NewId(3)]);
    assert_eq!(handle.check_event(&again), None);
    assert!(matches!(handle.handle_event(&again), EventOutcome::Failed));
}

#[test]
fn children_of_destroyed_objects_are_destroyed() {
    let (mut backend, _, root) = connection();
    backend.handle().send_request(root, 0, &[]).unwrap();
    let first = SERVER_ID_LIMIT;
    let child = match dispatch(&mut backend, message(3, 5, vec![Argument::NewId(first)])) {
        DispatchAction::Close(swallowed) => new_id(&swallowed.args.as_slice()[0]),
        _ => panic!(),
    };
    let handle = backend.handle();
    assert!(handle.info(child).is_ok());
    assert!(handle.send_request(child, 0, &[]).is_err());
}

#[test]
fn destructor_events_destroy_their_object() {
    let (mut backend, _, root) = connection();
    match dispatch(&mut backend, message(3, 3, vec![Argument::Uint(4)])) {
        DispatchAction::Deliver(delivery) => {
            assert!(delivery.destroyed);
            assert_eq!(delivery.name, "gone");
        }
        _ => panic!(),
    }
    assert!(backend.as_handle().info(root).is_ok());
    assert!(backend.handle().send_request(root, 0, &[]).is_err());
    // The next event is swallowed.
    assert!(matches!(
        dispatch(&mut backend, message(3, 3, vec![Argument::Uint(4)])),
        DispatchAction::Close(_)
    ));
    // The id is free when the server gives it up.
    assert!(matches!(
        dispatch(&mut backend, message(1, 1, vec![Argument::Uint(3)])),
        DispatchAction::Read
    ));
    assert!(backend.as_handle().info(root).is_err());
}

#[test]
fn errors_of_the_display_are_kept() {
    let (mut backend, _, _) = connection();
    let mut report = |object: u32, text: &[u8]| {
        let args =
            vec![Argument::Object(object), Argument::Uint(42), Argument::Str(text.to_vec())];
        assert!(matches!(dispatch(&mut backend, message(1, 0, args)), DispatchAction::Read));
        match backend.as_handle().last_error() {
            Some(WaylandError::Protocol(e)) => {
                (e.code, e.object_id, e.object_interface, e.message.clone())
            }
            other => panic!("{:?}", other),
        }
    };
    assert_eq!(report(3, "d\u{e9}j\u{e0}".as_bytes()), (42, 3, "root", "d\u{e9}j\u{e0}".to_string()));
    assert_eq!(report(99, b"gone"), (42, 99, "<unknown>", "gone".to_string()));
    assert_eq!(report(1, b"a\xffb"), (42, 1, "wl_display", "a\u{fffd}b".to_string()));
}

#[test]
fn recorded_errors_name_the_interface() {
    let (mut backend, _, _) = connection();
    backend.handle().record_server_error(2, 7, "bad".to_string());
    match backend.as_handle().last_error() {
        Some(WaylandError::Protocol(e)) => {
            assert_eq!((e.code, e.object_id, e.object_interface), (7, 2, "wl_registry"));
            assert_eq!(e.message, "bad");
        }
        other => panic!("{:?}", other),
    }
}

#[test]
fn messages_that_make_no_sense_are_told_apart() {
    let (backend, _, _) = connection();
    let handle = backend.as_handle();
    let check = |sender, opcode, args| handle.check_event(&message(sender, opcode, args));
    assert_eq!(check(9, 0, vec![]), Some(EventFault::Unreadable));
    assert_eq!(check(3, 7, vec![]), Some(EventFault::Unreadable));
    assert_eq!(check(1, 2, vec![]), Some(EventFault::Unreadable));
    assert_eq!(check(1, 1, vec![]), Some(EventFault::Unreadable));
    assert_eq!(check(1, 1, vec![Argument::Int(5)]), Some(EventFault::Unreadable));
    assert_eq!(
        check(1, 0, vec![Argument::Object(3), Argument::Uint(1), Argument::Uint(1)]),
        Some(EventFault::Unreadable)
    );
    assert_eq!(check(1, 1, vec![Argument::Uint(5)]), None);
    assert_eq!(check(3, 4, vec![Argument::NewId(SERVER_ID_LIMIT)]), Some(EventFault::UntypedChild));
    let late = |object| vec![Argument::Object(object), Argument::NewId(SERVER_ID_LIMIT)];
    assert_eq!(check(3, 6, late(3)), Some(EventFault::UntypedChild));
    assert_eq!(check(3, 6, late(0)), Some(EventFault::UntypedChild));
    assert_eq!(check(3, 6, late(2)), None);
    assert_eq!(check(3, 6, late(99)), None);
    assert_eq!(check(3, 3, vec![Argument::Uint(1)]), None);
}

#[test]
fn the_first_broken_rule_ends_an_event() {
    let (mut backend, _, _) = connection();
    let args = vec![Argument::Object(99), Argument::NewId(SERVER_ID_LIMIT)];
    assert!(failed(dispatch(&mut backend, message(3, 6, args))));
    assert_eq!(complaint(&backend), "Unknown object 99.");
    // An object that was created before stays.
    let args = vec![Argument::NewId(SERVER_ID_LIMIT), Argument::NewId(9), Argument::Object(9)];
    assert!(failed(dispatch(&mut backend, message(3, 2, args))));
    let made = Id { serial: 3, id: SERVER_ID_LIMIT, interface: &CHILD };
    assert_eq!(backend.as_handle().get_data(made).unwrap(), tag("root/child@4278190080v3"));
}

#[test]
fn signatures_are_found_by_object_and_opcode() {
    let (backend, _, _) = connection();
    let handle = backend.as_handle();
    assert_eq!(handle.event_signature(3, 3), Some(&[ArgumentType::Uint][..]));
    assert_eq!(handle.event_signature(3, 7), None);
    assert_eq!(handle.event_signature(9, 0), None);
    assert_eq!(handle.event_signature(0, 0), None);
    assert_eq!(handle.event_signature(1, 1), Some(&[ArgumentType::Uint][..]));
}

#[test]
fn buffers_are_filled_when_data_is_missing() {
    let (mut backend, _, _) = connection();
    let mut dispatched = 0;
    for error in [MessageParseError::MissingData, MessageParseError::MissingFD] {
        let action = backend.dispatch_events(&mut dispatched, DispatchEvent::Read(Err(error)));
        assert!(matches!(action, DispatchAction::Fill));
    }
    let action = backend.dispatch_events(&mut dispatched, DispatchEvent::Filled(Ok(())));
    assert!(matches!(action, DispatchAction::Read));
    assert_eq!(dispatched, 0);
    assert!(backend.as_handle().last_error().is_none());
}

#[test]
fn malformed_messages_end_the_connection() {
    let (mut backend, _, _) = connection();
    let mut dispatched = 3;
    let event = DispatchEvent::Read(Err(MessageParseError::Malformed));
    assert!(failed(backend.dispatch_events(&mut dispatched, event)));
    assert_eq!(dispatched, 3);
    assert_eq!(complaint(&backend), "Malformed Wayland message.");
}

#[test]
fn the_protocol_error_is_that_of_the_machine() {
    let error = DispatchError::Protocol.into_io_error();
    assert_eq!(error.raw_os_error(), Some(nix::errno::Errno::EPROTO as i32));
    let error = DispatchError::Io(std::io::Error::from_raw_os_error(104)).into_io_error();
    assert_eq!(error.raw_os_error(), Some(104));
}

fn fill_error(would_block: bool) -> DispatchEvent {
    let error = std::io::Error::from_raw_os_error(11);
    DispatchEvent::Filled(Err(FillError { would_block, error }))
}

#[test]
fn dispatching_stops_when_there_is_nothing_more() {
    let (mut backend, _, _) = connection();
    let mut dispatched = 0;
    // Nothing was dispatched: the error is passed on.
    match backend.dispatch_events(&mut dispatched, fill_error(true)) {
        DispatchAction::Return(Err(DispatchError::Io(e))) => assert_eq!(e.raw_os_error(), Some(11)),
        _ => panic!(),
    }
    // Events are counted when the user has got them.
    for _ in 0..3 {
        let action = backend.dispatch_events(&mut dispatched, DispatchEvent::Delivered);
        assert!(matches!(action, DispatchAction::Read));
    }
    assert_eq!(dispatched, 3);
    assert!(matches!(
        backend.dispatch_events(&mut dispatched, fill_error(true)),
        DispatchAction::Return(Ok(3))
    ));
    assert!(matches!(
        backend.dispatch_events(&mut dispatched, fill_error(false)),
        DispatchAction::Return(Err(DispatchError::Io(_)))
    ));
}

#[test]
fn argument_lists_keep_their_order() {
    let mut args = EventArgs::with_capacity(0);
    for i in 0..20 {
        args.push(Argument::Uint(i));
    }
    assert_eq!(args.as_slice().len(), 20);
    for (i, arg) in args.as_slice().iter().enumerate() {
        assert!(matches!(arg, Argument::Uint(n) if *n as usize == i));
    }
}

#[test]
fn children_are_adopted_with_the_given_data() {
    let (mut backend, _, root) = connection();
    let creator = wayland_backend_rs::map::Object {
        interface: &ROOT,
        version: 2,
        data: wayland_backend_rs::client::Data {
            client_destroyed: false,
            server_destroyed: false,
            user_data: tag("creator"),
            serial: root.serial,
        },
    };
    let handle = backend.handle();
    let data = Arc::new(Tag("given".to_string()));
    let child = handle.adopt_child(&creator, &CHILD, SERVER_ID_LIMIT, data.clone()).unwrap();
    assert_eq!(handle.get_data(child).unwrap(), tag("given"));
    assert_eq!(handle.info(child).unwrap().version, 2);
    assert!(handle.adopt_child(&creator, &CHILD, SERVER_ID_LIMIT, data).is_err());
    let found = handle.identify_object(SERVER_ID_LIMIT, Some(&CHILD)).unwrap();
    assert_eq!(found.serial, child.serial);
    assert!(handle.identify_object(SERVER_ID_LIMIT, Some(&ROOT)).is_err());
    assert!(handle.identify_object(SERVER_ID_LIMIT, None).is_ok());
}

#[test]
fn the_data_of_new_objects_decides_nothing() {
    let outcome = |name: &str| {
        let (mut backend, _, root) = connection();
        let display = backend.handle().display_id();
        let placeholder = backend.handle().placeholder_id(Some((&ROOT, 3)));
        assert!(backend.handle().info(display).is_ok());
        let args = [
            Argument::Uint(1),
            Argument::Str(b"root".to_vec()),
            Argument::Uint(3),
            Argument::NewId(placeholder),
        ];
        let registry = Id { serial: 1, id: 2, interface: anonymous_interface() };
        let other =
            backend.handle().send_constructor(registry, 0, &args, tag(name)).unwrap().id;
        let first = SERVER_ID_LIMIT;
        let args =
            vec![Argument::NewId(first), Argument::NewId(first + 1), Argument::Object(first)];
        match dispatch(&mut backend, message(other.id, 2, args)) {
            DispatchAction::Deliver(delivery) => {
                let ids: Vec<(u32, u32)> = delivery.args.as_slice()[..2]
                    .iter()
                    .map(|arg| (new_id(arg).id, new_id(arg).serial))
                    .collect();
                (ids, root.serial, other.serial)
            }
            _ => panic!(),
        }
    };
    assert_eq!(outcome("one"), outcome("another"));
}

#[test]
fn reading_goes_on_after_descriptors_were_closed() {
    let (mut backend, _, root) = connection();
    let mut dispatched = 2;
    assert!(matches!(
        backend.dispatch_events(&mut dispatched, DispatchEvent::Closed),
        DispatchAction::Read
    ));
    assert_eq!(dispatched, 2);
    assert!(backend.as_handle().info(root).is_ok());
    assert!(backend.as_handle().last_error().is_none());
}

#[test]
fn errors_are_replaced_but_never_cleared() {
    let (mut backend, registry, root) = connection();
    assert!(backend.as_handle().last_error().is_none());
    let unknown = vec![Argument::Object(99), Argument::Object(2), Argument::Object(1)];
    assert!(failed(dispatch(&mut backend, message(3, 1, unknown))));
    assert_eq!(complaint(&backend), "Unknown object 99.");
    let handle = backend.handle();
    let new = bind(handle, registry, &ROOT, 3);
    handle.send_request(root, 0, &[]).unwrap();
    assert!(handle.send_request(root, 0, &[]).is_err());
    handle.delete_id(3);
    handle.placeholder_id(None);
    assert_eq!(complaint(&backend), "Unknown object 99.");
    assert!(matches!(
        dispatch(&mut backend, message(new.id, 0, values())),
        DispatchAction::Deliver(_)
    ));
    assert_eq!(complaint(&backend), "Unknown object 99.");
    let mut dispatched = 0;
    let malformed = DispatchEvent::Read(Err(MessageParseError::Malformed));
    assert!(failed(backend.dispatch_events(&mut dispatched, malformed)));
    assert_eq!(complaint(&backend), "Malformed Wayland message.");
}

#[test]
fn an_identifier_never_names_another_object() {
    let (mut backend, registry, root) = connection();
    let handle = backend.handle();
    let mut stale = vec![root];
    for _ in 0..50 {
        let last = *stale.last().unwrap();
        handle.send_request(last, 0, &[]).unwrap();
        assert!(handle.info(last).is_ok());
        handle.delete_id(last.id);
        assert!(handle.info(last).is_err());
        let new = bind(handle, registry, &ROOT, 3);
        assert_eq!(new.id, root.id);
        for old in &stale {
            assert!(handle.info(*old).is_err());
            assert!(handle.get_data(*old).is_err());
            assert!(handle.send_request(*old, 0, &[]).is_err());
        }
        assert!(handle.info(new).is_ok());
        stale.push(new);
    }
}

#[test]
fn the_interface_of_a_number_is_known() {
    let (backend, _, _) = connection();
    let name = |number| backend.as_handle().interface_at(number).map(|i| i.name);
    assert_eq!(name(0), None);
    assert_eq!(name(1), Some("wl_display"));
    assert_eq!(name(3), Some("root"));
    assert_eq!(name(4), None);
}
