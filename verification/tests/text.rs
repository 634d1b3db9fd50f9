use wayland_backend_rs::client::Id;
use wayland_backend_rs::protocol::{
    anonymous_interface, check_for_signature, same_interface, wl_display_interface, AllowNull,
    Argument, ArgumentType, Interface,
};
use wayland_backend_rs::text::{decimal_text, same_text};

static SEAT: Interface = Interface { name: "wl_seat", version: 7, requests: &[], events: &[] };
static OTHER_SEAT: Interface = Interface { name: "wl_seat", version: 1, requests: &[], events: &[] };

#[test]
fn numbers_are_written_in_decimal() {
    assert_eq!(decimal_text(0), "0");
    assert_eq!(decimal_text(9), "9");
    assert_eq!(decimal_text(10), "10");
    assert_eq!(decimal_text(1234567890), "1234567890");
    assert_eq!(decimal_text(u32::MAX), "4294967295");
}

#[test]
fn text_is_compared_by_its_characters() {
    assert!(same_text("", ""));
    assert!(same_text("wl_surface", "wl_surface"));
    assert!(!same_text("wl_surface", "wl_surfacf"));
    assert!(!same_text("wl_surface", "wl_surfac"));
    assert!(same_text("\u{e9}\u{1f642}", "\u{e9}\u{1f642}"));
    assert!(!same_text("\u{e9}", "e"));
}

#[test]
fn identifiers_show_interface_and_number() {
    let display = Id { serial: 0, id: 1, interface: wl_display_interface() };
    assert_eq!(display.to_string(), "wl_display@1");
    let seat = Id { serial: 3, id: 4278190080, interface: &SEAT };
    assert_eq!(seat.to_string(), "wl_seat@4278190080");
    let null = Id { serial: 0, id: 0, interface: anonymous_interface() };
    assert_eq!(null.to_string(), "<anonymous>@0");
}

#[test]
fn only_number_zero_is_null() {
    assert!(Id { serial: 5, id: 0, interface: &SEAT }.is_null());
    assert!(!Id { serial: 0, id: 1, interface: &SEAT }.is_null());
}

#[test]
fn interfaces_are_compared_by_name() {
    assert!(same_interface(&SEAT, &OTHER_SEAT));
    assert!(same_interface(anonymous_interface(), anonymous_interface()));
    assert!(!same_interface(&SEAT, anonymous_interface()));
}

#[test]
fn display_interface_has_its_messages() {
    let display = wl_display_interface();
    assert_eq!(display.name, "wl_display");
    assert_eq!(display.version, 1);
    let requests: Vec<&str> = display.requests.iter().map(|m| m.name).collect();
    assert_eq!(requests, ["sync", "get_registry"]);
    let events: Vec<&str> = display.events.iter().map(|m| m.name).collect();
    assert_eq!(events, ["error", "delete_id"]);
    assert_eq!(display.requests[0].child_interface.unwrap().name, "wl_callback");
    assert_eq!(display.requests[1].child_interface.unwrap().name, "wl_registry");
    assert!(display.requests[0].child_interface.unwrap().events[0].is_destructor);
    assert_eq!(
        display.events[0].signature,
        [ArgumentType::Object(AllowNull::No), ArgumentType::Uint, ArgumentType::Str(AllowNull::No)]
    );
}

#[test]
fn signatures_are_checked_by_count_and_type() {
    let signature = [
        ArgumentType::Int,
        ArgumentType::Uint,
        ArgumentType::Fixed,
        ArgumentType::Str(AllowNull::No),
        ArgumentType::Object(AllowNull::Yes),
        ArgumentType::NewId(AllowNull::No),
        ArgumentType::Array(AllowNull::No),
        ArgumentType::Fd,
    ];
    let args: Vec<Argument<u32>> = vec![
        Argument::Int(-1),
        Argument::Uint(1),
        Argument::Fixed(256),
        Argument::Str(b"text".to_vec()),
        Argument::Object(0),
        Argument::NewId(7),
        Argument::Array(vec![1, 2]),
        Argument::Fd(3),
    ];
    assert!(check_for_signature(&signature, &args));
    assert!(!check_for_signature(&signature[..7], &args));
    assert!(!check_for_signature(&signature, &args[..7]));
    for i in 0..8 {
        let mut wrong = args.clone();
        wrong[i] = if i == 1 { Argument::Int(0) } else { Argument::Uint(0) };
        assert!(!check_for_signature(&signature, &wrong));
    }
    // Whether null is allowed is no part of the type.
    assert!(check_for_signature(
        &[ArgumentType::Str(AllowNull::Yes)],
        &[Argument::<u32>::Str(b"x".to_vec())]
    ));
    assert!(check_for_signature::<u32>(&[], &[]));
}
