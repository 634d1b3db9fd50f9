//! The client's side of a connection: its objects, its requests and the events it gets.

use std::sync::Arc;

use vstd::prelude::*;

use crate::protocol::{
    anonymous_interface, anonymous_interface_spec, wl_display_interface,
    wl_display_interface_spec, ErrorView, Interface, InvalidId, ObjectInfo, WaylandError,
};
use crate::map::{lemma_map_wf, MapView, Object, ObjectMap};
use crate::text::{decimal, decimal_text, same_text};

pub mod calls;
pub mod constructor;
pub mod dispatch;
pub mod display;
pub mod event;
pub mod history;
pub mod incoming;
pub mod laws;
pub mod model;
pub mod outgoing;
pub mod request;

use model::HandleView;

verus! {

/// What the library keeps with an object.
#[derive(Debug)]
pub struct Data<D> {
    /// The client has destroyed the object.
    pub client_destroyed: bool,
    /// The server has destroyed the object.
    pub server_destroyed: bool,
    /// What the user keeps with the object. Only the display has nothing.
    pub user_data: Option<Arc<D>>,
    /// Tells the object apart from others that have had the same id.
    pub serial: u32,
}

/// The identifier of an object.
#[derive(Debug, Clone, Copy)]
pub struct Id {
    /// Tells apart the objects that have had the same number.
    pub serial: u32,
    /// The number of the object on the wire, 0 for no object.
    pub id: u32,
    pub interface: &'static Interface,
}

impl Id {
    /// Whether the identifier stands for no object.
    pub fn is_null(&self) -> (r: bool)
        ensures
            r == (self.id == 0),
    {
        self.id == 0
    }

    /// The identifier in words: the name of the interface, `@` and the number.
    pub fn to_string(&self) -> (r: String)
        ensures
            r@ == self.interface.name@ + "@"@ + decimal(self.id as nat),
    {
        let mut text: String = self.interface.name.to_owned();
        text.append("@");
        text.append(decimal_text(self.id).as_str());
        text
    }
}

/// The state of a connection.
#[derive(Debug)]
pub struct Handle<D> {
    map: ObjectMap<Data<D>>,
    last_error: Option<WaylandError>,
    last_serial: u32,
    pending_placeholder: Option<(&'static Interface, u32)>,
    debug: bool,
}

impl<D> Handle<D> {
    pub closed spec fn view(&self) -> HandleView<D> {
        HandleView {
            map: self.map@,
            last_error: match self.last_error {
                Some(e) => Some(e@),
                None => None,
            },
            last_serial: self.last_serial,
            pending: self.pending_placeholder,
            debug: self.debug,
        }
    }

    /// The identifier of the display.
    pub fn display_id(&self) -> (r: Id)
        ensures
            r == (Id { serial: 0, id: 1, interface: wl_display_interface_spec() }),
    {
        Id { serial: 0, id: 1, interface: wl_display_interface() }
    }

    /// The identifier that stands for no object.
    pub fn null_id(&mut self) -> (r: Id)
        ensures
            r == (Id { serial: 0, id: 0, interface: anonymous_interface_spec() }),
            *final(self) == *old(self),
    {
        Id { serial: 0, id: 0, interface: anonymous_interface() }
    }

    /// The last error of the connection, if there was one.
    pub fn last_error(&self) -> (r: Option<&WaylandError>)
        ensures
            match r {
                Some(e) => self@.last_error == Some(e@),
                None => self@.last_error is None,
            },
    {
        self.last_error.as_ref()
    }

    /// Whether messages are to be printed.
    pub fn debug(&self) -> (r: bool)
        ensures
            r == self@.debug,
    {
        self.debug
    }

    /// Takes note that a message could not be written.
    pub fn write_failed(&mut self, err: std::io::Error)
        ensures
            final(self)@ == (HandleView { last_error: Some(ErrorView::Io(err)), ..old(self)@ }),
    {
        self.last_error = Some(WaylandError::Io(err));
    }

    /// What is known of an object.
    pub fn info(&self, id: Id) -> (r: Result<ObjectInfo, InvalidId>)
        ensures
            match self@.get(id) {
                Some(object) => r == Ok::<ObjectInfo, InvalidId>(
                    ObjectInfo {
                        id: id.id,
                        interface: object.interface,
                        version: object.version,
                    },
                ),
                None => r is Err,
            },
    {
        match self.get_object(id) {
            Ok(object) => Ok(
                ObjectInfo { id: id.id, interface: object.interface, version: object.version },
            ),
            Err(e) => Err(e),
        }
    }

    /// What the user keeps with an object, which is nothing for the display.
    pub fn get_data(&self, id: Id) -> (r: Result<Option<Arc<D>>, InvalidId>)
        ensures
            match self@.get(id) {
                Some(object) => r == Ok::<Option<Arc<D>>, InvalidId>(object.data.user_data),
                None => r is Err,
            },
    {
        match self.get_object(id) {
            Ok(object) => Ok(object.data.user_data),
            Err(e) => Err(e),
        }
    }

    /// Gives a placeholder for the object that the next constructor creates, and keeps the
    /// interface and version that it is to have.
    pub fn placeholder_id(&mut self, spec: Option<(&'static Interface, u32)>) -> (r: Id)
        ensures
            final(self)@ == (HandleView { pending: spec, ..old(self)@ }),
            r == (Id {
                serial: 0,
                id: 0,
                interface: match spec {
                    Some(kind) => kind.0,
                    None => anonymous_interface_spec(),
                },
            }),
    {
        self.pending_placeholder = spec;
        let interface: &'static Interface = match spec {
            Some((interface, _)) => interface,
            None => anonymous_interface(),
        };
        Id { serial: 0, id: 0, interface }
    }

    /// Takes the next serial.
    fn next_serial(&mut self) -> (r: u32)
        ensures
            r == old(self)@.next_serial(),
            final(self)@ == (HandleView { last_serial: r, ..old(self)@ }),
    {
        self.last_serial = self.last_serial.wrapping_add(1);
        self.last_serial
    }

    /// The object of an identifier.
    fn get_object(&self, id: Id) -> (r: Result<Object<Data<D>>, InvalidId>)
        ensures
            match self@.get(id) {
                Some(object) => r == Ok::<Object<Data<D>>, InvalidId>(object),
                None => r is Err,
            },
    {
        match self.map.find(id.id) {
            Some(object) => if object.data.serial != id.serial {
                Err(InvalidId)
            } else {
                Ok(snapshot(object))
            },
            None => Err(InvalidId),
        }
    }

    /// Marks an object as destroyed by the client.
    fn destroy_object(&mut self, id: u32)
        requires
            old(self)@.map.objects.contains_key(id),
        ensures
            final(self)@ == old(self)@.client_destroys(id),
    {
        match self.map.get_mut(id) {
            Some(object) => {
                object.data.client_destroyed = true;
            },
            None => {},
        }
    }
}

/// A copy of an object, as it is now.
fn snapshot<D>(object: &Object<Data<D>>) -> (r: Object<Data<D>>)
    ensures
        r == *object,
{
    let user_data: Option<Arc<D>> = match &object.data.user_data {
        Some(data) => Some(data.clone()),
        None => None,
    };
    Object {
        interface: object.interface,
        version: object.version,
        data: Data {
            client_destroyed: object.data.client_destroyed,
            server_destroyed: object.data.server_destroyed,
            user_data,
            serial: object.data.serial,
        },
    }
}

/// A connection.
#[derive(Debug)]
pub struct Backend<D> {
    handle: Handle<D>,
}

/// Whether the value of `WAYLAND_DEBUG` asks for messages to be printed.
pub open spec fn debug_enabled(value: Option<&str>) -> bool {
    value is Some && (value->0@ == "1"@ || value->0@ == "client"@)
}

impl<D> Backend<D> {
    pub closed spec fn view(&self) -> HandleView<D> {
        self.handle@
    }

    /// Opens a connection. Its only object is the display. `wayland_debug` is the value of the
    /// variable `WAYLAND_DEBUG` of the environment.
    pub fn connect(wayland_debug: Option<&str>) -> (r: Self)
        ensures
            r@ == HandleView::<D>::connected(debug_enabled(wayland_debug)),
            r@.wf(),
    {
        let mut map: ObjectMap<Data<D>> = ObjectMap::new();
        let display = Object {
            interface: wl_display_interface(),
            version: 1,
            data: Data {
                client_destroyed: false,
                server_destroyed: false,
                user_data: None,
                serial: 0,
            },
        };
        proof {
            lemma_map_wf(MapView::<Data<D>>::empty(), 1, display);
        }
        let _ = map.insert_at(1, display);
        let debug = match wayland_debug {
            Some(value) => same_text(value, "1") || same_text(value, "client"),
            None => false,
        };
        Backend {
            handle: Handle {
                map,
                last_error: None,
                last_serial: 0,
                pending_placeholder: None,
                debug,
            },
        }
    }

    /// The state of the connection.
    pub fn as_handle(&self) -> (r: &Handle<D>)
        ensures
            r@ == self@,
    {
        &self.handle
    }

    /// Gives access to the state of the connection.
    pub fn handle(&mut self) -> (r: &mut Handle<D>)
        ensures
            r@ == old(self)@,
            final(self)@ == final(r)@,
    {
        &mut self.handle
    }
}

} // verus!
