//! The client side of a Wayland connection.
//!
//! The state of a connection is the set of protocol objects that the client and the server
//! have in common. This library holds that state and every decision on it: which requests may
//! be sent, what they put on the wire, what an incoming event means, and when an object id can
//! be used again. Reading and writing the socket, and calling the user's callbacks, is left to
//! the program around it.

pub mod text;
pub mod protocol;

pub mod map;
pub mod wire;
pub mod client;
