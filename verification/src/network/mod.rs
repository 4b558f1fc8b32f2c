//! The network: platform backends that register themselves, socket streams, and
//! web sockets.
pub mod slots;
pub mod web_socket;
