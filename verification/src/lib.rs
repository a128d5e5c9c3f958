//! A verified core for a network-controlled LED actuator.
//!
//! The library holds the logic of the device: decoding and encoding of
//! the OSC control protocol on bytes, dispatch of commands, the bounded
//! color conduit between the network side and the actuation side, the
//! renderer's frame state, and the connection-establishment state
//! machine. The hardware driver, the sockets and the radio live outside
//! the library; they hand it plain values and carry out what it decides.

pub mod channel;
pub mod color;
pub mod connect;
pub mod listener;
pub mod render;
pub mod wire;
