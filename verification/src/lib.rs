//! A display-server protocol library: byte-accurate decoding and encoding of
//! the X11 wire protocol, the server-side resource model (windows, atoms,
//! properties, graphics contexts, selections), request dispatch and the
//! per-client session state machine.
//!
//! All I/O (sockets, polling, display hardware, dynamic modules) lives outside
//! this crate; the library works on plain byte buffers and returns the bytes
//! to be written back to each client.

pub mod args;
pub mod atoms;
pub mod client;
pub mod codec;
pub mod connect;
pub mod ctx;
pub mod error;
pub mod ext;
pub mod framing;
pub mod gc;
pub mod handlers;
pub mod id_allocator;
pub mod input;
pub mod laws;
pub mod protocol;
pub mod render;
pub mod requests;
pub mod window;
