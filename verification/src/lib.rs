//! A collaborative pixel canvas in the manner of pixelflut: many clients read
//! and write the pixels of one shared canvas through a small line protocol.
//!
//! The library holds everything that can be said without a socket or a file
//! in hand, and states it in contracts that Verus proves:
//!
//! - [`color`] and [`pixmap`]: colors, the canvas and its row-major cells;
//!   [`replicating_pixmap`] adds mirrors that take only some of the writes.
//! - [`text`], [`protocol`] and [`i18n`]: the text of requests and responses,
//!   their parsers, and the help texts; [`protocol_laws`] proves that what is
//!   written is read back.
//! - [`state_encoding`] and [`snapshot`]: the canvas as one payload and as a
//!   file.
//! - [`handler`], [`framing`] and [`connection`]: what the server answers to
//!   a line, a datagram, the bytes of a stream and a WebSocket frame.
//! - [`command_handler`]: messages read as commands, and the two commands of a
//!   painting client carried out.
//! - [`remote_pixmap`] and [`client`]: the client's side of the protocol.
//! - [`server`] and [`sinks`]: the tasks the server starts, when their end
//!   ends the process, and the frames that the sinks write.
//! - [`random`]: the random numbers behind replicas and colors.
//!
//! Moving bytes is left to the program around the library.

pub mod client;
pub mod color;
pub mod command_handler;
pub mod connection;
pub mod framing;
pub mod handler;
pub mod i18n;
pub mod pixmap;
pub mod protocol;
pub mod protocol_laws;
pub mod random;
pub mod remote_pixmap;
pub mod replicating_pixmap;
pub mod server;
pub mod sinks;
pub mod snapshot;
pub mod state_encoding;
pub mod text;
