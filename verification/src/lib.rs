//! The verified core of a file server that speaks the rpmsgfs protocol.
//!
//! A request comes in as a packet. [`server::Rpmsgfs::process_command`] understands
//! it and gives a [`task::Task`] for the host. Once the host has done it,
//! [`server::Rpmsgfs::finish`] takes the [`event::Event`] and gives the packet to
//! answer with. A read is answered a chunk at a time, by [`task::ReadTask`], and the
//! state of a file is changed a call at a time, by [`task::ChangeTask`].
//! [`laws`] states what holds of the server as a whole.

pub mod change;
pub mod convert;
pub mod event;
pub mod handles;
pub mod host;
pub mod laws;
pub mod msgs;
pub mod path;
pub mod read;
pub mod reply;
pub mod server;
pub mod task;
pub mod wire;
