//! Core logic of an HTTP-relayed byte pipe.
//!
//! A sender process partitions a byte stream into indexed packets and PUTs
//! them to a relay over HTTP; the relay sequences them into a bounded,
//! index-addressable queue; a receiver process GETs the packets back in
//! order and reassembles the original stream.  The modules here hold the
//! verified state machines of that protocol: the relay queue, the per-channel
//! sequencer, the request handlers' decisions, and the sender and receiver
//! drivers.  All I/O (HTTP, standard streams, timers) lives outside this
//! crate; the library works on plain values.

use vstd::prelude::*;

pub mod channel;
pub mod headers;
pub mod packet;
pub mod queue;
pub mod receiver;
pub mod sender;
pub mod server;

verus! {

/// Number of concurrent client workers on each side.
pub const WORKER_NUM: usize = 4;

/// Payload size of a full packet, in bytes (1 MiB).
pub const PACKET_SIZE: usize = 1048576;

/// Size of the sender's read buffer, in bytes (64 KiB).
pub const BUFFER_SIZE: usize = 65536;

/// Capacity of the relay queue, in packets (present and hole slots alike).
pub const QUEUE_CAPACITY: usize = 16;

/// The role a client process plays, decided by which standard stream is a
/// terminal.
pub enum Role {
    Sender,
    Receiver,
}

/// Decide the client's role: a pipe on standard input alone makes a sender,
/// a terminal on standard input makes a receiver, and anything else (no pipe
/// at all, or pipes on both streams) is refused.
pub fn detect_role(stdin_tty: bool, stdout_tty: bool) -> (r: Option<Role>)
    ensures
        (!stdin_tty && stdout_tty) ==> (r matches Some(role) && role is Sender),
        stdin_tty ==> (r matches Some(role) && role is Receiver),
        (!stdin_tty && !stdout_tty) ==> r is None,
{
    if !stdin_tty && stdout_tty {
        Some(Role::Sender)
    } else if stdin_tty {
        Some(Role::Receiver)
    } else {
        None
    }
}

} // verus!
