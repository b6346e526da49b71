//! Checking whether another instance of an application is already running,
//! and passing a message to it.
//!
//! The first instance listens on a local channel that bears the
//! application's name; every later one finds it there, may send it a
//! message, and leaves. This crate holds the rules of that scheme, proved,
//! and leaves the channel itself to its caller: it performs no I/O.
//!
//! * [`resolve`]: deciding, from the outcome of one connect, whether this
//!   process is the new instance or has found an existing one.
//! * [`race`]: why those decisions leave one listener at most.
//! * [`wait`]: retrying until the name falls free or time runs out.
//! * [`listen`]: what an accept leads to.
//! * [`wire`]: the messages and their layout in bytes.
//! * [`decoder`]: reading a message from a stream, one read at a time.
//! * [`text`]: recovering text from bytes that may not be UTF-8.

pub mod decoder;
pub mod listen;
pub mod race;
pub mod resolve;
pub mod text;
pub mod wait;
pub mod wire;
