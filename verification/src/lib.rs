//! The decision core of a browser-accessible terminal server.
//!
//! The server hands a shell on a pseudo-terminal to a peer on a WebSocket.
//! This library holds what the server decides on the way: whom to admit,
//! how to allocate the terminal and fork onto it, how the child becomes the
//! shell, what to do with each message and each read while the session
//! lasts, and how long to wait for the child when it ends. Each module
//! turns what the operating system or the peer reported into the next
//! thing to do and states that choice as a contract. The system calls and
//! the network traffic are the caller's.

pub mod child;
pub mod pty;
pub mod request;
pub mod resize;
pub mod session;
pub mod supervisor;
