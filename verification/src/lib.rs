//! A msgpack-RPC protocol engine: the message codec, the table that pairs
//! responses with pending calls, and the decisions of a client and of a
//! server connection. Every function is verified against its contract;
//! reading and writing bytes is left to the program around the library.

pub mod client;
pub mod message;
pub mod pending;
pub mod server;
pub mod value;

pub use client::{Client, Reaction};
pub use message::{DecodeError, Message, Notification, Request, Response};
pub use pending::{AllocateError, Delivery, PendingTable};
pub use server::{BidirectionalDispatch, Completion, Connection, Dispatch, Step};
