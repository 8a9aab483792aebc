//! A single-node key/value store.
//!
//! The crate holds the parts of the store that decide something: the binary
//! wire protocol between client and server, the storage engine interface, the
//! log-structured engine's index with its replay, and the server's dispatch of
//! one request to one response. Reading and writing sockets and files is the
//! caller's business; every function here works on plain values.

pub mod bytes;
pub mod engine;
pub mod error;
pub mod kv;
pub mod proto;
pub mod server;
pub mod sled;

pub use crate::engine::{Engine, KvsEngine};
pub use crate::error::{KvsError, KvsErrorView, Violation};
pub use crate::kv::{Command, CommandView, KvStore};
pub use crate::proto::{Request, RequestView, Response, ResponseView};
pub use crate::server::{handle_request, serve};
pub use crate::sled::SledKvsEngine;
