//! Client-side core of a driver for a JSON document database speaking a
//! ReQL-style wire protocol: a typed query-expression builder, the framed
//! request/response transport encoding, and the response demultiplexer.
use vstd::prelude::*;

pub mod ast;
pub mod concatenator;
pub mod connection;
pub mod errors;
pub mod json;
pub mod pool;
pub mod query;
pub mod response;
pub mod scan;
pub mod term;
pub mod wire;

pub use connection::Connection;
pub use connection::Cursor;
pub use errors::Error;
pub use errors::ErrorKind;
pub use pool::PoolOptions;
pub use wire::GlobalOptions;
pub use wire::Token;
pub use wire::Wait;

verus! {

} // verus!
