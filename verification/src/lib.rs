//! A small task tracker: a store of titled tasks, each with a status, that
//! can be written to and read back from a JSON document, and the command
//! layer that drives it.
//!
//! The view of a [`Todo`] store is a `Map<Seq<char>, TodoState>` from title
//! to status, and the contracts of the operations are stated over that map.
//! JSON text is read and written by `serde_json`, behind two trusted
//! functions in [`persist`]; everything else is verified.

pub mod command;
pub mod persist;
pub mod status;
pub mod store;

pub use command::{dispatch, Command, Reply, UsageError};
pub use persist::LoadError;
pub use status::{TodoState, UnrecognizedStatus};
pub use store::Todo;
