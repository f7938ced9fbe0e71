//! An in-process single-table document store: records under a composite
//! primary key, one secondary index kept in step with every write,
//! prefix queries, bounded scans and batched writes.
//!
//! The table is [`mem::MemoryDB`]. What it holds is a mathematical value,
//! [`state::Table`], and each operation says in its contract what it makes
//! of that value; [`laws`] holds what follows for every table.
//!
//! Some choices that the table makes:
//!
//! - Keys are ordered and prefixes are tested byte by byte.
//! - A record without `pk`, `sk` or `model`, or with a value there that is
//!   no string, goes under the empty string for that part of its key.
//! - Creating the table sets both stores up empty, as deleting it does.
//! - The one index is called `model`. A query or a scan that names another
//!   index finds nothing, and is no error.
//! - A batched write evaluates its condition checks against the table as
//!   it stands before the batch. Where one does not hold, nothing is
//!   written and the error is `Conflict`.
//! - A query returns all that matches in one page; so does a scan, up to
//!   its limit.
//!
//! The table takes `&mut self` to write: callers that share one table put
//! it behind a lock of their own.

pub mod args;
pub mod ddb;
pub mod env;
pub mod laws;
pub mod mem;
pub mod models;
pub mod record;
pub mod state;
pub mod store;
pub mod text;
pub mod traits;
pub mod types;

pub use models::{Model, SubModel};
pub use traits::{Database, Key, SecurityTokens, TransactionalOperations};
