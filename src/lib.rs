//! Genealogical record parsing, an indexed in-memory store of the parsed
//! entities, the snapshot form of that store, and the decisions behind each
//! request made to it.

pub mod model;
pub mod text;
pub mod parser;
pub mod store;
pub mod snapshot;
pub mod handlers;

pub use model::{Event, Family, GedcomData, Individual};
pub use parser::{parse_gedcom, ParseError};
pub use store::{GedcomStore, StoreError};
pub use snapshot::{decode_snapshot, encode_snapshot, Json};
pub use handlers::{reply_with_store, reply_without_store, Reply};
