//! An embedded storage engine for a linguistic corpus: authors, collections,
//! documents and tokens are packed into pages of an append-only keyed object
//! store, read back through an entity cache, and their text is interned in a
//! separate string blob.
pub mod attributes;
pub mod cbor;
pub mod corpus;
pub mod entities;
pub mod error;
pub mod hydrate;
pub mod ids;
pub mod labels;
pub mod layout;
pub mod page;
pub mod record;
pub mod store;
pub mod tags;
pub mod strings;

pub use error::{CorpusError, CorpusResult};
pub use ids::{id_to_u128, obj_id, parse_obj_id, pf, split_id, u128_id, Id, ObjType};
