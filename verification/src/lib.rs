//! Record correlation, cache policy and request pacing for fetching
//! sequence files of the 1KP data set.

pub mod cache;
pub mod client;
pub mod error;
pub mod fetch;
pub mod record;
pub mod store;
pub mod table;
pub mod text;

pub use crate::cache::is_cache_update_required;
pub use crate::client::Client;
pub use crate::error::OneKpError;
pub use crate::record::{OneKpKey, OneKpRecord, SequenceType};
pub use crate::store::OneKp;
