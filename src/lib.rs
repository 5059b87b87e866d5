//! Dataset manager for a SIEM pipeline: typed lookup datasets (block lists, IP maps,
//! tags, networks, geolocation) persisted in an embedded SQLite store and rebuilt into
//! immutable snapshots on a debounced schedule.
//!
//! - `ip`: the durable encoding of addresses (4 or 16 bytes, least significant first).
//! - `identity`: dataset identities, their kinds and their table names.
//! - `model`: entries, mutations and snapshots, with their mathematical models.
//! - `sql`: the table layout and the statements that each mutation becomes.
//! - `rows`: decoding a scan back into a snapshot.
//! - `storage`: schema creation, transactional apply and full-scan load.
//! - `channel`: the bounded inboxes that producers send mutations into.
//! - `manager`: the registry, the published snapshots and the debounced update pass.

pub mod ip;
pub mod identity;
pub mod model;
pub mod order;
pub mod sql;
pub mod rows;
pub mod storage;
pub mod channel;
pub mod manager;

pub use channel::DatasetSender;
pub use identity::{DatasetError, DatasetKind, DatasetType};
pub use ip::Ip;
pub use manager::SqliteDatasetManager;
pub use model::{Entry, GeoRecord, Key, Snapshot, Update, Value};
