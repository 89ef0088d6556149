//! A small persistent key-value store: the whole mapping is held in memory,
//! loaded from one snapshot at open time and written back as one snapshot.
mod codec;
mod pairs;
mod store;

pub use codec::decoded_pairs;
pub use pairs::{map_of, pairs_of, unique_keys};
pub use store::{
    contains_agrees_with_get, file_bytes, flush_completed, flush_is_idempotent, loaded_map,
    round_trip, snapshot_of, Store, StoreError,
};
