//! The snapshot encoding: bincode's little-endian form of a sequence of
//! string pairs, which is also how bincode writes a map of strings.
use vstd::prelude::*;

use crate::pairs::pairs_of;

verus! {

/// The pairs that bincode reads from a byte string, or `None` where it fails.
pub uninterp spec fn decoded_pairs(b: Seq<u8>) -> Option<Seq<(Seq<char>, Seq<char>)>>;

/// Relies on `bincode::deserialize` into a vector of string pairs: its result
/// is a function of the bytes alone.
#[verifier::external_body]
pub(crate) fn decode_pairs(b: &[u8]) -> (r: Result<Vec<(String, String)>, String>)
    ensures
        match r {
            Ok(v) => decoded_pairs(b@) == Some(pairs_of(v@)),
            Err(_) => decoded_pairs(b@) is None,
        },
{
    bincode::deserialize::<Vec<(String, String)>>(b).map_err(|e| e.to_string())
}

/// Relies on `bincode::serialize` with no size limit: a sequence is written
/// as its length in eight bytes followed by its items, and
/// `bincode::deserialize` reads the same pairs back. Writing a sequence of
/// known length into a vector with no limit has no failure path.
#[verifier::external_body]
pub(crate) fn encode_pairs(v: &Vec<(String, String)>) -> (r: Result<Vec<u8>, String>)
    ensures
        r is Ok,
        match r {
            Ok(b) => b@.len() >= 8 && decoded_pairs(b@) == Some(pairs_of(v@)),
            Err(_) => true,
        },
{
    bincode::serialize(v, bincode::Infinite).map_err(|e| e.to_string())
}

} // verus!
