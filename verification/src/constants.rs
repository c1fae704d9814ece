//! Global sizing bounds for the fixed scratch buffers used by the key
//! derivation routines. Every conforming hash backend must keep its block
//! and output lengths within these bounds.

use vstd::prelude::*;

verus! {

/// Largest internal block length, in bytes, of any supported hash function.
pub const MAXBLOCKLEN: usize = 128;

/// Largest output length, in bytes, of any supported hash function.
pub const MAXHASHLEN: usize = 64;

/// Size of the scratch buffer that holds a hash output with one counter byte
/// appended after it: one more than `MAXHASHLEN`.
pub const MAXHASHLEN1: usize = 65;

} // verus!
