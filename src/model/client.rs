use vstd::prelude::*;

verus! {

/// Identifier of a client; it keys the client's ledger and picks its shard.
#[derive(Clone, Copy, Debug, PartialEq, Eq, Hash, Structural)]
pub struct ClientId(pub u16);

} // verus!
