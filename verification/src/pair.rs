use vstd::prelude::*;

verus! {

/// A registered trading pair at the external swap venue.
#[derive(Debug, PartialEq)]
pub struct Pair {
    /// The venue contract address for this pair.
    pub address: String,
    pub base_denom: String,
    pub quote_denom: String,
    pub pool_id: u64,
}

impl Clone for Pair {
    fn clone(&self) -> (r: Pair)
        ensures
            r == *self,
    {
        Pair {
            address: self.address.clone(),
            base_denom: self.base_denom.clone(),
            quote_denom: self.quote_denom.clone(),
            pool_id: self.pool_id,
        }
    }
}

} // verus!
