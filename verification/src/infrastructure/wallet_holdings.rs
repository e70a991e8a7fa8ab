use vstd::prelude::*;
use vstd::string::StringExecFns;

verus! {

/// Where the two balance services are reached.
#[derive(Debug, Clone)]
pub struct HttpWalletHoldingsConfig {
    pub jupiter_base_url: String,
    pub jupiter_api_key: String,
    pub catalytics_base_url: String,
}

/// The path under which the holdings of a wallet are asked for.
pub open spec fn holdings_path() -> Seq<char> {
    "/ultra/v1/holdings/"@
}

/// The path under which the staked balance of a wallet is asked for.
pub open spec fn staked_path() -> Seq<char> {
    "/v2/solana/jup/governance/staked/"@
}

impl HttpWalletHoldingsConfig {
    /// The address at which the holdings of `public_key` are asked for.
    pub fn holdings_url(&self, public_key: &str) -> (url: String)
        ensures
            url@ == self.jupiter_base_url@ + holdings_path() + public_key@,
    {
        self.jupiter_base_url.clone().concat("/ultra/v1/holdings/").concat(public_key)
    }

    /// The address at which the staked balance of `public_key` is asked for.
    pub fn staked_url(&self, public_key: &str) -> (url: String)
        ensures
            url@ == self.catalytics_base_url@ + staked_path() + public_key@,
    {
        self.catalytics_base_url.clone().concat("/v2/solana/jup/governance/staked/").concat(
            public_key,
        )
    }
}

} // verus!
