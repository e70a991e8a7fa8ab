use vstd::prelude::*;

verus! {

/// Where the holdings service is reached and the key that it asks for.
#[derive(Debug, Clone)]
pub struct JupiterConfig {
    pub base_url: String,
    pub api_key: String,
}

} // verus!
