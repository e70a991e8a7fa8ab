use vstd::prelude::*;
use vstd::string::StringExecFns;

verus! {

/// The account of the mailing list service.
#[derive(Debug, Clone)]
pub struct MailchimpConfig {
    pub api_key: String,
    pub list_id: String,
    pub server_prefix: String,
}

/// The address of the service for the data centre `server_prefix`.
pub open spec fn base_url_of(server_prefix: Seq<char>) -> Seq<char> {
    "https://"@ + server_prefix + ".api.mailchimp.com/3.0"@
}

impl MailchimpConfig {
    /// The address under which the service is reached.
    pub fn base_url(&self) -> (url: String)
        ensures
            url@ == base_url_of(self.server_prefix@),
    {
        String::from_str("https://").concat(self.server_prefix.as_str()).concat(
            ".api.mailchimp.com/3.0",
        )
    }
}

} // verus!
