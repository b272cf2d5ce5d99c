//! The token-security lookup.

use vstd::prelude::*;
use vstd::string::StringExecFns;
use crate::text::{decimal, u64_to_decimal};

verus! {

/// The address under which the lookup service answers.
pub const API_BASE_URL: &'static str = "https://api.gopluslabs.io/api/v1/";

/// The path of the token-security lookup, below the base address.
pub const TOKEN_SECURITY_PATH: &'static str = "token_security/";

/// The start of the query that names the contracts to look up.
pub const CONTRACT_ADDRESSES_QUERY: &'static str = "?contract_addresses=";

/// The kind of answer that the lookup asks for.
pub const ACCEPT: &'static str = "application/json";

/// The client of the token-security lookup: the HTTP client that it sends
/// with, and the address that it sends to.
pub struct GoPlusService<H> {
    http_client: H,
    api_base_url: String,
}

/// The address that answers the lookup of the token at `token_address` on the
/// chain `chain_id`, below `base`.
pub open spec fn token_security_address(base: Seq<char>, token_address: Seq<char>, chain_id: u32) -> Seq<
    char,
> {
    base + TOKEN_SECURITY_PATH@ + decimal(chain_id as nat) + CONTRACT_ADDRESSES_QUERY@
        + token_address
}

impl<H> GoPlusService<H> {
    /// The HTTP client that the service sends with.
    pub closed spec fn client(&self) -> H {
        self.http_client
    }

    /// The address that the service sends to.
    pub closed spec fn base_url(&self) -> Seq<char> {
        self.api_base_url@
    }

    /// The lookup service at its public address, sending with `http_client`.
    pub fn new(http_client: H) -> (service: Self)
        ensures
            service.client() == http_client,
            service.base_url() == API_BASE_URL@,
    {
        GoPlusService { http_client, api_base_url: String::from_str(API_BASE_URL) }
    }

    /// The HTTP client that the service sends with.
    pub fn http_client(&self) -> (client: &H)
        ensures
            *client == self.client(),
    {
        &self.http_client
    }

    /// The address that answers the lookup of the token at `token_address` on
    /// the chain `chain_id`.
    pub fn token_security_url(&self, token_address: &str, chain_id: u32) -> (url: String)
        ensures
            url@ == token_security_address(self.base_url(), token_address@, chain_id),
    {
        let mut url = self.api_base_url.clone();
        url.append(TOKEN_SECURITY_PATH);
        let chain = u64_to_decimal(chain_id as u64);
        url.append(chain.as_str());
        url.append(CONTRACT_ADDRESSES_QUERY);
        url.append(token_address);
        url
    }
}

} // verus!
