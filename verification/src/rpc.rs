//! The registration of a tenant's node endpoint.

use vstd::prelude::*;
use vstd::string::StringExecFns;
use crate::registry::EthersRepository;
use crate::text::{i32_to_decimal, signed_decimal};

verus! {

/// The key under which the tenants' endpoints are kept.
pub const CONNECTIONS_KEY: &'static str = "connections";

/// What is written to the bookkeeping store when a tenant's endpoint is
/// applied: `value` under `field` of the hash at `key`.
#[derive(Debug, PartialEq, Eq)]
pub struct BookkeepingEntry {
    pub key: String,
    pub field: String,
    pub value: String,
}

/// The bookkeeping entry of the endpoint of the tenant `user_id`: the endpoint,
/// under the tenant's id written as a decimal numeral.
pub fn connection_entry(user_id: i32, endpoint: &str) -> (entry: BookkeepingEntry)
    ensures
        entry.key@ == CONNECTIONS_KEY@,
        entry.field@ == signed_decimal(user_id as int),
        entry.value@ == endpoint@,
{
    BookkeepingEntry {
        key: String::from_str(CONNECTIONS_KEY),
        field: i32_to_decimal(user_id),
        value: String::from_str(endpoint),
    }
}

/// Registers what was opened for the tenant `user_id`: first the connection,
/// then the listener on the tenant's block feed. Both take the place of what
/// was registered for the tenant before; the other tenants keep what they
/// have.
pub fn register_tenant<C, R: Clone>(
    registry: &mut EthersRepository<C, R>,
    user_id: i32,
    connection: C,
    listener: R,
)
    ensures
        final(registry).connection(user_id) == Some(connection),
        final(registry).block_listener(user_id) == Some(listener),
        forall|other: i32|
            other != user_id ==> final(registry).connection(other) == old(registry).connection(
                other,
            ),
        forall|other: i32|
            other != user_id ==> final(registry).block_listener(other) == old(
                registry,
            ).block_listener(other),
        old(registry).wf() ==> final(registry).wf(),
{
    registry.apply_connection(user_id, connection);
    let applied = registry.apply_block_listener(user_id, listener);
    assert(applied is Ok);
}

} // verus!
