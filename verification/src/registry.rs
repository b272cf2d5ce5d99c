//! The connections and block listeners of the tenants.
//!
//! The registry holds, for each tenant, at most one connection to a node and
//! at most one listener on the tenant's block feed, and a listener only for a
//! tenant that has a connection. What a connection or a listener is, the
//! registry does not ask: it keeps what it is handed and hands out shares of
//! it.

use vstd::prelude::*;
use std::collections::HashMap;
use std::sync::Arc;

verus! {

broadcast use vstd::std_specs::hash::group_hash_axioms;

/// Another handle on the value that `connection` points to.
///
/// Calls `Arc::clone`, which gives a pointer to the same allocation: the
/// value behind the result is the value behind the argument.
#[verifier::external_body]
fn share<C>(connection: &Arc<C>) -> (shared: Arc<C>)
    ensures
        *shared == **connection,
{
    Arc::clone(connection)
}

/// Why the registry did not take what it was handed.
#[derive(PartialEq, Eq, Structural, Clone, Copy, Debug)]
pub enum RegistryError {
    /// No connection is registered for the tenant.
    ConnectionNotFound,
}

/// The registry of the tenants' connections and block listeners. A tenant has
/// a block listener only where it has a connection.
pub struct EthersRepository<C, R> {
    connections: HashMap<i32, Arc<C>>,
    block_listeners: HashMap<i32, R>,
}

impl<C, R: Clone> EthersRepository<C, R> {
    /// The connection registered for `user_id`, if there is one.
    pub closed spec fn connection(&self, user_id: i32) -> Option<C> {
        if self.connections@.contains_key(user_id) {
            Some(*self.connections@[user_id])
        } else {
            None
        }
    }

    /// The block listener registered for `user_id`, if there is one.
    pub closed spec fn block_listener(&self, user_id: i32) -> Option<R> {
        if self.block_listeners@.contains_key(user_id) {
            Some(self.block_listeners@[user_id])
        } else {
            None
        }
    }

    /// Every tenant that has a block listener has a connection.
    pub open spec fn wf(&self) -> bool {
        forall|user_id: i32|
            (#[trigger] self.block_listener(user_id)) is Some ==> self.connection(user_id) is Some
    }

    /// A registry without connections and without listeners.
    pub fn new() -> (registry: Self)
        ensures
            forall|user_id: i32| registry.connection(user_id) is None,
            forall|user_id: i32| registry.block_listener(user_id) is None,
            registry.wf(),
    {
        EthersRepository { connections: HashMap::new(), block_listeners: HashMap::new() }
    }

    /// A new handle on the block listener of `user_id`: a clone of the one
    /// that is registered, or none where none is.
    pub fn get_block_listener(&self, user_id: i32) -> (listener: Option<R>)
        ensures
            listener is Some <==> self.block_listener(user_id) is Some,
            listener matches Some(handle) ==> cloned(self.block_listener(user_id)->0, handle),
    {
        match self.block_listeners.get(&user_id) {
            Some(registered) => Some(registered.clone()),
            None => None,
        }
    }

    /// `after` is the registry `self` with `provider` registered as the
    /// connection of `user_id`: the tenant's connection is `provider`, and the
    /// other tenants' connections and all listeners are as they were.
    pub open spec fn with_connection(&self, after: &Self, user_id: i32, provider: C) -> bool {
        &&& after.connection(user_id) == Some(provider)
        &&& forall|other: i32|
            other != user_id ==> after.connection(other) == self.connection(other)
        &&& forall|any: i32| after.block_listener(any) == self.block_listener(any)
    }

    /// Registers `provider` as the connection of `user_id`. A connection that
    /// was registered for that tenant before is replaced; the other tenants'
    /// connections and all listeners stay as they are.
    pub fn apply_connection(&mut self, user_id: i32, provider: C)
        ensures
            old(self).with_connection(final(self), user_id, provider),
            old(self).wf() ==> final(self).wf(),
    {
        let provider = Arc::new(provider);
        self.connections.insert(user_id, provider);
        proof {
            if old(self).wf() {
                assert forall|id: i32| (#[trigger] self.block_listener(id)) is Some implies self.connection(
                    id,
                ) is Some by {
                    assert(old(self).block_listener(id) is Some);
                }
            }
        }
    }

    /// `after` is the registry `self` with `listener` registered as the block
    /// listener of `user_id`: the tenant's listener is `listener`, and the
    /// other tenants' listeners and all connections are as they were.
    pub open spec fn with_block_listener(&self, after: &Self, user_id: i32, listener: R) -> bool {
        &&& after.block_listener(user_id) == Some(listener)
        &&& forall|other: i32|
            other != user_id ==> after.block_listener(other) == self.block_listener(other)
        &&& forall|any: i32| after.connection(any) == self.connection(any)
    }

    /// `after` holds what `self` holds.
    pub open spec fn unchanged(&self, after: &Self) -> bool {
        &&& forall|any: i32| after.block_listener(any) == self.block_listener(any)
        &&& forall|any: i32| after.connection(any) == self.connection(any)
    }

    /// Registers `listener` as the block listener of `user_id`, where a
    /// connection is registered for that tenant. A listener that was
    /// registered for the tenant before is replaced; the other tenants'
    /// listeners and all connections stay as they are.
    ///
    /// Fails where no connection is registered for the tenant; the registry
    /// is then as it was.
    pub fn apply_block_listener(&mut self, user_id: i32, listener: R) -> (applied: Result<
        (),
        RegistryError,
    >)
        ensures
            applied is Ok <==> old(self).connection(user_id) is Some,
            applied is Ok ==> old(self).with_block_listener(final(self), user_id, listener),
            applied is Err ==> old(self).unchanged(final(self)),
            old(self).wf() ==> final(self).wf(),
    {
        if self.connections.contains_key(&user_id) {
            self.block_listeners.insert(user_id, listener);
            Ok(())
        } else {
            Err(RegistryError::ConnectionNotFound)
        }
    }

    /// A share of the connection of `user_id`, or none where none is
    /// registered.
    pub fn get_connection(&self, user_id: i32) -> (connection: Option<Arc<C>>)
        ensures
            match connection {
                Some(shared) => self.connection(user_id) == Some(*shared),
                None => self.connection(user_id) is None,
            },
    {
        match self.connections.get(&user_id) {
            Some(registered) => Some(share(registered)),
            None => None,
        }
    }
}

/// The last registration wins: once a second connection was registered for a
/// tenant after a first, the registry holds the second for the tenant and no
/// longer the first, whatever it held before. The other tenants keep the
/// connections they had.
pub proof fn lemma_last_connection_wins<C, R: Clone>(
    before: EthersRepository<C, R>,
    between: EthersRepository<C, R>,
    after: EthersRepository<C, R>,
    user_id: i32,
    first: C,
    second: C,
)
    requires
        before.with_connection(&between, user_id, first),
        between.with_connection(&after, user_id, second),
    ensures
        after.connection(user_id) == Some(second),
        first != second ==> after.connection(user_id) != Some(first),
        forall|other: i32| other != user_id ==> after.connection(other) == before.connection(other),
        forall|any: i32| after.block_listener(any) == before.block_listener(any),
{
}

/// A tenant has a block listener only where it has a connection: each
/// registration leads from a registry of which that holds to another.
pub proof fn lemma_listener_needs_connection<C, R: Clone>(
    before: EthersRepository<C, R>,
    after: EthersRepository<C, R>,
    user_id: i32,
    provider: C,
    listener: R,
)
    requires
        before.wf(),
    ensures
        before.with_connection(&after, user_id, provider) ==> after.wf(),
        before.connection(user_id) is Some && before.with_block_listener(&after, user_id, listener)
            ==> after.wf(),
        before.unchanged(&after) ==> after.wf(),
{
    if before.with_connection(&after, user_id, provider) {
        assert forall|id: i32| (#[trigger] after.block_listener(id)) is Some implies after.connection(
            id,
        ) is Some by {
            assert(before.block_listener(id) is Some);
        }
    }
    if before.connection(user_id) is Some && before.with_block_listener(&after, user_id, listener) {
        assert forall|id: i32| (#[trigger] after.block_listener(id)) is Some implies after.connection(
            id,
        ) is Some by {
            if id != user_id {
                assert(before.block_listener(id) is Some);
            }
        }
    }
    if before.unchanged(&after) {
        assert forall|id: i32| (#[trigger] after.block_listener(id)) is Some implies after.connection(
            id,
        ) is Some by {
            assert(before.block_listener(id) is Some);
        }
    }
}

} // verus!
