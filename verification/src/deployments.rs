//! The detector of ERC-20 deployments.
//!
//! For every block of a tenant's feed the detector picks the transactions
//! that create a contract whose bytecode looks like an ERC-20 token, and has
//! them delivered to a webhook: all of a block in one delivery, and no
//! delivery for a block without any.

use vstd::prelude::*;
use std::sync::Arc;
use crate::bytecode::BytecodeUtils;
use crate::chain::{Block, Transaction, TransactionView, transaction_views};
use crate::registry::EthersRepository;

verus! {

/// Whether a transaction is taken for the deployment of an ERC-20 contract:
/// it is where it names no receiver and its input holds each of the five
/// selectors. A transaction that names a receiver never is, whatever its
/// input; nor is one whose input lacks any of the five.
pub open spec fn is_erc20_deployment(transaction: TransactionView) -> bool {
    transaction.creates_contract() && BytecodeUtils::holds_essentials(transaction.input)
}

/// The transactions of `transactions` that are taken for ERC-20 deployments,
/// in the order in which they stand.
pub open spec fn deployments_in(transactions: Seq<TransactionView>) -> Seq<TransactionView>
    decreases transactions.len(),
{
    if transactions.len() == 0 {
        Seq::empty()
    } else if is_erc20_deployment(transactions.last()) {
        deployments_in(transactions.drop_last()).push(transactions.last())
    } else {
        deployments_in(transactions.drop_last())
    }
}

/// The views of `transactions`, in order.
pub open spec fn views_of(transactions: Seq<&Transaction>) -> Seq<TransactionView> {
    Seq::new(transactions.len(), |i: int| transactions[i]@)
}

/// Whether `transaction` is taken for the deployment of an ERC-20 contract.
pub fn classify(transaction: &Transaction) -> (is_deployment: bool)
    ensures
        is_deployment == is_erc20_deployment(transaction@),
{
    transaction.creates_contract() && BytecodeUtils::text_is_deploy_erc20(transaction.input())
}

/// The transactions of `block` that are taken for ERC-20 deployments, in the
/// order in which the block holds them.
pub fn process_block<'a>(block: &'a Block) -> (found: Vec<&'a Transaction>)
    ensures
        views_of(found@) == deployments_in(block@.transactions),
{
    let mut found: Vec<&'a Transaction> = Vec::new();
    let mut i: usize = 0;
    let ghost all = block@.transactions;
    assert(views_of(found@) =~= deployments_in(all.take(0)));
    while i < block.transactions.len()
        invariant
            i <= block.transactions.len(),
            all == block@.transactions,
            all.len() == block.transactions@.len(),
            views_of(found@) == deployments_in(all.take(i as int)),
        decreases block.transactions.len() - i,
    {
        let transaction = &block.transactions[i];
        let ghost before = found@;
        proof {
            let next = all.take(i + 1);
            assert(next.drop_last() =~= all.take(i as int));
            assert(next.last() == transaction@);
        }
        if classify(transaction) {
            found.push(transaction);
            assert(views_of(found@) =~= views_of(before).push(transaction@));
        }
        i += 1;
    }
    assert(all.take(all.len() as int) =~= all);
    found
}

/// The positions in `transactions` of the transactions that are taken for
/// ERC-20 deployments: those positions, each once, in rising order.
pub open spec fn deployment_positions_in(transactions: Seq<TransactionView>) -> Seq<usize>
    decreases transactions.len(),
{
    if transactions.len() == 0 {
        Seq::empty()
    } else if is_erc20_deployment(transactions.last()) {
        deployment_positions_in(transactions.drop_last()).push((transactions.len() - 1) as usize)
    } else {
        deployment_positions_in(transactions.drop_last())
    }
}

/// The positions in `transactions` of the transactions that are taken for
/// ERC-20 deployments, in rising order.
pub fn deployment_positions(transactions: &Vec<Transaction>) -> (positions: Vec<usize>)
    ensures
        positions@ == deployment_positions_in(transaction_views(transactions@)),
{
    let mut positions: Vec<usize> = Vec::new();
    let mut i: usize = 0;
    let ghost all = transaction_views(transactions@);
    assert(positions@ =~= deployment_positions_in(all.take(0)));
    while i < transactions.len()
        invariant
            i <= transactions.len(),
            all == transaction_views(transactions@),
            positions@ == deployment_positions_in(all.take(i as int)),
        decreases transactions.len() - i,
    {
        proof {
            let next = all.take(i + 1);
            assert(next.drop_last() =~= all.take(i as int));
            assert(next.last() == transactions@[i as int]@);
        }
        if classify(&transactions[i]) {
            positions.push(i);
        }
        i += 1;
    }
    assert(all.take(all.len() as int) =~= all);
    positions
}

/// What the detector delivers for a block: the deployments found in it, all
/// in one delivery, or nothing where none was found.
pub fn delivery_for<T>(found: Vec<T>) -> (delivery: Option<Vec<T>>)
    ensures
        delivery is Some <==> found@.len() > 0,
        delivery matches Some(transactions) ==> transactions == found,
{
    if found.len() > 0 {
        Some(found)
    } else {
        None
    }
}

/// Why a detector could not start.
#[derive(PartialEq, Eq, Structural, Clone, Copy, Debug)]
pub enum DetectorError {
    /// No block listener is registered for the tenant.
    ListenerNotFound,
    /// No connection is registered for the tenant.
    ConnectionNotFound,
}

/// Attaches a detector to the block feed of the tenant `user_id`: the result
/// is a new handle on the tenant's block listener and a share of the tenant's
/// connection.
///
/// Fails with `ListenerNotFound` where no block listener is registered for
/// the tenant, and with `ConnectionNotFound` where a listener is and no
/// connection.
pub fn start_detector<C, R: Clone>(registry: &EthersRepository<C, R>, user_id: i32) -> (started:
    Result<(R, Arc<C>), DetectorError>)
    ensures
        match started {
            Ok((listener, connection)) => {
                &&& registry.block_listener(user_id) is Some
                &&& cloned(registry.block_listener(user_id)->0, listener)
                &&& registry.connection(user_id) == Some(*connection)
            },
            Err(DetectorError::ListenerNotFound) => registry.block_listener(user_id) is None,
            Err(DetectorError::ConnectionNotFound) => registry.block_listener(user_id) is Some
                && registry.connection(user_id) is None,
        },
{
    match registry.get_block_listener(user_id) {
        None => Err(DetectorError::ListenerNotFound),
        Some(listener) => match registry.get_connection(user_id) {
            None => Err(DetectorError::ConnectionNotFound),
            Some(connection) => Ok((listener, connection)),
        },
    }
}

} // verus!
