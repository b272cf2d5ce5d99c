//! What the gateway reads of the chain: headers, blocks and transactions.

use vstd::prelude::*;

verus! {

/// A transaction, by what the gateway reads of it.
#[derive(Clone, Debug, PartialEq, Eq)]
pub struct Transaction {
    hash: String,
    from: String,
    to: Option<String>,
    input: String,
}

/// What a [`Transaction`] stands for.
pub struct TransactionView {
    /// The hash, by which the transaction is known.
    pub hash: Seq<char>,
    /// The sender's address.
    pub from: Seq<char>,
    /// The receiver's address; a transaction without one creates a contract.
    pub to: Option<Seq<char>>,
    /// The input data, as hex text.
    pub input: Seq<char>,
}

impl TransactionView {
    /// Whether the transaction creates a contract: it does where it names no
    /// receiver.
    pub open spec fn creates_contract(self) -> bool {
        self.to is None
    }
}

impl View for Transaction {
    type V = TransactionView;

    closed spec fn view(&self) -> TransactionView {
        TransactionView {
            hash: self.hash@,
            from: self.from@,
            to: match self.to {
                Some(to) => Some(to@),
                None => None,
            },
            input: self.input@,
        }
    }
}

impl Transaction {
    /// The transaction with the given hash, sender, receiver and input.
    pub fn new(hash: String, from: String, to: Option<String>, input: String) -> (transaction:
        Transaction)
        ensures
            transaction@.hash == hash@,
            transaction@.from == from@,
            transaction@.to == match to {
                Some(to) => Some(to@),
                None => None,
            },
            transaction@.input == input@,
    {
        Transaction { hash, from, to, input }
    }

    /// The hash.
    pub fn hash(&self) -> (hash: &str)
        ensures
            hash@ == self@.hash,
    {
        self.hash.as_str()
    }

    /// The sender's address.
    pub fn from(&self) -> (from: &str)
        ensures
            from@ == self@.from,
    {
        self.from.as_str()
    }

    /// The receiver's address, where there is one.
    pub fn to(&self) -> (to: Option<&str>)
        ensures
            match to {
                Some(to) => self@.to == Some(to@),
                None => self@.to is None,
            },
    {
        match &self.to {
            Some(to) => Some(to.as_str()),
            None => None,
        }
    }

    /// The input data, as hex text.
    pub fn input(&self) -> (input: &str)
        ensures
            input@ == self@.input,
    {
        self.input.as_str()
    }

    /// Whether the transaction creates a contract.
    pub fn creates_contract(&self) -> (creates: bool)
        ensures
            creates == self@.creates_contract(),
    {
        self.to.is_none()
    }
}

/// The views of `transactions`, in order.
pub open spec fn transaction_views(transactions: Seq<Transaction>) -> Seq<TransactionView> {
    Seq::new(transactions.len(), |i: int| transactions[i]@)
}

/// The header of a block.
#[derive(Clone, Debug, PartialEq, Eq)]
pub struct BlockHeader {
    pub number: u64,
    pub hash: String,
}

/// A block with its transactions, in the order in which the block holds them.
#[derive(Clone, Debug, PartialEq, Eq)]
pub struct Block {
    pub number: u64,
    pub hash: String,
    pub transactions: Vec<Transaction>,
}

/// What a [`Block`] stands for.
pub struct BlockView {
    pub number: u64,
    pub hash: Seq<char>,
    pub transactions: Seq<TransactionView>,
}

impl View for Block {
    type V = BlockView;

    open spec fn view(&self) -> BlockView {
        BlockView {
            number: self.number,
            hash: self.hash@,
            transactions: transaction_views(self.transactions@),
        }
    }
}

} // verus!
