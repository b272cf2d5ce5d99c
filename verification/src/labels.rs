//! The labels of addresses.

use vstd::prelude::*;

verus! {

/// The label of an address on a chain.
#[derive(Clone, Debug, PartialEq, Eq)]
pub struct ElasticLabel {
    address: String,
    chain_id: u32,
    label: String,
    name_tag: String,
}

/// What an [`ElasticLabel`] stands for.
pub struct ElasticLabelView {
    pub address: Seq<char>,
    pub chain_id: u32,
    pub label: Seq<char>,
    pub name_tag: Seq<char>,
}

impl View for ElasticLabel {
    type V = ElasticLabelView;

    closed spec fn view(&self) -> ElasticLabelView {
        ElasticLabelView {
            address: self.address@,
            chain_id: self.chain_id,
            label: self.label@,
            name_tag: self.name_tag@,
        }
    }
}

impl ElasticLabel {
    /// The label `label`, with the name tag `name_tag`, of the address
    /// `address` on the chain `chain_id`.
    pub fn new(address: String, chain_id: u32, label: String, name_tag: String) -> (made:
        ElasticLabel)
        ensures
            made@ == (ElasticLabelView {
                address: address@,
                chain_id,
                label: label@,
                name_tag: name_tag@,
            }),
    {
        ElasticLabel { address, chain_id, label, name_tag }
    }

    /// The address.
    pub fn address(&self) -> (address: &str)
        ensures
            address@ == self@.address,
    {
        self.address.as_str()
    }

    /// The chain on which the address lies.
    pub fn chain_id(&self) -> (chain_id: u32)
        ensures
            chain_id == self@.chain_id,
    {
        self.chain_id
    }

    /// The label.
    pub fn label(&self) -> (label: &str)
        ensures
            label@ == self@.label,
    {
        self.label.as_str()
    }

    /// The name tag.
    pub fn name_tag(&self) -> (name_tag: &str)
        ensures
            name_tag@ == self@.name_tag,
    {
        self.name_tag.as_str()
    }
}

/// The answer to the request for the label of an address.
#[derive(Debug, PartialEq, Eq)]
pub enum LabelReply<'a, L> {
    /// The label: the first of those found.
    Found(&'a L),
    /// No label was found.
    NotFound,
    /// The search failed.
    Failed,
}

/// The HTTP status that goes with a reply.
pub open spec fn status_of<L>(reply: LabelReply<L>) -> u16 {
    match reply {
        LabelReply::Found(_) => 200,
        LabelReply::NotFound => 404,
        LabelReply::Failed => 500,
    }
}

/// The error code in the body of a reply that found no label.
pub const NOT_FOUND: &'static str = "NOT_FOUND";

/// Decides the answer to the request for the label of an address from the
/// result of the search: the first label where any was found, "not found"
/// where the search found none, and a failure where the search failed.
pub fn label_reply<'a, L, E>(searched: &'a Result<Vec<L>, E>) -> (reply: LabelReply<'a, L>)
    ensures
        match searched {
            Ok(labels) => if labels@.len() == 0 {
                reply is NotFound
            } else {
                reply == LabelReply::Found(&labels@[0])
            },
            Err(_) => reply is Failed,
        },
{
    match searched {
        Ok(labels) => {
            if labels.len() == 0 {
                LabelReply::NotFound
            } else {
                LabelReply::Found(&labels[0])
            }
        },
        Err(_) => LabelReply::Failed,
    }
}

/// The HTTP status that goes with a reply.
pub fn reply_status<L>(reply: &LabelReply<L>) -> (status: u16)
    ensures
        status == status_of(*reply),
{
    match reply {
        LabelReply::Found(_) => 200,
        LabelReply::NotFound => 404,
        LabelReply::Failed => 500,
    }
}

} // verus!
