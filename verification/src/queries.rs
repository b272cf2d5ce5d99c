//! The searches that the gateway runs against the document store.
//!
//! Each function builds one query and says, over the view of the result,
//! exactly which JSON document it is.

use vstd::prelude::*;
use crate::bytecode::BytecodeUtils;
use crate::elastic::{PageRequest, plan_page, is_page_request, optional_text};
use crate::json::{JsonValue, JsonView, array_view};

verus! {

/// Index that holds the transactions.
pub const TRANSACTIONS_INDEX: &'static str = "transactions";

/// Index that holds the address labels.
pub const LABELS_INDEX: &'static str = "labels";

/// Number of transactions on one page of a transaction search.
pub const TRANSACTIONS_PAGE_SIZE: i64 = 1000;

/// Selector of `transferOwnership(address)`.
pub const TRANSFER_OWNERSHIP: &'static str = "f2fde38b";

/// Selector of `renounceOwnership()`.
pub const RENOUNCE_OWNERSHIP: &'static str = "715018a6";

/// The clause that matches documents whose `field` matches `text`.
pub open spec fn match_clause(field: Seq<char>, text: Seq<char>) -> JsonView {
    JsonView::object1("match"@, JsonView::object1(field, JsonView::Text(text)))
}

/// The clause that matches documents that match every one of `clauses`.
pub open spec fn all_of(clauses: Seq<JsonView>) -> JsonView {
    JsonView::object1("bool"@, JsonView::object1("must"@, JsonView::Array(clauses)))
}

/// The search body that asks for the documents that match `clause`.
pub open spec fn query_of(clause: JsonView) -> JsonView {
    JsonView::object1("query"@, clause)
}

/// The clause that matches every document.
pub open spec fn match_all() -> JsonView {
    JsonView::object1("match_all"@, JsonView::Object(Seq::empty()))
}

/// For each text of `inputs`, in order, the clause that matches transactions
/// whose input matches it.
pub open spec fn input_clauses(inputs: Seq<Seq<char>>) -> Seq<JsonView> {
    Seq::new(inputs.len(), |i: int| match_clause("input"@, inputs[i]))
}

/// The texts of `inputs`, in order.
pub open spec fn texts_of(inputs: Seq<String>) -> Seq<Seq<char>> {
    Seq::new(inputs.len(), |i: int| inputs[i]@)
}

/// The selectors by which the store is searched for token contracts: the five
/// ERC-20 selectors and the two of an ownable contract.
pub open spec fn token_contract_selectors() -> Seq<Seq<char>> {
    BytecodeUtils::essentials() + seq![TRANSFER_OWNERSHIP@, RENOUNCE_OWNERSHIP@]
}

fn build_match(field: &str, text: &str) -> (clause: JsonValue)
    ensures
        clause@ == match_clause(field@, text@),
{
    JsonValue::object1("match", JsonValue::object1(field, JsonValue::text(text)))
}

fn build_all_of(clauses: Vec<JsonValue>) -> (clause: JsonValue)
    ensures
        clause@ == all_of(array_view(clauses@)),
{
    JsonValue::object1("bool", JsonValue::object1("must", JsonValue::array(clauses)))
}

/// The clause that matches the transactions whose input matches every text of
/// `inputs`.
pub fn transactions_query(inputs: &Vec<String>) -> (clause: JsonValue)
    ensures
        clause@ == all_of(input_clauses(texts_of(inputs@))),
{
    let mut clauses: Vec<JsonValue> = Vec::new();
    let mut i: usize = 0;
    while i < inputs.len()
        invariant
            i <= inputs.len(),
            clauses@.len() == i,
            array_view(clauses@) == input_clauses(texts_of(inputs@).take(i as int)),
        decreases inputs.len() - i,
    {
        let ghost before = clauses@;
        clauses.push(build_match("input", inputs[i].as_str()));
        proof {
            let wanted = input_clauses(texts_of(inputs@).take(i + 1));
            assert forall|j: int| 0 <= j < wanted.len() implies array_view(clauses@)[j]
                == wanted[j] by {
                if j < i {
                    assert(array_view(before)[j] == input_clauses(
                        texts_of(inputs@).take(i as int),
                    )[j]);
                }
            }
            assert(array_view(clauses@) =~= wanted);
        }
        i += 1;
    }
    assert(texts_of(inputs@).take(inputs.len() as int) =~= texts_of(inputs@));
    build_all_of(clauses)
}

/// The request for a page of the transactions whose input matches every text
/// of `inputs`: the page that `cursor` continues, or the first one.
pub fn transactions_page(inputs: &Vec<String>, cursor: Option<String>) -> (request: PageRequest)
    ensures
        is_page_request(
            request,
            TRANSACTIONS_INDEX@,
            Some(all_of(input_clauses(texts_of(inputs@)))),
            TRANSACTIONS_PAGE_SIZE,
            optional_text(cursor),
        ),
{
    plan_page(TRANSACTIONS_INDEX, Some(transactions_query(inputs)), TRANSACTIONS_PAGE_SIZE, cursor)
}

/// The search body that asks for the labels: all of them, or those whose
/// label matches `label`.
pub open spec fn labels_search(label: Option<Seq<char>>) -> JsonView {
    match label {
        None => query_of(match_all()),
        Some(label) => query_of(match_clause("label"@, label)),
    }
}

/// The text that an optional text slice holds.
pub open spec fn optional_str(text: Option<&str>) -> Option<Seq<char>> {
    match text {
        Some(text) => Some(text@),
        None => None,
    }
}

/// The search body that asks for the labels: all of them, or those whose
/// label matches `label`.
pub fn labels_query(label: Option<&str>) -> (body: JsonValue)
    ensures
        body@ == labels_search(optional_str(label)),
{
    match label {
        None => JsonValue::object1("query", JsonValue::object1("match_all", JsonValue::empty_object())),
        Some(label) => JsonValue::object1("query", build_match("label", label)),
    }
}

/// The search body that asks for the labels of the address `address`.
pub fn labels_by_address_query(address: &str) -> (body: JsonValue)
    ensures
        body@ == query_of(match_clause("address"@, address@)),
{
    JsonValue::object1("query", build_match("address", address))
}

/// The request for a page of `size` labels: the page that `cursor` continues,
/// or the first one.
pub fn labels_page(label: Option<&str>, size: i32, cursor: Option<String>) -> (request: PageRequest)
    ensures
        is_page_request(
            request,
            LABELS_INDEX@,
            Some(labels_search(optional_str(label))),
            size as i64,
            optional_text(cursor),
        ),
{
    plan_page(LABELS_INDEX, Some(labels_query(label)), size as i64, cursor)
}

/// The search body that asks for the transactions whose input matches every
/// selector of a token contract.
pub fn erc20_contracts_query() -> (body: JsonValue)
    ensures
        body@ == query_of(all_of(input_clauses(token_contract_selectors()))),
{
    let essentials = BytecodeUtils.erc20_essentials_id();
    let mut clauses: Vec<JsonValue> = Vec::new();
    clauses.push(build_match("input", essentials[0]));
    clauses.push(build_match("input", essentials[1]));
    clauses.push(build_match("input", essentials[2]));
    clauses.push(build_match("input", essentials[3]));
    clauses.push(build_match("input", essentials[4]));
    clauses.push(build_match("input", TRANSFER_OWNERSHIP));
    clauses.push(build_match("input", RENOUNCE_OWNERSHIP));
    assert(array_view(clauses@) =~= input_clauses(token_contract_selectors()));
    JsonValue::object1("query", build_all_of(clauses))
}

/// The search body that asks for the documents of the block with hash
/// `block_hash`.
pub fn block_hash_query(block_hash: &str) -> (body: JsonValue)
    ensures
        body@ == query_of(all_of(seq![match_clause("blockHash"@, block_hash@)])),
{
    let mut clauses: Vec<JsonValue> = Vec::new();
    clauses.push(build_match("blockHash", block_hash));
    assert(array_view(clauses@) =~= seq![match_clause("blockHash"@, block_hash@)]);
    JsonValue::object1("query", build_all_of(clauses))
}

} // verus!
