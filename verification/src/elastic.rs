//! The document store's requests and responses.
//!
//! Sending a request and receiving its response is the caller's work. What is
//! sent and how an answer is read is decided here: the body of a bulk write,
//! the body of a first page and of a following page of a search, the status
//! that counts as success, and the hits, the cursor and the count that a
//! response holds.

use vstd::prelude::*;
use vstd::string::StringExecFns;
use crate::json::{JsonValue, JsonView, array_view};

verus! {

/// How long the store keeps a cursor alive between two pages.
pub const SCROLL_TIME: &'static str = "10m";

/// Seconds after which a request to the store is given up.
pub const REQUEST_TIMEOUT_SECS: u64 = 120;

/// Start of the message of a search that the store answered with a failure.
pub const SEARCH_FAILED: &'static str = "Falha na busca. Status: ";

/// Message of a response in which no list of hits is found.
pub const INVALID_RESPONSE: &'static str = "Resposta inválida do Elasticsearch";

/// Message of a response in which no count is found.
pub const COUNT_MISSING: &'static str = "Falha ao acessar o campo 'count'";

/// Start of the description of a connection error.
pub const CONNECTION_ERROR: &'static str = "Erro de conexão com Elasticsearch: ";

/// Start of the description of a response error.
pub const RESPONSE_ERROR: &'static str = "Erro ao processar resposta: ";

/// Why a call to the store failed.
#[derive(Debug, PartialEq, Eq)]
pub enum ElasticRepositoryError {
    /// The store could not be reached; the text says why.
    ConnectionError(String),
    /// The store answered, and the answer could not be used; the text says why.
    ResponseError(String),
}

impl ElasticRepositoryError {
    /// The error in words.
    pub open spec fn description(self) -> Seq<char> {
        match self {
            ElasticRepositoryError::ConnectionError(text) => CONNECTION_ERROR@ + text@,
            ElasticRepositoryError::ResponseError(text) => RESPONSE_ERROR@ + text@,
        }
    }

    /// The error in words: what kind it is, then the text it carries.
    pub fn describe(&self) -> (words: String)
        ensures
            words@ == self.description(),
    {
        match self {
            ElasticRepositoryError::ConnectionError(text) => {
                let mut words = String::from_str(CONNECTION_ERROR);
                words.append(text.as_str());
                words
            },
            ElasticRepositoryError::ResponseError(text) => {
                let mut words = String::from_str(RESPONSE_ERROR);
                words.append(text.as_str());
                words
            },
        }
    }
}

/// One page of a search: the documents found and, where the store gave one,
/// the cursor that continues the search.
#[derive(Debug, PartialEq, Eq)]
pub struct SearchResult<T> {
    pub items: Vec<T>,
    pub next_cursor: Option<String>,
}

/// One line of the body of a bulk write.
#[derive(Debug, PartialEq, Eq)]
pub enum BulkLine<'a, D> {
    /// What the store is to do with the document on the next line.
    Action(JsonValue),
    /// A document.
    Document(&'a D),
}

/// The action that has the next document indexed under `index`.
pub open spec fn index_action(index: Seq<char>) -> JsonView {
    JsonView::object1("index"@, JsonView::object1("_index"@, JsonView::Text(index)))
}

/// `lines` is the body that writes `documents` to `index`: for each document,
/// in order, the index action and then the document itself.
pub open spec fn is_bulk_body<D>(lines: Seq<BulkLine<D>>, index: Seq<char>, documents: Seq<D>) -> bool {
    &&& lines.len() == 2 * documents.len()
    &&& forall|i: int|
        0 <= i < documents.len() ==> (#[trigger] lines[2 * i] matches BulkLine::Action(action)
            && action@ == index_action(index))
    &&& forall|i: int|
        0 <= i < documents.len() ==> (#[trigger] lines[2 * i + 1] matches BulkLine::Document(
            document,
        ) && *document == documents[i])
}

/// The body of the bulk write of `documents` to `index`.
pub fn bulk_body<'a, D>(index: &str, documents: &'a Vec<D>) -> (lines: Vec<BulkLine<'a, D>>)
    ensures
        is_bulk_body(lines@, index@, documents@),
{
    let mut lines: Vec<BulkLine<'a, D>> = Vec::new();
    let mut i: usize = 0;
    while i < documents.len()
        invariant
            i <= documents.len(),
            is_bulk_body(lines@, index@, documents@.take(i as int)),
        decreases documents.len() - i,
    {
        let action = JsonValue::object1("index", JsonValue::object1("_index", JsonValue::text(index)));
        let ghost before = lines@;
        lines.push(BulkLine::Action(action));
        lines.push(BulkLine::Document(&documents[i]));
        proof {
            let taken = documents@.take(i + 1);
            assert forall|j: int| 0 <= j < taken.len() implies (#[trigger] lines@[2 * j] matches BulkLine::Action(
                a,
            ) && a@ == index_action(index@)) by {
                if j < i {
                    assert(lines@[2 * j] == before[2 * j]);
                    assert(documents@.take(i as int).len() == i);
                }
            }
            assert forall|j: int| 0 <= j < taken.len() implies (#[trigger] lines@[2 * j + 1] matches BulkLine::Document(
                d,
            ) && *d == taken[j]) by {
                if j < i {
                    assert(lines@[2 * j + 1] == before[2 * j + 1]);
                    assert(documents@.take(i as int)[j] == taken[j]);
                }
            }
        }
        i += 1;
    }
    assert(documents@.take(documents.len() as int) =~= documents@);
    lines
}

/// Whether an HTTP status says that the request succeeded.
pub open spec fn is_success(status: u16) -> bool {
    200 <= status < 300
}

/// Tells a search that succeeded from one that failed, by the HTTP status of
/// the response. `status_text` is the status in words, as it is to appear in
/// the error.
pub fn check_status(status: u16, status_text: &str) -> (checked: Result<(), ElasticRepositoryError>)
    ensures
        checked is Ok <==> is_success(status),
        checked matches Err(error) ==> error matches ElasticRepositoryError::ResponseError(text)
            && text@ == SEARCH_FAILED@ + status_text@,
{
    if 200 <= status && status < 300 {
        Ok(())
    } else {
        let mut text = String::from_str(SEARCH_FAILED);
        text.append(status_text);
        Err(ElasticRepositoryError::ResponseError(text))
    }
}

/// The list of hits in the body of a search response, if it has one.
pub open spec fn hits_of(body: JsonView) -> Option<Seq<JsonView>> {
    match body.member("hits"@).member("hits"@) {
        JsonView::Array(hits) => Some(hits),
        _ => None,
    }
}

/// The document that a hit carries: its `_source`, or null where it has none.
pub open spec fn source_of(hit: JsonView) -> JsonView {
    hit.member("_source"@)
}

/// `sources` holds the documents of `hits`, one for each hit and in the same
/// order; a hit whose document is missing or null may stand as `None`.
pub open spec fn are_sources(sources: Seq<Option<&JsonValue>>, hits: Seq<JsonView>) -> bool {
    &&& sources.len() == hits.len()
    &&& forall|i: int|
        0 <= i < hits.len() ==> match #[trigger] sources[i] {
            Some(source) => source@ == source_of(hits[i]),
            None => source_of(hits[i]) == JsonView::Null,
        }
}

fn hits_array<'a>(body: &'a JsonValue) -> (hits: Option<&'a Vec<JsonValue>>)
    ensures
        match hits {
            Some(hits) => hits_of(body@) == Some(array_view(hits@)),
            None => hits_of(body@) is None,
        },
{
    match body.member("hits") {
        Some(outer) => match outer.member("hits") {
            Some(inner) => inner.as_array(),
            None => None,
        },
        None => None,
    }
}

fn sources_in<'a>(hits: &'a Vec<JsonValue>) -> (sources: Vec<Option<&'a JsonValue>>)
    ensures
        are_sources(sources@, array_view(hits@)),
{
    let mut sources: Vec<Option<&'a JsonValue>> = Vec::new();
    let mut i: usize = 0;
    while i < hits.len()
        invariant
            i <= hits.len(),
            are_sources(sources@, array_view(hits@).take(i as int)),
        decreases hits.len() - i,
    {
        let source = hits[i].member("_source");
        sources.push(source);
        i += 1;
    }
    assert(array_view(hits@).take(hits.len() as int) =~= array_view(hits@));
    sources
}

/// The documents that a search found, read from the body of the response.
///
/// Fails where the body holds no list of hits.
pub fn hit_sources<'a>(body: &'a JsonValue) -> (found: Result<
    Vec<Option<&'a JsonValue>>,
    ElasticRepositoryError,
>)
    ensures
        found is Ok <==> hits_of(body@) is Some,
        found matches Ok(sources) ==> are_sources(sources@, hits_of(body@)->0),
        found matches Err(error) ==> error matches ElasticRepositoryError::ResponseError(text)
            && text@ == INVALID_RESPONSE@,
{
    match hits_array(body) {
        Some(hits) => Ok(sources_in(hits)),
        None => Err(ElasticRepositoryError::ResponseError(String::from_str(INVALID_RESPONSE))),
    }
}

/// The items of `decoded` that are present, in order.
pub open spec fn present<T>(decoded: Seq<Option<T>>) -> Seq<T>
    decreases decoded.len(),
{
    if decoded.len() == 0 {
        Seq::empty()
    } else {
        match decoded.last() {
            Some(item) => present(decoded.drop_last()).push(item),
            None => present(decoded.drop_last()),
        }
    }
}

/// Keeps the documents that could be decoded and drops the others, without
/// changing the order of those kept.
pub fn keep_decoded<T>(decoded: Vec<Option<T>>) -> (kept: Vec<T>)
    ensures
        kept@ == present(decoded@),
{
    let mut kept: Vec<T> = Vec::new();
    let ghost all = decoded@;
    for item in it: decoded
        invariant
            it.seq() == all,
            kept@ == present(all.take(it.index() as int)),
    {
        proof {
            let next = all.take(it.index() + 1);
            assert(next.drop_last() =~= all.take(it.index() as int));
            assert(next.last() == item);
        }
        match item {
            Some(document) => {
                kept.push(document);
            },
            None => {},
        }
    }
    assert(all.take(all.len() as int) =~= all);
    kept
}

/// The count that a count response holds, if it holds one.
pub open spec fn count_of(body: JsonView) -> Option<u64> {
    match body.member("count"@) {
        JsonView::Number(crate::json::JsonNumberView::Unsigned(n)) => Some(n),
        _ => None,
    }
}

/// The number of documents, read from the body of a count response.
///
/// Fails where the body holds no count that is a whole number of zero or more.
pub fn read_count(body: &JsonValue) -> (count: Result<u64, ElasticRepositoryError>)
    ensures
        match count {
            Ok(n) => count_of(body@) == Some(n),
            Err(error) => count_of(body@) is None && (error
                matches ElasticRepositoryError::ResponseError(text) && text@ == COUNT_MISSING@),
        },
{
    let found = match body.member("count") {
        Some(value) => value.as_u64(),
        None => None,
    };
    match found {
        Some(n) => Ok(n),
        None => Err(ElasticRepositoryError::ResponseError(String::from_str(COUNT_MISSING))),
    }
}

/// The request for one page of a search.
#[derive(Debug, PartialEq, Eq)]
pub enum PageRequest {
    /// The first page: a search of `index` that opens a cursor.
    Search { index: String, keep_alive: String, body: JsonValue },
    /// A following page: the continuation of the cursor named in the body.
    Scroll { keep_alive: String, body: JsonValue },
}

/// The body of the search for a first page of `size` documents that match
/// `query`; without a query, the empty object stands in its place.
pub open spec fn first_page_body(query: Option<JsonView>, size: i64) -> JsonView {
    JsonView::Object(
        seq![
            ("size"@, crate::json::integer_view(size as int)),
            ("track_total_hits"@, JsonView::Bool(true)),
            (
                "query"@,
                match query {
                    Some(query) => query,
                    None => JsonView::Object(Seq::empty()),
                },
            ),
        ],
    )
}

/// The body that continues the cursor `scroll_id`.
pub open spec fn next_page_body(scroll_id: Seq<char>) -> JsonView {
    JsonView::object1("scroll_id"@, JsonView::Text(scroll_id))
}

/// What `request` asks for, over views.
pub open spec fn is_page_request(
    request: PageRequest,
    index: Seq<char>,
    query: Option<JsonView>,
    size: i64,
    scroll_id: Option<Seq<char>>,
) -> bool {
    match scroll_id {
        Some(id) => request matches PageRequest::Scroll { keep_alive, body } && keep_alive@
            == SCROLL_TIME@ && body@ == next_page_body(id),
        None => request matches PageRequest::Search { index: searched, keep_alive, body }
            && searched@ == index && keep_alive@ == SCROLL_TIME@ && body@ == first_page_body(
            query,
            size,
        ),
    }
}

/// The view of an optional document.
pub open spec fn optional_view(value: Option<JsonValue>) -> Option<JsonView> {
    match value {
        Some(value) => Some(value@),
        None => None,
    }
}

/// The view of an optional text.
pub open spec fn optional_text(text: Option<String>) -> Option<Seq<char>> {
    match text {
        Some(text) => Some(text@),
        None => None,
    }
}

/// Decides which request fetches a page: with a cursor, its continuation,
/// whatever the other arguments are; without one, a new search of `index` for
/// `size` documents that match `query`.
pub fn plan_page(index: &str, query: Option<JsonValue>, size: i64, scroll_id: Option<String>) -> (request:
    PageRequest)
    ensures
        is_page_request(request, index@, optional_view(query), size, optional_text(scroll_id)),
{
    match scroll_id {
        Some(id) => PageRequest::Scroll {
            keep_alive: String::from_str(SCROLL_TIME),
            body: JsonValue::object1("scroll_id", JsonValue::Text(id)),
        },
        None => {
            let wanted = match query {
                Some(query) => query,
                None => JsonValue::empty_object(),
            };
            let body = JsonValue::object1("size", JsonValue::integer(size)).with_member(
                "track_total_hits",
                JsonValue::Bool(true),
            ).with_member("query", wanted);
            assert(body@->Object_0 =~= first_page_body(optional_view(query), size)->Object_0);
            PageRequest::Search {
                index: String::from_str(index),
                keep_alive: String::from_str(SCROLL_TIME),
                body,
            }
        },
    }
}

/// The cursor that a page's response names, if it names one.
pub open spec fn cursor_of(body: JsonView) -> Option<Seq<char>> {
    match body.member("_scroll_id"@) {
        JsonView::Text(id) => Some(id),
        _ => None,
    }
}

/// The hits of a page's response; a response without a list of hits has none.
pub open spec fn page_hits(body: JsonView) -> Seq<JsonView> {
    match hits_of(body) {
        Some(hits) => hits,
        None => Seq::empty(),
    }
}

/// One page, read from the body of its response: the documents of its hits and
/// the cursor for the page after it.
pub fn read_page<'a>(body: &'a JsonValue) -> (page: SearchResult<Option<&'a JsonValue>>)
    ensures
        are_sources(page.items@, page_hits(body@)),
        optional_text(page.next_cursor) == cursor_of(body@),
{
    let next_cursor = match body.member("_scroll_id") {
        Some(value) => match value.as_text() {
            Some(id) => Some(String::from_str(id)),
            None => None,
        },
        None => None,
    };
    let items = match hits_array(body) {
        Some(hits) => sources_in(hits),
        None => Vec::new(),
    };
    SearchResult { items, next_cursor }
}

} // verus!
