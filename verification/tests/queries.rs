use chain_gateway::elastic::PageRequest;
use chain_gateway::json::{JsonNumber, JsonValue};
use chain_gateway::queries::{
    block_hash_query, erc20_contracts_query, labels_by_address_query, labels_page, labels_query,
    transactions_page,
    transactions_query, LABELS_INDEX, TRANSACTIONS_INDEX, TRANSACTIONS_PAGE_SIZE,
};

fn to_serde(value: &JsonValue) -> serde_json::Value {
    match value {
        JsonValue::Null => serde_json::Value::Null,
        JsonValue::Bool(b) => serde_json::Value::Bool(*b),
        JsonValue::Number(JsonNumber::Unsigned(n)) => serde_json::Value::from(*n),
        JsonValue::Number(JsonNumber::Negative(n)) => serde_json::Value::from(*n),
        JsonValue::Number(JsonNumber::Decimal(text)) => serde_json::from_str(text).unwrap(),
        JsonValue::Text(text) => serde_json::Value::String(text.clone()),
        JsonValue::Array(items) => serde_json::Value::Array(items.iter().map(to_serde).collect()),
        JsonValue::Object(members) => serde_json::Value::Object(
            members.iter().map(|(key, inner)| (key.clone(), to_serde(inner))).collect(),
        ),
    }
}

fn parsed(text: &str) -> serde_json::Value {
    serde_json::from_str(text).unwrap()
}

#[test]
fn labels_query_without_label_matches_all() {
    assert_eq!(to_serde(&labels_query(None)), parsed(r#"{"query":{"match_all":{}}}"#));
}

#[test]
fn labels_query_with_label_matches_the_label() {
    assert_eq!(
        to_serde(&labels_query(Some("exchange"))),
        parsed(r#"{"query":{"match":{"label":"exchange"}}}"#)
    );
}

#[test]
fn transactions_query_has_one_clause_for_each_input() {
    let inputs = vec!["a9059cbb".to_string(), "70a08231".to_string()];
    assert_eq!(
        to_serde(&transactions_query(&inputs)),
        parsed(
            r#"{"bool":{"must":[{"match":{"input":"a9059cbb"}},{"match":{"input":"70a08231"}}]}}"#
        )
    );
}

#[test]
fn transactions_query_without_inputs_has_no_clause() {
    assert_eq!(to_serde(&transactions_query(&Vec::new())), parsed(r#"{"bool":{"must":[]}}"#));
}

#[test]
fn erc20_contracts_query_asks_for_the_seven_selectors() {
    assert_eq!(
        to_serde(&erc20_contracts_query()),
        parsed(
            r#"{"query":{"bool":{"must":[
                {"match":{"input":"a9059cbb"}},
                {"match":{"input":"70a08231"}},
                {"match":{"input":"dd62ed3e"}},
                {"match":{"input":"095ea7b3"}},
                {"match":{"input":"23b872dd"}},
                {"match":{"input":"f2fde38b"}},
                {"match":{"input":"715018a6"}}
            ]}}}"#
        )
    );
}

#[test]
fn block_hash_query_matches_the_block_hash() {
    assert_eq!(
        to_serde(&block_hash_query("0xabc123")),
        parsed(r#"{"query":{"bool":{"must":[{"match":{"blockHash":"0xabc123"}}]}}}"#)
    );
}

#[test]
fn first_page_of_labels_is_a_search_of_the_labels_index() {
    match labels_page(Some("exchange"), 25, None) {
        PageRequest::Search { index, keep_alive, body } => {
            assert_eq!(index, LABELS_INDEX);
            assert_eq!(index, "labels");
            assert_eq!(keep_alive, "10m");
            assert_eq!(
                to_serde(&body),
                parsed(
                    r#"{"size":25,"track_total_hits":true,
                        "query":{"query":{"match":{"label":"exchange"}}}}"#
                )
            );
        }
        other => panic!("expected a search, got {:?}", other),
    }
}

#[test]
fn following_page_of_labels_continues_the_cursor() {
    match labels_page(Some("exchange"), 25, Some("cursor-1".to_string())) {
        PageRequest::Scroll { keep_alive, body } => {
            assert_eq!(keep_alive, "10m");
            assert_eq!(to_serde(&body), parsed(r#"{"scroll_id":"cursor-1"}"#));
        }
        other => panic!("expected a scroll, got {:?}", other),
    }
}

#[test]
fn first_page_of_transactions_asks_for_a_thousand() {
    assert_eq!(TRANSACTIONS_PAGE_SIZE, 1000);
    let inputs = vec!["a9059cbb".to_string()];
    match transactions_page(&inputs, None) {
        PageRequest::Search { index, keep_alive, body } => {
            assert_eq!(index, TRANSACTIONS_INDEX);
            assert_eq!(index, "transactions");
            assert_eq!(keep_alive, "10m");
            assert_eq!(
                to_serde(&body),
                parsed(
                    r#"{"size":1000,"track_total_hits":true,
                        "query":{"bool":{"must":[{"match":{"input":"a9059cbb"}}]}}}"#
                )
            );
        }
        other => panic!("expected a search, got {:?}", other),
    }
}

#[test]
fn following_page_of_transactions_continues_the_cursor() {
    let inputs = vec!["a9059cbb".to_string()];
    match transactions_page(&inputs, Some("c2".to_string())) {
        PageRequest::Scroll { keep_alive, body } => {
            assert_eq!(keep_alive, "10m");
            assert_eq!(to_serde(&body), parsed(r#"{"scroll_id":"c2"}"#));
        }
        other => panic!("expected a scroll, got {:?}", other),
    }
}

#[test]
fn labels_of_an_address_are_matched_by_the_address() {
    assert_eq!(
        to_serde(&labels_by_address_query("0xabc")),
        parsed(r#"{"query":{"match":{"address":"0xabc"}}}"#)
    );
}
