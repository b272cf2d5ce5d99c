use chain_gateway::elastic::{
    bulk_body, check_status, hit_sources, keep_decoded, plan_page, read_count, read_page, BulkLine,
    ElasticRepositoryError, PageRequest, REQUEST_TIMEOUT_SECS, SCROLL_TIME,
};
use chain_gateway::json::{JsonNumber, JsonValue};

fn from_serde(value: &serde_json::Value) -> JsonValue {
    match value {
        serde_json::Value::Null => JsonValue::Null,
        serde_json::Value::Bool(b) => JsonValue::Bool(*b),
        serde_json::Value::Number(n) => {
            if let Some(u) = n.as_u64() {
                JsonValue::Number(JsonNumber::Unsigned(u))
            } else if let Some(i) = n.as_i64() {
                JsonValue::Number(JsonNumber::Negative(i))
            } else {
                JsonValue::Number(JsonNumber::Decimal(n.to_string()))
            }
        }
        serde_json::Value::String(s) => JsonValue::Text(s.clone()),
        serde_json::Value::Array(items) => JsonValue::Array(items.iter().map(from_serde).collect()),
        serde_json::Value::Object(map) => JsonValue::Object(
            map.iter().map(|(key, inner)| (key.clone(), from_serde(inner))).collect(),
        ),
    }
}

fn json(text: &str) -> JsonValue {
    from_serde(&serde_json::from_str::<serde_json::Value>(text).unwrap())
}

#[test]
fn bulk_body_pairs_each_document_with_an_index_action() {
    let documents = vec![json(r#"{"hash":"0x1"}"#), json(r#"{"hash":"0x2"}"#)];
    let lines = bulk_body("transactions", &documents);
    let action = json(r#"{"index":{"_index":"transactions"}}"#);
    assert_eq!(lines.len(), 4);
    assert_eq!(lines[0], BulkLine::Action(json(r#"{"index":{"_index":"transactions"}}"#)));
    assert_eq!(lines[1], BulkLine::Document(&documents[0]));
    assert_eq!(lines[2], BulkLine::Action(action));
    assert_eq!(lines[3], BulkLine::Document(&documents[1]));
}

#[test]
fn bulk_body_of_no_documents_is_empty() {
    let documents: Vec<u8> = Vec::new();
    assert!(bulk_body("transactions", &documents).is_empty());
}

#[test]
fn statuses_in_the_two_hundreds_are_successes() {
    assert_eq!(check_status(200, "200 OK"), Ok(()));
    assert_eq!(check_status(201, "201 Created"), Ok(()));
    assert_eq!(check_status(299, "299"), Ok(()));
}

#[test]
fn other_statuses_are_response_errors() {
    assert_eq!(
        check_status(404, "404 Not Found"),
        Err(ElasticRepositoryError::ResponseError(
            "Falha na busca. Status: 404 Not Found".to_string()
        ))
    );
    assert_eq!(
        check_status(500, "500 Internal Server Error"),
        Err(ElasticRepositoryError::ResponseError(
            "Falha na busca. Status: 500 Internal Server Error".to_string()
        ))
    );
    assert!(check_status(199, "199").is_err());
    assert!(check_status(300, "300 Multiple Choices").is_err());
    assert!(check_status(0, "").is_err());
}

#[test]
fn hit_sources_gives_the_source_of_each_hit_in_order() {
    let body = json(
        r#"{"took":3,"hits":{"total":{"value":2},"max_score":1.0,"hits":[
            {"_index":"transactions","_score":1.0,"_source":{"hash":"0x1"}},
            {"_index":"transactions","_score":0.5,"_source":{"hash":"0x2"}}
        ]}}"#,
    );
    let sources = hit_sources(&body).unwrap();
    assert_eq!(sources.len(), 2);
    assert_eq!(sources[0], Some(&json(r#"{"hash":"0x1"}"#)));
    assert_eq!(sources[1], Some(&json(r#"{"hash":"0x2"}"#)));
}

#[test]
fn hit_without_source_stands_as_none() {
    let body = json(r#"{"hits":{"hits":[{"_index":"t"},{"_source":7},"text"]}}"#);
    let sources = hit_sources(&body).unwrap();
    assert_eq!(sources.len(), 3);
    assert_eq!(sources[0], None);
    assert_eq!(sources[1], Some(&json("7")));
    assert_eq!(sources[2], None);
}

#[test]
fn response_without_hits_is_invalid() {
    let expected = Err(ElasticRepositoryError::ResponseError(
        "Resposta inválida do Elasticsearch".to_string(),
    ));
    assert_eq!(hit_sources(&json(r#"{"error":"x"}"#)), expected);
    assert_eq!(hit_sources(&json(r#"{"hits":{"total":0}}"#)), expected);
    assert_eq!(hit_sources(&json(r#"{"hits":{"hits":{"a":1}}}"#)), expected);
    assert_eq!(hit_sources(&json(r#"[1,2]"#)), expected);
}

#[test]
fn response_with_no_hit_gives_no_source() {
    assert_eq!(hit_sources(&json(r#"{"hits":{"hits":[]}}"#)), Ok(Vec::new()));
}

#[test]
fn last_member_of_a_repeated_key_counts() {
    let body = JsonValue::Object(vec![
        ("count".to_string(), JsonValue::Number(JsonNumber::Unsigned(1))),
        ("count".to_string(), JsonValue::Number(JsonNumber::Unsigned(2))),
    ]);
    assert_eq!(read_count(&body), Ok(2));
}

#[test]
fn keep_decoded_drops_what_could_not_be_decoded() {
    assert_eq!(keep_decoded(vec![Some(1), None, Some(3), None]), vec![1, 3]);
    assert_eq!(keep_decoded::<u8>(vec![None, None]), Vec::<u8>::new());
    assert_eq!(keep_decoded::<u8>(Vec::new()), Vec::<u8>::new());
    assert_eq!(keep_decoded(vec![Some("a"), Some("b")]), vec!["a", "b"]);
}

#[test]
fn read_count_gives_the_count() {
    assert_eq!(read_count(&json(r#"{"count":42,"_shards":{"total":1}}"#)), Ok(42));
    assert_eq!(read_count(&json(r#"{"count":0}"#)), Ok(0));
    assert_eq!(read_count(&json(r#"{"count":18446744073709551615}"#)), Ok(u64::MAX));
}

#[test]
fn read_count_fails_without_a_count() {
    let expected =
        Err(ElasticRepositoryError::ResponseError("Falha ao acessar o campo 'count'".to_string()));
    assert_eq!(read_count(&json(r#"{}"#)), expected);
    assert_eq!(read_count(&json(r#"{"count":"7"}"#)), expected);
    assert_eq!(read_count(&json(r#"{"count":-1}"#)), expected);
    assert_eq!(read_count(&json(r#"{"count":1.5}"#)), expected);
    assert_eq!(read_count(&json(r#"null"#)), expected);
}

#[test]
fn first_page_is_a_search_that_opens_a_cursor() {
    let query = json(r#"{"match_all":{}}"#);
    let request = plan_page("labels", Some(query), 50, None);
    assert_eq!(
        request,
        PageRequest::Search {
            index: "labels".to_string(),
            keep_alive: "10m".to_string(),
            body: JsonValue::Object(vec![
                ("size".to_string(), JsonValue::Number(JsonNumber::Unsigned(50))),
                ("track_total_hits".to_string(), JsonValue::Bool(true)),
                ("query".to_string(), json(r#"{"match_all":{}}"#)),
            ]),
        }
    );
}

#[test]
fn first_page_without_query_searches_with_the_empty_object() {
    let request = plan_page("labels", None, 10, None);
    assert_eq!(
        request,
        PageRequest::Search {
            index: "labels".to_string(),
            keep_alive: "10m".to_string(),
            body: JsonValue::Object(vec![
                ("size".to_string(), JsonValue::Number(JsonNumber::Unsigned(10))),
                ("track_total_hits".to_string(), JsonValue::Bool(true)),
                ("query".to_string(), JsonValue::Object(Vec::new())),
            ]),
        }
    );
}

#[test]
fn negative_page_size_is_written_as_it_is() {
    match plan_page("labels", None, -1, None) {
        PageRequest::Search { body, .. } => {
            assert_eq!(
                body,
                JsonValue::Object(vec![
                    ("size".to_string(), JsonValue::Number(JsonNumber::Negative(-1))),
                    ("track_total_hits".to_string(), JsonValue::Bool(true)),
                    ("query".to_string(), JsonValue::Object(Vec::new())),
                ])
            );
        }
        other => panic!("expected a search, got {:?}", other),
    }
}

#[test]
fn following_page_continues_the_cursor_whatever_else_is_given() {
    let request = plan_page("labels", Some(json("{}")), 50, Some("abc".to_string()));
    assert_eq!(
        request,
        PageRequest::Scroll {
            keep_alive: "10m".to_string(),
            body: json(r#"{"scroll_id":"abc"}"#),
        }
    );
}

#[test]
fn read_page_gives_sources_and_cursor() {
    let body = json(
        r#"{"_scroll_id":"next-1","hits":{"hits":[{"_source":{"label":"a"}},{"_source":{"label":"b"}}]}}"#,
    );
    let page = read_page(&body);
    assert_eq!(page.next_cursor, Some("next-1".to_string()));
    assert_eq!(page.items.len(), 2);
    assert_eq!(page.items[0], Some(&json(r#"{"label":"a"}"#)));
    assert_eq!(page.items[1], Some(&json(r#"{"label":"b"}"#)));
}

#[test]
fn read_page_without_hits_or_cursor_is_empty() {
    let body = json(r#"{"error":"gone"}"#);
    let page = read_page(&body);
    assert_eq!(page.next_cursor, None);
    assert!(page.items.is_empty());
    let numbered = json(r#"{"_scroll_id":7,"hits":{"hits":[]}}"#);
    assert_eq!(read_page(&numbered).next_cursor, None);
}

#[test]
fn errors_are_described_by_kind_and_text() {
    assert_eq!(
        ElasticRepositoryError::ConnectionError("refused".to_string()).describe(),
        "Erro de conexão com Elasticsearch: refused"
    );
    assert_eq!(
        ElasticRepositoryError::ResponseError("vazio".to_string()).describe(),
        "Erro ao processar resposta: vazio"
    );
}

#[test]
fn store_constants() {
    assert_eq!(SCROLL_TIME, "10m");
    assert_eq!(REQUEST_TIMEOUT_SECS, 120);
}
