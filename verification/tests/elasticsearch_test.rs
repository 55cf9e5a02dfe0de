use service_commons::elasticsearch::{
    BoolQuery, BulkAction, BulkActionResponse, BulkActions, BulkResponse, BulkResponseItem,
    BulkResult, ElasticsearchUrlBuilder, Query, QueryRequest, Sort, SortOrder, Value,
};
use service_commons::json::Json;
use service_commons::service_requester::{ClientRequest, IntoClientRequest, Method};

fn to_json(value: serde_json::Value) -> Json {
    match value {
        serde_json::Value::Null => Json::Null,
        serde_json::Value::Bool(b) => Json::Bool(b),
        serde_json::Value::Number(n) => match (n.as_u64(), n.as_i64()) {
            (Some(u), _) => Json::UInt(u),
            (_, Some(i)) => Json::Int(i),
            _ => Json::Decimal(n.to_string()),
        },
        serde_json::Value::String(s) => Json::Str(s),
        serde_json::Value::Array(items) => Json::Array(items.into_iter().map(to_json).collect()),
        serde_json::Value::Object(members) => {
            Json::Object(members.into_iter().map(|(k, v)| (k, to_json(v))).collect())
        }
    }
}

fn parse(text: &str) -> Json {
    to_json(serde_json::from_str::<serde_json::Value>(text).unwrap())
}

#[test]
fn test_term_query() {
    let query = QueryRequest::new().with_query(Query::term("bla", Value::text("blub")));
    let json = query.to_json().to_text();

    assert_eq!(json.as_str(), r#"{"query":{"term":{"bla":"blub"}}}"#);

    let actual = QueryRequest::from_json(&parse(&json)).unwrap();

    assert_eq!(actual, query);
}

#[test]
fn test_bool_query() {
    let query = QueryRequest::new().with_query(Query::bool_query(
        vec![Query::term("fieldname", Value::text("fieldvalue"))],
        vec![],
        vec![],
        vec![],
        None,
    ));

    let json = query.to_json().to_text();

    assert_eq!(json.as_str(), r#"{"query":{"bool":{"must":[{"term":{"fieldname":"fieldvalue"}}],"filter":[],"must_not":[],"should":[],"minimum_should_match":null}}}"#);

    let actual = QueryRequest::from_json(&parse(&json)).unwrap();

    assert_eq!(actual, query);
}

#[test]
fn test_prefix_query() {
    let query = QueryRequest::new().with_query(Query::prefix("bla", Value::text("blub")));
    let json = query.to_json().to_text();

    assert_eq!(json.as_str(), r#"{"query":{"prefix":{"bla":"blub"}}}"#);

    let actual = QueryRequest::from_json(&parse(&json)).unwrap();

    assert_eq!(actual, query);
}

#[test]
fn test_sort_without_query() {
    let query = QueryRequest::new()
        .with_sort("test1", SortOrder::Asc)
        .with_sort("test2", SortOrder::Desc);
    let json = query.to_json().to_text();

    assert_eq!(json.as_str(), r#"{"sort":[{"test1":"asc"},{"test2":"desc"}]}"#);

    let actual = QueryRequest::from_json(&parse(&json)).unwrap();

    assert_eq!(actual, query);
}

#[test]
fn test_build_url_create() {
    let url_builder = ElasticsearchUrlBuilder::new("http://server".to_string(), "INDEX_NAME".to_string());

    assert_eq!(
        url_builder.create("die id".to_string()),
        "http://server/INDEX_NAME/_doc/die+id/_create?refresh=true".to_string()
    );
}

#[test]
fn test_build_url_search() {
    let url_builder = ElasticsearchUrlBuilder::new("http://server".to_string(), "INDEX_NAME".to_string());

    assert_eq!(url_builder.search(), "http://server/INDEX_NAME/_search".to_string());
}

#[test]
fn test_build_url_mget() {
    let url_builder = ElasticsearchUrlBuilder::new("http://server".to_string(), "INDEX_NAME".to_string());

    assert_eq!(url_builder.mget(), "http://server/INDEX_NAME/_doc/_mget".to_string());
}

#[test]
fn test_build_url_mapping() {
    let url_builder = ElasticsearchUrlBuilder::new("http://server".to_string(), "INDEX_NAME".to_string());

    assert_eq!(url_builder.mapping(), "http://server/INDEX_NAME/_mapping/_doc".to_string());
}

#[test]
fn test_build_url_update() {
    let url_builder = ElasticsearchUrlBuilder::new("http://server".to_string(), "INDEX_NAME".to_string());

    assert_eq!(
        url_builder.update("die id".to_string()),
        "http://server/INDEX_NAME/_doc/die+id/_update".to_string()
    );
}

#[test]
fn test_build_url_delete_by_query() {
    let url_builder = ElasticsearchUrlBuilder::new("http://server".to_string(), "INDEX_NAME".to_string());

    assert_eq!(
        url_builder.delete_by_query(),
        "http://server/INDEX_NAME/_delete_by_query".to_string()
    );
}

#[test]
fn test_build_url_index_and_delete() {
    let url_builder = ElasticsearchUrlBuilder::new("http://server".to_string(), "INDEX_NAME".to_string());

    assert_eq!(url_builder.index(), "http://server/INDEX_NAME".to_string());
    assert_eq!(
        url_builder.delete("a/b".to_string()),
        "http://server/INDEX_NAME/_doc/a%2Fb?refresh=wait_for".to_string()
    );
}

#[test]
fn a_request_with_everything_is_written_in_order() {
    let query = QueryRequest::new()
        .with_size(10)
        .with_from(20)
        .with_query(Query::term("n", Value::from(-5i64)))
        .with_sort("f", SortOrder::Desc);
    let json = query.to_json().to_text();
    assert_eq!(
        json.as_str(),
        r#"{"sort":[{"f":"desc"}],"query":{"term":{"n":-5}},"from":20,"size":10}"#
    );
    assert_eq!(QueryRequest::from_json(&parse(&json)).unwrap(), query);
}

#[test]
fn a_nested_combination_goes_round() {
    let inner = Query::bool_query(
        vec![],
        vec![Query::prefix("p", Value::from(true))],
        vec![Query::term("q", Value::from("s".to_string()))],
        vec![],
        Some(-2),
    );
    let query = Query::bool_query(vec![inner], vec![], vec![], vec![Query::term("a", Value::from(1i64))], Some(1));
    let json = query.to_json();
    assert_eq!(
        json.to_text().as_str(),
        r#"{"bool":{"must":[{"bool":{"must":[],"filter":[{"prefix":{"p":true}}],"must_not":[{"term":{"q":"s"}}],"should":[],"minimum_should_match":-2}}],"filter":[],"must_not":[],"should":[{"term":{"a":1}}],"minimum_should_match":1}}"#
    );
    assert_eq!(Query::from_json(&json).unwrap(), query);
}

#[test]
fn lists_that_are_missing_are_empty() {
    let query = Query::from_json(&parse(r#"{"bool":{"must":[{"term":{"a":"b"}}]}}"#)).unwrap();
    assert_eq!(
        query,
        Query::Bool(BoolQuery {
            must: vec![Query::term("a", Value::text("b"))],
            filter: vec![],
            must_not: vec![],
            should: vec![],
            minimum_should_match: None,
        })
    );
}

#[test]
fn what_is_no_query_is_refused() {
    for text in [
        r#"{"term":{"a":"b"},"prefix":{"a":"b"}}"#,
        r#"{"regexp":{"a":"b"}}"#,
        r#"{"term":{"a":"b","c":"d"}}"#,
        r#"{"term":{"a":null}}"#,
        r#"{"term":{"a":1.5}}"#,
        r#"{"bool":{"must":{"term":{"a":"b"}}}}"#,
        r#"{"bool":{"must":[{"term":{}}]}}"#,
        r#"{"bool":{"minimum_should_match":4294967296}}"#,
        r#"{"bool":[]}"#,
        r#"[]"#,
        r#""term""#,
    ] {
        let problem = Query::from_json(&parse(text)).unwrap_err();
        assert_eq!(problem.code, 500);
        assert_eq!(problem.details, Some("Json: not a query".to_string()));
    }
}

#[test]
fn what_is_no_request_is_refused() {
    for text in [
        r#"[]"#,
        r#"{"sort":{"a":"asc"}}"#,
        r#"{"sort":[{"a":"up"}]}"#,
        r#"{"sort":[{"a":"asc","b":"desc"}]}"#,
        r#"{"query":{"term":1}}"#,
        r#"{"from":-1}"#,
        r#"{"size":"ten"}"#,
    ] {
        let problem = QueryRequest::from_json(&parse(text)).unwrap_err();
        assert_eq!(problem.details, Some("Json: not a search request".to_string()));
    }
    assert_eq!(
        QueryRequest::from_json(&parse(r#"{"query":null,"from":null,"other":1}"#)).unwrap(),
        QueryRequest::new()
    );
    assert_eq!(QueryRequest::default(), QueryRequest::new());
}

#[test]
fn values_and_sorts_are_read_from_json() {
    assert_eq!(Value::from_json(&Json::Bool(true)).unwrap(), Value::Bool(true));
    assert_eq!(Value::from_json(&Json::UInt(7)).unwrap(), Value::Int(7));
    assert_eq!(Value::from_json(&Json::Int(-7)).unwrap(), Value::Int(-7));
    assert_eq!(Value::from_json(&Json::Str("x".to_string())).unwrap(), Value::text("x"));
    assert_eq!(
        Value::from_json(&Json::UInt(u64::MAX)).unwrap_err().details,
        Some("Json: not a value".to_string())
    );
    assert_eq!(
        Sort::from_json(&parse(r#"{"f":"asc"}"#)).unwrap(),
        Sort::new("f", SortOrder::Asc)
    );
    assert_eq!(
        Sort::from_json(&Json::Null).unwrap_err().details,
        Some("Json: not a sort".to_string())
    );
}

#[test]
fn values_are_written_as_a_reader_would() {
    assert_eq!(Value::from(true).to_string(), "true");
    assert_eq!(Value::from(false).to_string(), "false");
    assert_eq!(Value::from(-12i64).to_string(), "-12");
    assert_eq!(Value::from(i64::MIN).to_string(), "-9223372036854775808");
    assert_eq!(Value::from("a b".to_string()).to_string(), "a b");
    assert_eq!(Value::text("x").clone(), Value::String("x".to_string()));
}

fn answer(id: &str, status: u16) -> Option<BulkActionResponse> {
    Some(BulkActionResponse { id: id.to_string(), status, result: None })
}

#[test]
fn a_bulk_answer_is_sorted_into_successes_and_failures() {
    let response = BulkResponse {
        errors: true,
        items: vec![
            BulkResponseItem { index: answer("a", 201), update: None, delete: None },
            BulkResponseItem { index: None, update: answer("b", 409), delete: None },
            BulkResponseItem { index: None, update: None, delete: None },
            BulkResponseItem { index: None, update: None, delete: answer("c", 299) },
            BulkResponseItem { index: answer("d", 300), update: answer("e", 200), delete: None },
        ],
    };
    assert!(response.items[0].is_success());
    assert!(!response.items[1].is_success());
    assert!(!response.items[2].is_success());
    assert_eq!(response.items[2].action_response(), None);
    assert_eq!(response.items[4].action_response().unwrap().id, "d");
    let result = BulkResult::from_response(response);
    assert_eq!(result.successes, vec!["a".to_string(), "c".to_string()]);
    assert_eq!(result.failures, vec!["b".to_string(), "d".to_string()]);
    assert_eq!(BulkResult::default().successes.len(), 0);
}

#[test]
fn bulk_actions_are_written_as_lines() {
    let doc = Json::Object(vec![("n".to_string(), Json::UInt(1))]);
    assert_eq!(
        BulkAction::index("a\"1".to_string(), doc.clone()).to_bytes().unwrap(),
        b"{\"index\":{\"_id\":\"a\\\"1\",\"_type\":\"_doc\"}}\n{\"n\":1}\n".to_vec()
    );
    assert_eq!(
        BulkAction::upsert("2".to_string(), doc.clone()).to_bytes().unwrap(),
        b"{\"update\":{\"_id\":\"2\",\"_type\":\"_doc\"}}\n{\"doc\":{\"n\":1},\"doc_as_upsert\":true}\n".to_vec()
    );
    let delete: BulkAction<Json> = BulkAction::Delete("3".to_string());
    assert_eq!(
        delete.to_bytes().unwrap(),
        b"{\"delete\":{\"_id\":\"3\",\"_type\":\"_doc\"}}\n".to_vec()
    );
}

#[test]
fn a_bulk_request_says_that_its_body_is_lines_of_json() {
    let request = ClientRequest {
        method: Method::Post,
        url: "http://server/_bulk".to_string(),
        headers: vec![],
        body: None,
        timeout_seconds: 1,
        connect_timeout_seconds: 1,
        follow_redirects: false,
    };
    let actions = BulkActions(vec![
        BulkAction::Delete("1".to_string()),
        BulkAction::index("2".to_string(), Json::Null),
    ]);
    let request = actions.apply_body(request);
    assert_eq!(
        request.headers,
        vec![("Content-Type".to_string(), "application/x-ndjson".to_string())]
    );
    assert_eq!(
        request.body,
        Some(
            b"{\"delete\":{\"_id\":\"1\",\"_type\":\"_doc\"}}\n{\"index\":{\"_id\":\"2\",\"_type\":\"_doc\"}}\nnull\n"
                .to_vec()
        )
    );
}
