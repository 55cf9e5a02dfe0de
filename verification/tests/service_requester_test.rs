use service_commons::gatekeeper::Token;
use service_commons::json::Json;
use service_commons::service_requester::{encode_url_component, Method, ServiceRequester};

fn token(raw: &str) -> Token {
    Token {
        key_id: "key".to_string(),
        key_type: "type".to_string(),
        raw: raw.to_string(),
        crypted: "crypted".to_string(),
        expires: 4102444800,
        claims: vec![],
    }
}

#[test]
fn test_encode_urlcomponent() {
    assert_eq!(encode_url_component("abcdef").as_str(), "abcdef");
    assert_eq!(encode_url_component("abc de f").as_str(), "abc+de+f");
    assert_eq!(encode_url_component("abc de f\\/?&").as_str(), "abc+de+f%5C%2F%3F%26");
    assert_eq!(encode_url_component("äbcdü").as_str(), "%C3%A4bcd%C3%BC");
}

#[test]
fn unreserved_marks_stay_as_they_are() {
    assert_eq!(encode_url_component("a*b-c.d_e").as_str(), "a*b-c.d_e");
    assert_eq!(encode_url_component("~").as_str(), "%7E");
    assert_eq!(encode_url_component("").as_str(), "");
}

#[test]
fn a_request_presents_the_token_and_follows_no_redirect() {
    let requester = ServiceRequester::with_service_auth("billing").unwrap();
    let request = requester.get("http://inventory/items", &token("abc.def"));
    assert_eq!(request.method, Method::Get);
    assert_eq!(request.url, "http://inventory/items");
    assert_eq!(
        request.headers,
        vec![("Authorization".to_string(), "Bearer abc.def".to_string())]
    );
    assert_eq!(request.body, None);
    assert_eq!(request.timeout_seconds, 120);
    assert_eq!(request.connect_timeout_seconds, 120);
    assert!(!request.follow_redirects);
    assert_eq!(requester.name(), "billing");
}

#[test]
fn the_timeout_is_the_configured_one() {
    let requester = ServiceRequester::with_service_auth_with_timeout("billing", 7).unwrap();
    let request = requester.delete("http://inventory/items/1", &token("t"));
    assert_eq!(request.method, Method::Delete);
    assert_eq!(request.timeout_seconds, 7);
    assert_eq!(request.connect_timeout_seconds, 7);
}

#[test]
fn a_json_payload_is_sent_as_compact_text() {
    let requester = ServiceRequester::with_service_auth("billing").unwrap();
    let payload = Json::Object(vec![
        ("name".to_string(), Json::Str("a \"b\"".to_string())),
        ("count".to_string(), Json::UInt(3)),
    ]);
    for (method, request) in [
        (Method::Post, requester.post("http://x/y", payload.clone(), &token("t"))),
        (Method::Put, requester.put("http://x/y", payload.clone(), &token("t"))),
        (Method::Patch, requester.patch("http://x/y", payload.clone(), &token("t"))),
    ] {
        assert_eq!(request.method, method);
        assert_eq!(
            request.headers,
            vec![
                ("Authorization".to_string(), "Bearer t".to_string()),
                ("Content-Type".to_string(), "application/json".to_string()),
            ]
        );
        assert_eq!(
            request.body,
            Some(b"{\"name\":\"a \\\"b\\\"\",\"count\":3}".to_vec())
        );
    }
}
