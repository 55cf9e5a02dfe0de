use service_commons::gatekeeper::{
    token_response, Token, TokenAction, TokenCreator, GRACE_SECONDS,
};
use service_commons::json::Json;
use service_commons::problem::{Failure, Problem};
use service_commons::service_requester::Method;
use service_commons::ws_try::{Decoded, HttpStatus, Received};

fn token(raw: &str, expires: u64) -> Token {
    Token {
        key_id: "key-1".to_string(),
        key_type: "RSA".to_string(),
        raw: raw.to_string(),
        crypted: "crypted".to_string(),
        expires,
        claims: vec![("sub".to_string(), Json::Str("service/billing".to_string()))],
    }
}

const NOW: u64 = 1_700_000_000;

#[test]
fn the_payload_names_the_service_and_its_scopes() {
    let creator = TokenCreator::for_service(
        "billing",
        &[("orders", &["read", "write"]), ("users", &[]), ("orders", &["admin"])],
    );
    assert_eq!(
        creator.claims().to_text(),
        r#"{"sub":"service/billing","scopes":{"orders":["admin"],"users":[]}}"#
    );
    assert_eq!(
        TokenCreator::for_service("x", &[]).claims().to_text(),
        r#"{"sub":"service/x","scopes":{}}"#
    );
}

#[test]
fn concurrent_callers_share_one_fetch() {
    let mut creator = TokenCreator::for_service("billing", &[]);
    let mut fetches = 0;
    let mut waits = 0;
    for caller in 0..10u64 {
        match creator.handle_at(caller, Ok(NOW + caller)) {
            TokenAction::Fetch => fetches += 1,
            TokenAction::Wait => waits += 1,
            TokenAction::Reply(_) => panic!("nothing is cached"),
        }
    }
    assert_eq!(fetches, 1);
    assert_eq!(waits, 9);

    let fetched = token("shared", NOW + 3600);
    let answers = creator.fetched(Ok(fetched.clone()));
    assert_eq!(answers.len(), 10);
    for (i, (caller, outcome)) in answers.into_iter().enumerate() {
        assert_eq!(caller, i as u64);
        assert_eq!(outcome, Ok(fetched.clone()));
    }
    assert_eq!(creator.handle_at(99, Ok(NOW)), TokenAction::Reply(Ok(fetched)));
    assert_eq!(creator.fetched(Err(Problem::conflict())).len(), 0);
}

#[test]
fn the_first_caller_is_told_to_fetch() {
    let mut creator = TokenCreator::for_service("billing", &[]);
    assert_eq!(creator.handle_at(1, Ok(NOW)), TokenAction::Fetch);
    assert_eq!(creator.handle_at(2, Ok(NOW)), TokenAction::Wait);
}

#[test]
fn a_token_inside_the_grace_window_is_fetched_again() {
    let mut creator = TokenCreator::for_service("billing", &[]);
    assert_eq!(creator.handle_at(1, Ok(NOW)), TokenAction::Fetch);
    creator.fetched(Ok(token("short", NOW + 30)));
    assert_eq!(creator.handle_at(2, Ok(NOW)), TokenAction::Fetch);
}

#[test]
fn a_token_far_from_expiry_is_reused() {
    let mut creator = TokenCreator::for_service("billing", &[]);
    assert_eq!(creator.handle_at(1, Ok(NOW)), TokenAction::Fetch);
    let long = token("long", NOW + 3600);
    creator.fetched(Ok(long.clone()));
    for caller in 2..6 {
        assert_eq!(creator.handle_at(caller, Ok(NOW)), TokenAction::Reply(Ok(long.clone())));
    }
}

#[test]
fn the_grace_window_is_sixty_seconds() {
    assert_eq!(GRACE_SECONDS, 60);
    let t = token("t", NOW + 60);
    assert!(!t.is_usable(NOW));
    assert!(!t.is_usable(NOW + 1));
    assert!(t.is_usable(NOW - 1));
    assert!(!token("t", u64::MAX).is_usable(u64::MAX - 59));
    assert!(!token("t", u64::MAX).is_usable(u64::MAX - 60));
    assert!(token("t", u64::MAX).is_usable(u64::MAX - 61));
    assert!(!token("t", 0).is_usable(0));
}

#[test]
fn a_failed_fetch_is_not_cached() {
    let mut creator = TokenCreator::for_service("billing", &[]);
    assert_eq!(creator.handle_at(1, Ok(NOW)), TokenAction::Fetch);
    assert_eq!(creator.handle_at(2, Ok(NOW)), TokenAction::Wait);
    let failure = Problem::internal_server_error().with_details("Request timeout");
    let answers = creator.fetched(Err(failure.clone()));
    assert_eq!(answers, vec![(1, Err(failure.clone())), (2, Err(failure))]);
    assert_eq!(creator.handle_at(3, Ok(NOW)), TokenAction::Fetch);
}

#[test]
fn a_failed_fetch_keeps_the_token_that_was_cached() {
    let mut creator = TokenCreator::for_service("billing", &[]);
    creator.handle_at(1, Ok(NOW));
    let cached = token("cached", NOW + 100);
    creator.fetched(Ok(cached.clone()));
    assert_eq!(creator.handle_at(2, Ok(NOW + 50)), TokenAction::Fetch);
    creator.fetched(Err(Problem::conflict()));
    assert_eq!(creator.handle_at(3, Ok(NOW)), TokenAction::Reply(Ok(cached)));
}

#[test]
fn a_clock_before_the_epoch_is_an_internal_error() {
    let mut creator = TokenCreator::for_service("billing", &[]);
    let action = creator.handle_at(1, Err("second time provided was later than self".to_string()));
    assert_eq!(
        action,
        TokenAction::Reply(Err(Problem::internal_server_error()
            .with_details("SystemTime error: second time provided was later than self")))
    );
    assert_eq!(creator.handle_at(2, Ok(NOW)), TokenAction::Fetch);
}

#[test]
fn the_system_clock_is_read() {
    let mut creator = TokenCreator::for_service("billing", &[]);
    assert_eq!(creator.handle(1), TokenAction::Fetch);
    creator.fetched(Ok(token("expired long ago", 1_000_000_000)));
    assert_eq!(creator.handle(2), TokenAction::Fetch);
    let lasting = token("lasting", u64::MAX);
    creator.fetched(Ok(lasting.clone()));
    assert_eq!(creator.handle(3), TokenAction::Reply(Ok(lasting)));
}

#[test]
fn a_token_is_read_from_its_wire_form() {
    let wire = Json::Object(vec![
        ("keyId".to_string(), Json::Str("key-1".to_string())),
        ("keyType".to_string(), Json::Str("RSA".to_string())),
        ("raw".to_string(), Json::Str("abc".to_string())),
        ("crypted".to_string(), Json::Str("crypted".to_string())),
        ("expires".to_string(), Json::UInt(NOW)),
        (
            "claims".to_string(),
            Json::Object(vec![("sub".to_string(), Json::Str("service/billing".to_string()))]),
        ),
    ]);
    let read = Token::from_json(&wire).unwrap();
    assert_eq!(read, token("abc", NOW));
    assert_eq!(read.to_json(), wire);
    assert_eq!(
        read.to_json().to_text(),
        r#"{"keyId":"key-1","keyType":"RSA","raw":"abc","crypted":"crypted","expires":1700000000,"claims":{"sub":"service/billing"}}"#
    );
    assert_eq!(read.clone(), read);
}

#[test]
fn what_is_no_token_is_refused() {
    let complete = token("abc", NOW).to_json();
    let members = match complete {
        Json::Object(members) => members,
        _ => panic!("a token is an object"),
    };
    for missing in 0..members.len() {
        let mut fewer = members.clone();
        fewer.remove(missing);
        assert_eq!(
            Token::from_json(&Json::Object(fewer)),
            Err(Problem::internal_server_error().with_details("Json: not a token"))
        );
    }
    let mut wrong = members.clone();
    wrong[4].1 = Json::Str("tomorrow".to_string());
    assert!(Token::from_json(&Json::Object(wrong)).is_err());
    let mut wrong = members.clone();
    wrong[5].1 = Json::Array(vec![]);
    assert!(Token::from_json(&Json::Object(wrong)).is_err());
    assert!(Token::from_json(&Json::Null).is_err());
}

#[test]
fn the_request_for_a_token_is_posted_as_json() {
    let creator = TokenCreator::for_service("billing", &[("orders", &["read"])]);
    let request = creator.request("http://localhost:12345");
    assert_eq!(request.method, Method::Post);
    assert_eq!(request.url, "http://localhost:12345/v1/tokens");
    assert_eq!(
        request.headers,
        vec![("Content-Type".to_string(), "application/json".to_string())]
    );
    assert_eq!(
        request.body,
        Some(br#"{"sub":"service/billing","scopes":{"orders":["read"]}}"#.to_vec())
    );
    assert_eq!(request.timeout_seconds, 30);
    assert_eq!(request.connect_timeout_seconds, 30);
    assert!(!request.follow_redirects);
}

#[test]
fn every_failure_to_fetch_a_token_is_an_internal_error() {
    let answered = |status: u16, body: Result<Vec<u8>, Failure>| {
        Ok(Received { status: HttpStatus::from_u16(status).unwrap(), body })
    };
    assert_eq!(
        token_response(answered(200, Ok(b"{}".to_vec()))),
        Ok(Decoded::Json(b"{}".to_vec()))
    );
    assert_eq!(
        token_response(answered(503, Ok(b"busy".to_vec()))),
        Err(Problem::internal_server_error()
            .with_details("Token request failed: 503 Service Unavailable"))
    );
    assert_eq!(
        token_response(answered(302, Ok(vec![]))),
        Err(Problem::internal_server_error().with_details("Token request failed: 302 Found"))
    );
    assert_eq!(
        token_response(Err(Failure::Connect("refused".to_string()))),
        Err(Problem::internal_server_error().with_details("HTTP connection error: refused"))
    );
    assert_eq!(
        token_response(answered(200, Err(Failure::Payload("reset".to_string())))),
        Err(Problem::internal_server_error().with_details("Http payload: reset"))
    );
}
