use service_commons::business_result::BusinessResultExt;
use service_commons::json::Json;
use service_commons::problem::{Failure, Problem};

#[test]
fn with_details_chains_with_a_separator() {
    let problem = Problem::not_found().with_details("first").with_details("second");
    assert_eq!(problem.details, Some("first: second".to_string()));
    assert_eq!(problem.code, 404);
    assert_eq!(problem.problem_type, "https://httpstatus.es/404");
    assert_eq!(problem.reason, "Not found");
}

#[test]
fn with_details_keeps_every_earlier_detail() {
    let problem = Problem::conflict().with_details("a").with_details("").with_details("c");
    assert_eq!(problem.details, Some("a: : c".to_string()));
}

#[test]
fn the_named_problems_have_their_status() {
    let expected = [
        (Problem::bad_request(), 400, "Bad request"),
        (Problem::unauthorized(), 401, "Unauthorized"),
        (Problem::forbidden(), 403, "Forbidden"),
        (Problem::not_found(), 404, "Not found"),
        (Problem::method_not_allowed(), 405, "Method not allowed"),
        (Problem::conflict(), 409, "Conflict"),
        (Problem::failed_dependency(), 424, "Failed dependency"),
        (Problem::internal_server_error(), 500, "Internal server error"),
    ];
    for (problem, code, reason) in expected {
        assert_eq!(problem.code, code);
        assert_eq!(problem.reason, reason);
        assert_eq!(problem.problem_type, format!("https://httpstatus.es/{}", code));
        assert_eq!(problem.details, None);
    }
}

#[test]
fn the_type_is_derived_from_the_code() {
    assert_eq!(Problem::for_status(100, "x").problem_type, "https://httpstatus.es/100");
    assert_eq!(Problem::for_status(999, "x").problem_type, "https://httpstatus.es/999");
    assert_eq!(Problem::for_status(418, "x").code, 418);
}

#[test]
fn a_code_has_three_digits() {
    assert_eq!(Problem::try_for_status(99, "x"), None);
    assert_eq!(Problem::try_for_status(1000, "x"), None);
    assert_eq!(Problem::try_for_status(0, "x"), None);
    assert_eq!(Problem::try_for_status(65535, "x"), None);
    assert_eq!(Problem::try_for_status(100, "x"), Some(Problem::for_status(100, "x")));
    assert_eq!(Problem::try_for_status(999, "x"), Some(Problem::for_status(999, "x")));
}

#[test]
fn a_problem_is_written_in_one_line() {
    assert_eq!(
        Problem::not_found().to_string(),
        "Problem(code=404, reason=Not found)"
    );
    assert_eq!(
        Problem::not_found().with_details("no such item").to_string(),
        "Problem(code=404, reason=Not found, details=no such item)"
    );
}

#[test]
fn the_wire_form_has_four_members() {
    assert_eq!(
        Problem::forbidden().with_details("no").to_json().to_text(),
        r#"{"code":403,"type":"https://httpstatus.es/403","reason":"Forbidden","details":"no"}"#
    );
    assert_eq!(
        Problem::forbidden().to_json().to_text(),
        r#"{"code":403,"type":"https://httpstatus.es/403","reason":"Forbidden","details":null}"#
    );
}

#[test]
fn the_wire_form_goes_round_with_and_without_details() {
    for problem in [
        Problem::not_found(),
        Problem::not_found().with_details("first").with_details("second"),
        Problem::for_status(599, "odd \"reason\""),
    ] {
        assert_eq!(Problem::from_json(&problem.to_json()), Ok(problem.clone()));
    }
}

#[test]
fn a_wire_form_without_details_is_read() {
    let wire = Json::Object(vec![
        ("reason".to_string(), Json::Str("Gone".to_string())),
        ("type".to_string(), Json::Str("https://httpstatus.es/410".to_string())),
        ("extra".to_string(), Json::Bool(true)),
        ("code".to_string(), Json::Int(410)),
    ]);
    let problem = Problem::from_json(&wire).unwrap();
    assert_eq!(problem, Problem::for_status(410, "Gone"));
}

#[test]
fn what_is_no_problem_record_is_refused() {
    let member = |name: &str, value: Json| (name.to_string(), value);
    let text = |s: &str| Json::Str(s.to_string());
    let documents = vec![
        Json::Null,
        Json::Array(vec![]),
        Json::Object(vec![
            member("code", Json::UInt(404)),
            member("type", text("https://httpstatus.es/404")),
        ]),
        Json::Object(vec![
            member("code", Json::UInt(65536)),
            member("type", text("https://httpstatus.es/65536")),
            member("reason", text("r")),
        ]),
        Json::Object(vec![
            member("code", Json::UInt(99)),
            member("type", text("https://httpstatus.es/99")),
            member("reason", text("r")),
        ]),
        Json::Object(vec![
            member("code", Json::UInt(1000)),
            member("type", text("https://httpstatus.es/1000")),
            member("reason", text("r")),
        ]),
        Json::Object(vec![
            member("code", Json::Int(-1)),
            member("type", text("https://httpstatus.es/-1")),
            member("reason", text("r")),
        ]),
        Json::Object(vec![
            member("code", text("404")),
            member("type", text("https://httpstatus.es/404")),
            member("reason", text("r")),
        ]),
        Json::Object(vec![
            member("code", Json::UInt(404)),
            member("type", text("https://httpstatus.es/405")),
            member("reason", text("r")),
        ]),
        Json::Object(vec![
            member("code", Json::UInt(404)),
            member("type", text("https://httpstatus.es/404")),
            member("reason", text("r")),
            member("details", Json::UInt(1)),
        ]),
    ];
    for document in documents {
        assert_eq!(
            Problem::from_json(&document),
            Err(Problem::internal_server_error().with_details("Json: not a problem record"))
        );
    }
}

#[test]
fn every_failure_is_an_internal_error_with_its_kind_in_the_details() {
    let text = || "oops".to_string();
    let expected = vec![
        (Failure::EnvironmentMissing, "Environment variable missing"),
        (Failure::EnvironmentNotUnicode, "Environment variable not unicode"),
        (Failure::Io(text()), "IO: oops"),
        (Failure::Mailbox(text()), "Actix mailbox error: oops"),
        (Failure::SystemTime(text()), "SystemTime error: oops"),
        (Failure::Timeout, "Request timeout"),
        (Failure::Connect(text()), "HTTP connection error: oops"),
        (Failure::InvalidResponse(text()), "Invalid HTTP response: oops"),
        (Failure::Send(text()), "IO: oops"),
        (Failure::HttpClient(text()), "HTTP client error: oops"),
        (Failure::Payload(text()), "Http payload: oops"),
        (Failure::JsonPayload(text()), "Http json payload: oops"),
        (Failure::Json(text()), "Json: oops"),
        (Failure::Request(text()), "Request result: oops"),
        (Failure::TokenRefused(text()), "Token request failed: oops"),
    ];
    for (failure, details) in expected {
        let problem = Problem::from_failure(failure);
        assert_eq!(problem.code, 500);
        assert_eq!(problem.problem_type, "https://httpstatus.es/500");
        assert_eq!(problem.reason, "Internal server error");
        assert_eq!(problem.details, Some(details.to_string()));
    }
}

#[test]
fn chain_problem_keeps_a_value_and_replaces_a_failure() {
    let fine: Result<u8, String> = Ok(3);
    assert_eq!(fine.chain_problem("reading"), Ok(3));
    let failed: Result<u8, String> = Err("lost".to_string());
    assert_eq!(
        failed.chain_problem("reading"),
        Err(Problem::internal_server_error().with_details("reading"))
    );
}

#[test]
fn problems_are_equal_field_by_field() {
    assert_eq!(Problem::not_found(), Problem::not_found());
    assert_ne!(Problem::not_found(), Problem::conflict());
    assert_ne!(Problem::not_found(), Problem::not_found().with_details(""));
    assert_ne!(Problem::for_status(404, "a"), Problem::for_status(404, "b"));
}

fn document(value: serde_json::Value) -> Json {
    match value {
        serde_json::Value::Null => Json::Null,
        serde_json::Value::Bool(b) => Json::Bool(b),
        serde_json::Value::Number(n) => match (n.as_u64(), n.as_i64()) {
            (Some(u), _) => Json::UInt(u),
            (_, Some(i)) => Json::Int(i),
            _ => Json::Decimal(n.to_string()),
        },
        serde_json::Value::String(s) => Json::Str(s),
        serde_json::Value::Array(items) => Json::Array(items.into_iter().map(document).collect()),
        serde_json::Value::Object(members) => {
            Json::Object(members.into_iter().map(|(k, v)| (k, document(v))).collect())
        }
    }
}

#[test]
fn the_wire_text_goes_round_through_a_parser() {
    for problem in [
        Problem::not_found(),
        Problem::internal_server_error().with_details("tab\there \"quoted\" \\ \u{1} ü"),
    ] {
        let text = problem.to_json().to_text();
        let parsed: serde_json::Value = serde_json::from_str(&text).unwrap();
        assert_eq!(parsed["code"], serde_json::Value::from(problem.code));
        assert_eq!(Problem::from_json(&document(parsed)), Ok(problem));
    }
}
