use service_commons::auth_middleware::{
    admin_scope, admin_scoped_action, customer_scoped_action, extract_organization,
    extract_scopes_from_headers, service_scoped_action, AuthContext, AuthMiddlewareFactory,
};
use service_commons::problem::Problem;
use service_commons::subject::Subject;

fn header(name: &str, value: &str) -> (String, Option<String>) {
    (name.to_string(), Some(value.to_string()))
}

#[test]
fn extract_organization_from_header_is_successful() {
    let header_value = Some("fkbr org".to_string());

    assert_eq!(extract_organization(Option::from(&header_value)), Some("fkbr org".to_string()))
}

#[test]
fn extract_scopes_from_empty_header_map() {
    let headers = Vec::new();

    assert_eq!(extract_scopes_from_headers(&headers), Vec::new())
}

#[test]
fn extract_scopes_is_successful() {
    // The fields as the header map of a request yields them.
    let headers = vec![
        header("x-auth-scopes-kuci", "fkbr"),
        header("x-auth-scopes-kuci", "sxoe"),
        header("x-auth-scopes-sxoe", "kuci"),
    ];

    let scopes = extract_scopes_from_headers(&headers);

    assert_eq!(
        scopes,
        vec![
            ("kuci".to_string(), vec!["fkbr".to_string(), "sxoe".to_string()]),
            ("sxoe".to_string(), vec!["kuci".to_string()]),
        ]
    );
}

#[test]
fn organization_is_missing_where_the_header_is_no_text() {
    assert_eq!(extract_organization(Some(&None)), None);
    assert_eq!(extract_organization(None), None);
}

#[test]
fn scopes_are_found_whatever_the_case_of_the_name() {
    let headers = vec![
        header("X-Auth-Scopes-Orders", "read"),
        header("content-type", "text/plain"),
        ("x-auth-scopes-orders".to_string(), None),
        header("x-auth-scopes-orders", "write"),
        header("x-auth-scopes-x-auth-scopes-y", "z"),
    ];
    assert_eq!(
        extract_scopes_from_headers(&headers),
        vec![
            ("orders".to_string(), vec!["read".to_string(), "write".to_string()]),
            ("y".to_string(), vec!["z".to_string()]),
        ]
    );
}

#[test]
fn the_identity_is_resolved_from_the_headers() {
    let headers = vec![
        header("X-Auth-Sub", "admin/jane"),
        header("x-auth-token", "secret"),
        header("x-auth-org", "acme"),
        header("x-auth-scopes-orders", "read"),
        header("x-auth-sub", "customer/joe"),
    ];
    let context = AuthContext::from_headers(&headers).unwrap();
    assert_eq!(*context.subject(), Subject::Admin("jane".to_string()));
    assert_eq!(context.token(), "secret");
    assert_eq!(context.organization(), Some("acme"));
    assert_eq!(context.scopes_of("orders"), Some(&vec!["read".to_string()]));
    assert_eq!(context.scopes_of("billing"), None);
    assert!(admin_scope(&context));
    assert_eq!(context.clone(), context);

    let middleware = AuthMiddlewareFactory::default().new_transform(7u8);
    assert_eq!(*middleware.service(), 7u8);
    assert_eq!(middleware.call(&headers), Some(context));
}

#[test]
fn no_identity_without_subject_or_token() {
    assert_eq!(AuthContext::from_headers(&vec![header("x-auth-sub", "admin/jane")]), None);
    assert_eq!(AuthContext::from_headers(&vec![header("x-auth-token", "secret")]), None);
    assert_eq!(
        AuthContext::from_headers(&vec![
            ("x-auth-sub".to_string(), None),
            header("x-auth-token", "secret")
        ]),
        None
    );
    let context =
        AuthContext::from_headers(&vec![header("x-auth-sub", "joe"), header("x-auth-token", "t")])
            .unwrap();
    assert_eq!(*context.subject(), Subject::Generic("joe".to_string()));
    assert_eq!(context.organization(), None);
    assert!(!admin_scope(&context));
}

fn context(subject: &str) -> AuthContext {
    AuthContext::from_headers(&vec![header("x-auth-sub", subject), header("x-auth-token", "t")])
        .unwrap()
}

#[test]
fn require_runs_the_action_only_for_callers_that_meet_the_requirements() {
    assert_eq!(context("admin/jane").require(admin_scope, || Ok(1)), Ok(1));
    assert_eq!(
        context("customer/joe").require(admin_scope, || Ok(1)),
        Err(Problem::forbidden())
    );
    assert_eq!(
        context("admin/jane").require(admin_scope, || Err::<u8, Problem>(Problem::conflict())),
        Err(Problem::conflict())
    );
}

#[test]
fn scoped_actions_are_for_one_kind_of_caller() {
    let admin = context("admin/jane");
    let customer = context("customer/joe");
    let service = context("service/billing");
    let name = |c: AuthContext| Ok::<String, Problem>(c.subject().to_string());

    assert_eq!(admin_scoped_action(Some(&admin), name), Ok("admin/jane".to_string()));
    assert_eq!(customer_scoped_action(Some(&customer), name), Ok("customer/joe".to_string()));
    assert_eq!(service_scoped_action(Some(&service), name), Ok("service/billing".to_string()));

    assert_eq!(
        admin_scoped_action(Some(&customer), name),
        Err(Problem::forbidden().with_details("Only admins are allowed"))
    );
    assert_eq!(
        customer_scoped_action(Some(&service), name),
        Err(Problem::forbidden().with_details("Only customers are allowed"))
    );
    assert_eq!(
        service_scoped_action(Some(&admin), name),
        Err(Problem::forbidden().with_details("Only services are allowed"))
    );
    assert_eq!(admin_scoped_action(None, name), Err(Problem::unauthorized()));
    assert_eq!(customer_scoped_action(None, name), Err(Problem::unauthorized()));
    assert_eq!(service_scoped_action(None, name), Err(Problem::unauthorized()));
}
