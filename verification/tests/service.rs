use newsletter_api::form::{encode_form, parse_form, ValidationError};
use newsletter_api::routes::{health_check, subscribe, subscribe_completion, RequestStep};
use newsletter_api::startup::{run, DbHandle, DbMode, Listener, Method};

fn test_server() -> newsletter_api::startup::ServerHandle {
    let listener = Listener { host: String::from("127.0.0.1"), port: 8000 };
    let db = DbHandle { mode: DbMode::Pooled, database_name: String::from("newsletter") };
    run(listener, db).expect("composition is owed success")
}

#[test]
fn health_check_works() {
    let response = health_check();
    assert_eq!(response.status, 200);
    assert_eq!(response.body.len(), 0);
}

#[test]
fn health_check_via_dispatch_ignores_datastore() {
    let server = test_server();
    match server.dispatch(Method::Get, "/health_check", "") {
        RequestStep::Respond(r) => {
            assert_eq!(r.status, 200);
            assert_eq!(r.body.len(), 0);
        }
        RequestStep::Insert(_) => panic!("the probe never writes"),
    }
}

#[test]
fn subscribe_returns_200_response_for_valid_data() {
    let body = "name=john%20wayne&email=big_guns%40gmail.com";

    let form = parse_form(body).expect("valid body must parse");
    assert_eq!(form.name, "john wayne");
    assert_eq!(form.email, "big_guns@gmail.com");

    match subscribe(body) {
        RequestStep::Insert(row) => {
            assert_eq!(row.name, "john wayne");
            assert_eq!(row.email, "big_guns@gmail.com");
        }
        RequestStep::Respond(_) => panic!("valid body must ask for an insert"),
    }

    let response = subscribe_completion(true);
    assert_eq!(response.status, 200);
    assert_eq!(response.body.len(), 0);
}

#[test]
fn subscribe_returns_400_response_when_data_is_missing() {
    let test_cases = vec![
        ("name=john%20wayne", "email field missing"),
        ("email=big_guns%40gmail.com", "name field missing"),
        ("", "both name and email fields missing"),
    ];

    for (test_case, error_message) in test_cases {
        match subscribe(test_case) {
            RequestStep::Respond(r) => {
                assert_eq!(
                    400, r.status,
                    "API did not fail with 400 response code when payload had {}",
                    error_message
                );
                assert_eq!(r.body.len(), 0);
            }
            RequestStep::Insert(_) => {
                panic!("no row may be asked for when payload had {}", error_message)
            }
        }
    }
}

#[test]
fn subscribe_rejects_each_missing_field_with_its_own_error() {
    assert_eq!(parse_form("name=john%20wayne"), Err(ValidationError::MissingEmail));
    assert_eq!(parse_form("email=big_guns%40gmail.com"), Err(ValidationError::MissingName));
    assert_eq!(parse_form(""), Err(ValidationError::MissingBoth));
    assert_eq!(parse_form("name=&email="), Err(ValidationError::MissingBoth));
    assert_eq!(parse_form("name=&email=a%40b.c"), Err(ValidationError::MissingName));
    assert_eq!(parse_form("name=jo&email="), Err(ValidationError::MissingEmail));
}

#[test]
fn subscribe_rejects_malformed_escapes() {
    assert_eq!(parse_form("name=jo%2"), Err(ValidationError::MalformedBody));
    assert_eq!(parse_form("name=jo%zz&email=a%40b.c"), Err(ValidationError::MalformedBody));
    assert_eq!(parse_form("name=jo&email=%"), Err(ValidationError::MalformedBody));
}

#[test]
fn form_decoding_handles_plus_and_later_occurrences() {
    let form = parse_form("name=john+wayne&email=a%40b.c").expect("plus decodes to space");
    assert_eq!(form.name, "john wayne");

    let form = parse_form("name=first&name=second&email=a%40b.c").expect("last value wins");
    assert_eq!(form.name, "second");

    let form = parse_form("spam=1&name=jo&email=a%40b.c").expect("unknown keys are ignored");
    assert_eq!(form.name, "jo");
    assert_eq!(form.email, "a@b.c");
}

#[test]
fn encoded_form_parses_back_to_the_same_values() {
    let body = encode_form("john wayne", "big_guns@gmail.com");
    assert_eq!(body, "name=john%20wayne&email=big_guns%40gmail.com");

    let form = parse_form(&body).expect("an encoded form must parse");
    assert_eq!(form.name, "john wayne");
    assert_eq!(form.email, "big_guns@gmail.com");
}

#[test]
fn failed_insert_is_answered_500() {
    let response = subscribe_completion(false);
    assert_eq!(response.status, 500);
    assert_eq!(response.body.len(), 0);
}

#[test]
fn unknown_routes_are_answered_404() {
    let server = test_server();
    for (method, path) in [
        (Method::Get, "/subscriptions"),
        (Method::Post, "/health_check"),
        (Method::Get, "/nowhere"),
    ] {
        match server.dispatch(method, path, "") {
            RequestStep::Respond(r) => assert_eq!(r.status, 404),
            RequestStep::Insert(_) => panic!("unknown routes never write"),
        }
    }
}

#[test]
fn dispatch_routes_submissions_to_the_subscription_handler() {
    let server = test_server();
    match server.dispatch(Method::Post, "/subscriptions", "name=jo&email=a%40b.c") {
        RequestStep::Insert(row) => {
            assert_eq!(row.name, "jo");
            assert_eq!(row.email, "a@b.c");
        }
        RequestStep::Respond(_) => panic!("a valid submission must ask for an insert"),
    }
}

#[test]
fn composition_does_not_start_the_server() {
    let mut server = test_server();
    assert!(!server.started);
    assert_eq!(server.listener.port, 8000);
    server.start();
    assert!(server.started);
}
