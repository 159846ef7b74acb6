use acme_dns_client::client::{
    health_response, register_response, update_response, Method, Operation, API_BASE_VAR,
};
use acme_dns_client::json::{registration_body, update_body};
use acme_dns_client::{AcmeDnsClient, Credentials, Error};

const BASE: &str = "http://127.0.0.1:8053";

fn creds() -> Credentials {
    Credentials {
        username: "user-uuid".into(),
        password: "pw".into(),
        subdomain: "8e57".into(),
        fulldomain: "8e57.auth.acme-dns.io".into(),
        allowfrom: vec![],
    }
}

fn unexpected(err: Error) -> (u16, String) {
    let Error::UnexpectedStatus { status, body } = err else {
        panic!("expected UnexpectedStatus, got {err:?}");
    };
    (status, body)
}

fn pairs(headers: &[(String, String)]) -> Vec<(&str, &str)> {
    headers.iter().map(|(k, v)| (k.as_str(), v.as_str())).collect()
}

#[test]
fn register_parses_response() {
    let client = AcmeDnsClient::new(BASE).unwrap();
    let req = client.register_request(None).unwrap();
    assert_eq!(req.method, Method::Post);
    assert_eq!(req.url.as_str(), "http://127.0.0.1:8053/register");
    assert_eq!(req.body.as_deref(), Some("{}"));

    let text = r#"{"allowfrom":["192.168.100.1/24"],"fulldomain":"8e57.auth.acme-dns.io","password":"pw","subdomain":"8e57","username":"user-uuid"}"#;
    let body = register_response(201, text.to_string()).unwrap();
    assert_eq!(body, text);
    let value: serde_json::Value = serde_json::from_str(&body).unwrap();
    assert_eq!(value["username"], "user-uuid");
    assert_eq!(value["password"], "pw");
    assert_eq!(value["subdomain"], "8e57");
    assert_eq!(value["fulldomain"], "8e57.auth.acme-dns.io");
    assert_eq!(
        value["allowfrom"],
        serde_json::Value::Array(vec![serde_json::Value::from("192.168.100.1/24")])
    );
}

#[test]
fn register_unexpected_status_errors() {
    let err = register_response(400, "bad request".to_string()).unwrap_err();
    let (status, body) = unexpected(err);
    assert_eq!(status, 400);
    assert_eq!(body, "bad request");
}

#[test]
fn register_ok_status_is_not_success() {
    let err = register_response(200, "{}".to_string()).unwrap_err();
    assert_eq!(unexpected(err), (200, "{}".to_string()));
}

#[test]
fn register_invalid_json_errors() {
    let err = register_response(201, "this is not json".to_string()).unwrap_err();
    let Error::Json(_) = err else {
        panic!("expected Error::Json, got {err:?}");
    };
}

#[test]
fn register_request_with_allow_list() {
    let client = AcmeDnsClient::new(BASE).unwrap();
    let allow = vec!["192.168.100.1/24".to_string(), "10.0.0.0/8".to_string()];
    let req = client.register_request(Some(&allow)).unwrap();
    assert_eq!(
        req.body.as_deref(),
        Some(r#"{"allowfrom":["192.168.100.1/24","10.0.0.0/8"]}"#)
    );
    assert_eq!(pairs(&req.headers), vec![("Content-Type", "application/json")]);
}

#[test]
fn registration_body_empty_list_is_kept() {
    assert_eq!(registration_body(Some(&[])), r#"{"allowfrom":[]}"#);
    assert_eq!(registration_body(None), "{}");
}

#[test]
fn registration_body_escapes_strings() {
    let allow = vec!["a\"b\\c\n".to_string()];
    assert_eq!(registration_body(Some(&allow)), r#"{"allowfrom":["a\"b\\c\n"]}"#);
}

#[test]
fn update_sends_headers_and_body() {
    let client = AcmeDnsClient::new(BASE).unwrap();
    let creds = creds();
    let req = client.update_request(&creds, "token123").unwrap();
    assert_eq!(req.method, Method::Post);
    assert_eq!(req.url.as_str(), "http://127.0.0.1:8053/update");
    assert_eq!(
        pairs(&req.headers),
        vec![
            ("X-Api-User", "user-uuid"),
            ("X-Api-Key", "pw"),
            ("Content-Type", "application/json"),
        ]
    );
    assert_eq!(req.body.as_deref(), Some(r#"{"subdomain":"8e57","txt":"token123"}"#));
    update_response(200, "OK".to_string()).unwrap();
}

#[test]
fn update_on_base_that_cannot_join_errors() {
    let client = AcmeDnsClient::new("mailto:ops@example.org").unwrap();
    let err = client.update_request(&creds(), "token123").unwrap_err();
    let Error::Url(_) = err else {
        panic!("expected Error::Url, got {err:?}");
    };
}

#[test]
fn requests_join_onto_base_path() {
    let client = AcmeDnsClient::new("https://auth.example.org/api/").unwrap();
    assert_eq!(client.base_url(), "https://auth.example.org/api/");
    let req = client.health_request().unwrap();
    assert_eq!(req.url, "https://auth.example.org/api/health");
}

#[test]
fn registration_body_escapes_control_characters() {
    let allow = vec!["\u{1}x\u{8}\u{1f}\u{7f}é".to_string()];
    assert_eq!(
        registration_body(Some(&allow)),
        "{\"allowfrom\":[\"\\u0001x\\b\\u001f\u{7f}é\"]}"
    );
}

#[test]
fn update_body_escapes_strings() {
    assert_eq!(update_body("s\"1", "t\t"), r#"{"subdomain":"s\"1","txt":"t\t"}"#);
}

#[test]
fn update_unexpected_status_errors() {
    let err = update_response(400, "bad_txt".to_string()).unwrap_err();
    let (status, body) = unexpected(err);
    assert_eq!(status, 400);
    assert_eq!(body, "bad_txt");
}

#[test]
fn update_created_status_is_not_success() {
    let err = update_response(201, String::new()).unwrap_err();
    assert_eq!(unexpected(err), (201, String::new()));
}

#[test]
fn health_ok() {
    let client = AcmeDnsClient::new(BASE).unwrap();
    let req = client.health_request().unwrap();
    assert_eq!(req.method, Method::Get);
    assert_eq!(req.url.as_str(), "http://127.0.0.1:8053/health");
    assert!(req.headers.is_empty());
    assert!(req.body.is_none());
    health_response(200, Some("OK".to_string())).unwrap();
}

#[test]
fn health_unexpected_status() {
    let err = health_response(500, Some("boom".to_string())).unwrap_err();
    let (status, body) = unexpected(err);
    assert_eq!(status, 500);
    assert_eq!(body, "boom");
}

#[test]
fn health_unreadable_body_is_empty() {
    let err = health_response(503, None).unwrap_err();
    assert_eq!(unexpected(err), (503, String::new()));
}

#[test]
fn health_repeated_checks_agree() {
    let a = health_response(500, Some("boom".to_string())).unwrap_err();
    let b = health_response(500, Some("boom".to_string())).unwrap_err();
    assert_eq!(unexpected(a), unexpected(b));
    assert!(health_response(200, None).is_ok());
    assert!(health_response(200, Some("other".to_string())).is_ok());
}

#[test]
fn new_with_invalid_url_errors() {
    let err = AcmeDnsClient::new("not a url").unwrap_err();
    let Error::Url(_) = err else {
        panic!("expected Error::Url, got {err:?}");
    };
}

#[test]
fn new_accepts_valid_urls() {
    assert!(AcmeDnsClient::new("https://auth.example.org/").is_ok());
    assert!(AcmeDnsClient::new("http://localhost:8080").is_ok());
}

#[test]
fn client_from_env_works() {
    let client = AcmeDnsClient::from_env_value(Some("https://example.invalid".to_string()));
    assert!(client.is_ok());
}

#[test]
fn client_from_env_missing_env_errors() {
    let err = AcmeDnsClient::from_env_value(None).unwrap_err();
    let Error::MissingEnv(name) = err else {
        panic!("expected MissingEnv, got {err:?}");
    };
    assert_eq!(name, "ACME_DNS_API_BASE");
    assert_eq!(API_BASE_VAR, "ACME_DNS_API_BASE");
}

#[test]
fn operations_table() {
    assert_eq!(Operation::Register.path(), "register");
    assert_eq!(Operation::Update.path(), "update");
    assert_eq!(Operation::Health.path(), "health");
    assert_eq!(Operation::Register.expected_status(), 201);
    assert_eq!(Operation::Update.expected_status(), 200);
    assert_eq!(Operation::Health.expected_status(), 200);
    assert_eq!(Operation::Health.method(), Method::Get);
    assert_eq!(Operation::Update.method(), Method::Post);
}
