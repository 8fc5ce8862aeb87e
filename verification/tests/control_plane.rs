use piccolo::config::Config;
use piccolo::control_plane::{
    auth_request, authenticate, catalogs_request, fetch_catalogs, frame_auth_body,
    status_is_success, Method, Reply,
};
use piccolo::model::{CatalogSpec, CatalogState, Credential, StagedProperties};

fn credential(token: &str) -> Credential {
    Credential {
        access_token: token.to_string(),
        token_type: "Bearer".to_string(),
        user_name: "admin".to_string(),
        roles: Some(vec!["admin".to_string()]),
    }
}

fn bare_catalog(name: &str) -> CatalogState {
    CatalogState {
        id: name.to_string(),
        spec: CatalogSpec {
            site_id: "site".to_string(),
            name: name.to_string(),
            catalog_type: "staged".to_string(),
            properties: StagedProperties { components: None, removed_components: None },
            object_ref: None,
            generation: "1".to_string(),
        },
        status: None,
    }
}

#[test]
fn success_is_two_hundred_to_two_ninety_nine() {
    assert!(!status_is_success(0));
    assert!(!status_is_success(199));
    assert!(status_is_success(200));
    assert!(status_is_success(204));
    assert!(status_is_success(299));
    assert!(!status_is_success(300));
    assert!(!status_is_success(401));
    assert!(!status_is_success(500));
    assert!(!status_is_success(u16::MAX));
}

#[test]
fn reply_holds_the_body_of_a_successful_answer() {
    assert_eq!(Reply::Answered { status: 200, body: Some(7u8) }.accept(), Some(7));
    assert_eq!(Reply::Answered { status: 299, body: Some(7u8) }.accept(), Some(7));
    assert_eq!(Reply::Answered { status: 404, body: Some(7u8) }.accept(), None);
    assert_eq!(Reply::Answered { status: 200, body: None::<u8> }.accept(), None);
    assert_eq!(Reply::<u8>::Failed.accept(), None);
}

#[test]
fn authentication_grants_the_credential_of_a_successful_answer() {
    let granted = authenticate(Reply::Answered { status: 200, body: Some(credential("tok")) });
    let granted = granted.expect("a credential");
    assert_eq!(granted.access_token, "tok");
    assert_eq!(granted.token_type, "Bearer");
    assert_eq!(granted.user_name, "admin");
    assert_eq!(granted.roles, Some(vec!["admin".to_string()]));
}

#[test]
fn authentication_fails_silently() {
    assert!(authenticate(Reply::Failed).is_none());
    assert!(authenticate(Reply::Answered { status: 401, body: Some(credential("tok")) }).is_none());
    assert!(authenticate(Reply::Answered { status: 500, body: None }).is_none());
    assert!(authenticate(Reply::Answered { status: 200, body: None }).is_none());
}

#[test]
fn catalogs_come_in_the_order_of_the_answer() {
    let reply =
        Reply::Answered { status: 200, body: Some(vec![bare_catalog("b"), bare_catalog("a")]) };
    let ids: Vec<String> = fetch_catalogs(reply).into_iter().map(|c| c.id).collect();
    assert_eq!(ids, vec!["b".to_string(), "a".to_string()]);
}

#[test]
fn failed_fetch_is_an_empty_list() {
    assert!(fetch_catalogs(Reply::Failed).is_empty());
    assert!(fetch_catalogs(Reply::Answered { status: 200, body: None }).is_empty());
    assert!(fetch_catalogs(Reply::Answered { status: 503, body: Some(vec![bare_catalog("a")]) })
        .is_empty());
    assert!(fetch_catalogs(Reply::Answered { status: 199, body: Some(vec![bare_catalog("a")]) })
        .is_empty());
}

#[test]
fn auth_body_frames_the_two_texts() {
    assert_eq!(frame_auth_body("\"admin\"", "\"\""), "{\"username\":\"admin\",\"password\":\"\"}");
    assert_eq!(frame_auth_body("U", "P"), "{\"username\":U,\"password\":P}");
    assert_eq!(frame_auth_body("", ""), "{\"username\":,\"password\":}");
}

#[test]
fn auth_request_posts_the_credentials_as_json() {
    let config = Config::with_defaults("http://plane:8080".to_string());
    let request = auth_request(&config).expect("a request");
    assert_eq!(request.method, Method::Post);
    assert_eq!(request.url, "http://plane:8080/v1alpha2/users/auth");
    assert_eq!(request.authorization, None);
    assert_eq!(request.json_body.as_deref(), Some("{\"username\":\"admin\",\"password\":\"\"}"));
    assert_eq!(request.timeout_seconds, 30);
}

#[test]
fn auth_request_body_is_valid_json_for_any_text() {
    let config = Config::new(
        "http://plane".to_string(),
        "a\"b\\c".to_string(),
        "line\nbreak\ttab é".to_string(),
        15,
        4,
    );
    let request = auth_request(&config).expect("a request");
    let body = request.json_body.expect("a body");
    assert_eq!(
        body,
        "{\"username\":\"a\\\"b\\\\c\",\"password\":\"line\\nbreak\\ttab é\"}"
    );
    let value: serde_json::Value = serde_json::from_str(&body).expect("valid JSON");
    assert_eq!(value["username"].as_str(), Some("a\"b\\c"));
    assert_eq!(value["password"].as_str(), Some("line\nbreak\ttab é"));
    assert_eq!(request.timeout_seconds, 4);
}

#[test]
fn catalogs_request_gets_the_registry_with_the_token() {
    let config = Config::new("http://plane:8080".to_string(), "u".to_string(), "p".to_string(), 15, 9);
    let request = catalogs_request(&config, "tok-1");
    assert_eq!(request.method, Method::Get);
    assert_eq!(request.url, "http://plane:8080/v1alpha2/catalogs/registry");
    assert_eq!(request.authorization.as_deref(), Some("Bearer tok-1"));
    assert_eq!(request.json_body, None);
    assert_eq!(request.timeout_seconds, 9);
}
