use device_auth::auth::{
    classify_codepair_response, classify_token_response, codepair_request_body,
    device_grant_request_body, refresh_request_body, AuthorizationError, ErrorResponse,
};
use device_auth::apis::parse_export_response;

fn to_doc(s: &str) -> Vec<char> {
    s.chars().collect()
}

fn envelope(code: &str) -> ErrorResponse {
    ErrorResponse { error: String::from(code), error_description: None }
}

#[test]
fn every_known_error_code_maps_to_its_variant() {
    let cases = [
        ("invalid_request", AuthorizationError::InvalidRequest),
        ("unauthorized_client", AuthorizationError::UnauthorizedClient),
        ("access_denied", AuthorizationError::AccessDenied),
        ("unsupported_response_type", AuthorizationError::UnsupportedResponseType),
        ("invalid_scope", AuthorizationError::InvalidScope),
        ("server_error", AuthorizationError::ServerError),
        ("temporarily_unavailable", AuthorizationError::TemporarilyUnavailable),
        ("authorization_pending", AuthorizationError::AuthorizationPending),
        ("slow_down", AuthorizationError::SlowDown),
        ("expired_token", AuthorizationError::ExpiredToken),
    ];
    for (code, want) in cases {
        assert_eq!(AuthorizationError::from_error_response(&envelope(code)), want);
    }
}

#[test]
fn unrecognized_error_code_is_a_contract_violation() {
    assert_eq!(
        AuthorizationError::from_error_response(&envelope("brand_new_code")),
        AuthorizationError::MalformedResponse
    );
    assert_eq!(
        AuthorizationError::from_error_response(&envelope("")),
        AuthorizationError::MalformedResponse
    );
}

#[test]
fn token_success_body_classifies_ok() {
    let body = to_doc(
        "{\"access_token\":\"Atza|acc\",\"refresh_token\":\"Atzr|ref\",\
         \"token_type\":\"bearer\",\"expires_in\":3600}",
    );
    let t = classify_token_response(&body).unwrap();
    assert_eq!(t.access_token, "Atza|acc");
    assert_eq!(t.refresh_token, "Atzr|ref");
    assert_eq!(t.token_type, "bearer");
    assert_eq!(t.expires_in, 3600);
}

#[test]
fn token_error_body_classifies_to_the_taxonomy() {
    let body = to_doc("{\"error\":\"authorization_pending\"}");
    assert_eq!(
        classify_token_response(&body).unwrap_err(),
        AuthorizationError::AuthorizationPending
    );
    let with_description = to_doc(
        "{\"error\":\"expired_token\",\"error_description\":\"The code has expired\"}",
    );
    assert_eq!(
        classify_token_response(&with_description).unwrap_err(),
        AuthorizationError::ExpiredToken
    );
}

#[test]
fn token_garbage_body_is_malformed() {
    assert_eq!(
        classify_token_response(&to_doc("<html>oops</html>")).unwrap_err(),
        AuthorizationError::MalformedResponse
    );
    assert_eq!(
        classify_token_response(&to_doc("")).unwrap_err(),
        AuthorizationError::MalformedResponse
    );
    // A success shape with trailing bytes violates the contract too.
    let trailing = to_doc(
        "{\"access_token\":\"a\",\"refresh_token\":\"r\",\"token_type\":\"bearer\",\
         \"expires_in\":1}x",
    );
    assert_eq!(
        classify_token_response(&trailing).unwrap_err(),
        AuthorizationError::MalformedResponse
    );
}

#[test]
fn unknown_code_in_a_reply_is_malformed() {
    let body = to_doc("{\"error\":\"mystery\"}");
    assert_eq!(
        classify_token_response(&body).unwrap_err(),
        AuthorizationError::MalformedResponse
    );
}

#[test]
fn codepair_success_body_classifies_ok() {
    let body = to_doc(
        "{\"user_code\":\"ABCDEF\",\"device_code\":\"dev-123\",\
         \"verification_uri\":\"https://amazon.com/us/code\",\"expires_in\":600,\"interval\":5}",
    );
    let c = classify_codepair_response(&body).unwrap();
    assert_eq!(c.user_code, "ABCDEF");
    assert_eq!(c.device_code, "dev-123");
    assert_eq!(c.verification_uri, "https://amazon.com/us/code");
    assert_eq!(c.expires_in, 600);
    assert_eq!(c.interval, 5);
}

#[test]
fn codepair_error_body_classifies_to_the_taxonomy() {
    let body = to_doc("{\"error\":\"invalid_scope\"}");
    assert_eq!(
        classify_codepair_response(&body).unwrap_err(),
        AuthorizationError::InvalidScope
    );
}

#[test]
fn codepair_garbage_body_is_malformed() {
    assert_eq!(
        classify_codepair_response(&to_doc("{}")).unwrap_err(),
        AuthorizationError::MalformedResponse
    );
}

#[test]
fn export_success_body_parses() {
    let body = to_doc("{\"location\":\"https://s3.amazonaws.com/pkg.zip\",\"export_id\":\"ex-1\"}");
    let e = parse_export_response(&body).unwrap();
    assert_eq!(e.location, "https://s3.amazonaws.com/pkg.zip");
    assert_eq!(e.export_id, "ex-1");
}

#[test]
fn export_garbage_body_does_not_parse() {
    assert!(parse_export_response(&to_doc("{\"location\":\"x\"}")).is_none());
    assert!(parse_export_response(&to_doc("")).is_none());
}

#[test]
fn whitespace_between_tokens_is_insignificant() {
    let spaced = to_doc("{ \"error\" : \"slow_down\" }");
    assert_eq!(classify_token_response(&spaced).unwrap_err(), AuthorizationError::SlowDown);

    let pretty = to_doc(
        "{\n  \"access_token\": \"a b\",\n  \"refresh_token\": \"r\",\n  \
         \"token_type\": \"bearer\",\n  \"expires_in\": 3600\n}",
    );
    let t = classify_token_response(&pretty).unwrap();
    // Whitespace inside a quoted value is kept as it stands.
    assert_eq!(t.access_token, "a b");
    assert_eq!(t.expires_in, 3600);

    let spaced_pair = to_doc(
        "{ \"user_code\": \"ABC\", \"device_code\": \"d\", \
         \"verification_uri\": \"https://amazon.com/us/code\", \
         \"expires_in\": 600, \"interval\": 5 }",
    );
    let c = classify_codepair_response(&spaced_pair).unwrap();
    assert_eq!(c.user_code, "ABC");
    assert_eq!(c.interval, 5);
}

#[test]
fn request_bodies_are_exact() {
    assert_eq!(
        codepair_request_body("amzn1.application-oa2-client.abc"),
        "client_id=amzn1.application-oa2-client.abc&response_type=device_code&scope=profile"
    );
    assert_eq!(
        device_grant_request_body("dev code+1", "ABCDEF"),
        "grant_type=device_code&device_code=dev%20code%2B1&user_code=ABCDEF"
    );
    assert_eq!(
        refresh_request_body("Atzr|r/t=", "client&id"),
        "grant_type=refresh_token&refresh_token=Atzr%7Cr%2Ft%3D&client_id=client%26id"
    );
    // A value outside ASCII is sent as its percent-encoded UTF-8 bytes.
    assert_eq!(codepair_request_body("\u{20AC}"), "client_id=%E2%82%AC&response_type=device_code&scope=profile");
}
