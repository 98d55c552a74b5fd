use jsonwebtoken::{encode, EncodingKey, Header};
use serde_json::Value;
use webrtc_signaling::messages::ServerMessage;
use webrtc_signaling::server::{authentication_reply, authentication_token, FirstFrame};
use webrtc_signaling::wire::{Document, JsonValue};
use webrtc_signaling::auth::{
    claims_from_values, user_from_claim_values, extract_token_from_cookies, extract_token_from_headers, extract_token_from_query,
    token_from_cookie, token_from_header, AuthenticatedUser, JwtValidator,
};

fn create_test_jwt_validator() -> JwtValidator {
    JwtValidator::new("test_secret_key_for_testing")
}

fn create_test_token(secret: &str, user_id: u32, username: &str, exp_offset_seconds: i64) -> String {
    let now = std::time::SystemTime::now().duration_since(std::time::UNIX_EPOCH).unwrap().as_secs() as i64;
    let mut claims = serde_json::Map::new();
    claims.insert("sub".to_string(), Value::from(user_id));
    claims.insert("username".to_string(), Value::from(username));
    claims.insert("iat".to_string(), Value::from(now));
    claims.insert("exp".to_string(), Value::from(now + exp_offset_seconds));
    encode(&Header::default(), &Value::Object(claims), &EncodingKey::from_secret(secret.as_ref())).unwrap()
}

#[test]
fn test_jwt_validator_creation() {
    let validator = create_test_jwt_validator();
    assert!(validator.validate_token("").is_err());
}

#[test]
fn test_valid_token_validation() {
    let validator = create_test_jwt_validator();
    let token = create_test_token("test_secret_key_for_testing", 123, "testuser", 3600);

    let result = validator.validate_token(&token);
    assert!(result.is_ok());

    let user = result.unwrap();
    assert_eq!(user.user_id, 123);
    assert_eq!(user.username, "testuser");
}

#[test]
fn test_expired_token_validation() {
    let validator = create_test_jwt_validator();
    let token = create_test_token("test_secret_key_for_testing", 123, "testuser", -3600);

    let result = validator.validate_token(&token);
    assert!(result.is_err());
    assert!(result.unwrap_err().contains("Invalid token"));
}

#[test]
fn test_invalid_secret_token_validation() {
    let validator = create_test_jwt_validator();
    let token = create_test_token("wrong_secret", 123, "testuser", 3600);

    let result = validator.validate_token(&token);
    assert!(result.is_err());
    assert!(result.unwrap_err().contains("Invalid token"));
}

#[test]
fn test_malformed_token_validation() {
    let validator = create_test_jwt_validator();

    let result = validator.validate_token("not.a.valid.jwt.token");
    assert!(result.is_err());
    assert!(result.unwrap_err().contains("Invalid token"));
}

#[test]
fn token_with_string_subject_is_refused() {
    let now = std::time::SystemTime::now().duration_since(std::time::UNIX_EPOCH).unwrap().as_secs();
    let mut claims = serde_json::Map::new();
    claims.insert("sub".to_string(), Value::from("123"));
    claims.insert("username".to_string(), Value::from("alice"));
    claims.insert("iat".to_string(), Value::from(now));
    claims.insert("exp".to_string(), Value::from(now + 3600));
    let token = encode(&Header::default(), &Value::Object(claims), &EncodingKey::from_secret(b"s")).unwrap();
    let err = JwtValidator::new("s").validate_token(&token).unwrap_err();
    assert_eq!(err, "Invalid token: missing or ill-typed claims");
}

#[test]
fn claims_need_every_field_in_range() {
    let c = claims_from_values(Some(123), Some("alice"), Some(1), Some(2)).unwrap();
    assert_eq!((c.sub, c.username.as_str(), c.iat, c.exp), (123, "alice", 1, 2));
    assert!(claims_from_values(Some(4_294_967_296), Some("alice"), Some(1), Some(2)).is_none());
    assert!(claims_from_values(Some(1), None, Some(1), Some(2)).is_none());
    assert!(claims_from_values(Some(1), Some("a"), None, Some(2)).is_none());
}

#[test]
fn test_extract_token_from_query() {
    assert_eq!(extract_token_from_query("token=abc123&other=value"), Some("abc123".to_string()));
    assert_eq!(extract_token_from_query("other=value&token=xyz789"), Some("xyz789".to_string()));
    assert_eq!(extract_token_from_query("token=solo_token"), Some("solo_token".to_string()));
    assert_eq!(extract_token_from_query("other=value&something=else"), None);
    assert_eq!(extract_token_from_query(""), None);
}

#[test]
fn test_extract_token_from_cookies() {
    assert_eq!(
        extract_token_from_cookies("auth_token=abc123; other_cookie=value"),
        Some("abc123".to_string())
    );
    assert_eq!(extract_token_from_cookies("jwt=xyz789; session=12345"), Some("xyz789".to_string()));
    assert_eq!(extract_token_from_cookies("token=token123"), Some("token123".to_string()));
    assert_eq!(
        extract_token_from_cookies(" auth_token=spaced_token ; other=val"),
        Some("spaced_token".to_string())
    );
    assert_eq!(extract_token_from_cookies("session=12345; user=john"), None);
    assert_eq!(extract_token_from_cookies(""), None);
}

#[test]
fn test_extract_token_from_headers() {
    let headers = vec![("authorization", "Bearer abc123"), ("content-type", "application/json")];
    assert_eq!(extract_token_from_headers(&headers), Some("abc123".to_string()));

    let headers = vec![("x-auth-token", "xyz789"), ("user-agent", "test")];
    assert_eq!(extract_token_from_headers(&headers), Some("xyz789".to_string()));

    let headers = vec![("Authorization", "Bearer case_test")];
    assert_eq!(extract_token_from_headers(&headers), Some("case_test".to_string()));

    let headers = vec![("content-type", "application/json"), ("user-agent", "test")];
    assert_eq!(extract_token_from_headers(&headers), None);

    assert_eq!(extract_token_from_headers(&[]), None);

    let headers = vec![("authorization", "NotBearer abc123")];
    assert_eq!(extract_token_from_headers(&headers), None);
}

#[test]
fn test_authenticated_user_creation() {
    let user = AuthenticatedUser { user_id: 42, username: "test_user".to_string() };

    assert_eq!(user.user_id, 42);
    assert_eq!(user.username, "test_user");
}

#[test]
fn query_takes_first_token_parameter_only() {
    assert_eq!(extract_token_from_query("a=1&token=first&token=second"), Some("first".to_string()));
    assert_eq!(extract_token_from_query("token="), Some("".to_string()));
    assert_eq!(extract_token_from_query("xtoken=abc&&token=ok"), Some("ok".to_string()));
}

#[test]
fn cookie_names_are_tried_in_order() {
    assert_eq!(token_from_cookie("jwt=j"), Some("j".to_string()));
    assert_eq!(token_from_cookie("token=t"), Some("t".to_string()));
    assert_eq!(token_from_cookie("session=s"), None);
    assert_eq!(extract_token_from_cookies("a=1;\tjwt=tabbed\t"), Some("tabbed".to_string()));
}

#[test]
fn header_rules_on_lowercase_names() {
    assert_eq!(token_from_header("authorization", "Bearer t"), Some("t".to_string()));
    assert_eq!(token_from_header("authorization", "bearer t"), None);
    assert_eq!(token_from_header("x-jwt-token", "v"), Some("v".to_string()));
    assert_eq!(token_from_header("X-JWT-Token", "v"), None);
    let headers = vec![("X-JWT-Token", "upper")];
    assert_eq!(extract_token_from_headers(&headers), Some("upper".to_string()));
}

fn first_frame(token: &str) -> FirstFrame {
    FirstFrame::Text(Some(Document {
        members: vec![
            ("type".to_string(), JsonValue::Text("auth".to_string())),
            ("token".to_string(), JsonValue::Text(token.to_string())),
        ],
    }))
}

fn authenticate(validator: &JwtValidator, token: &str) -> (ServerMessage, bool) {
    let outcome = match authentication_token(&first_frame(token)) {
        Ok(t) => validator.validate_token(&t),
        Err(e) => Err(e),
    };
    authentication_reply(&outcome)
}

#[test]
fn authentication_success_yields_authenticated_frame() {
    let secret = "S";
    let token = create_test_token(secret, 123, "alice", 3600);
    let (frame, open) = authenticate(&JwtValidator::new(secret), &token);
    assert!(open);
    match frame {
        ServerMessage::Authenticated { user_id, username } => {
            assert_eq!(user_id, 123);
            assert_eq!(username, "alice");
        }
        other => panic!("expected authenticated, got {:?}", other),
    }
}

#[test]
fn authentication_failure_sends_error_and_closes() {
    let (frame, open) = authenticate(&JwtValidator::new("S"), "not.a.jwt");
    assert!(!open);
    match frame {
        ServerMessage::Error { message, .. } => assert!(message.starts_with("Authentication failed: Invalid token: ")),
        other => panic!("expected error, got {:?}", other),
    }
}

#[test]
fn claim_values_decide_the_identity() {
    let user = user_from_claim_values(Some(123), Some("alice"), Some(1), Some(2)).unwrap();
    assert_eq!((user.user_id, user.username.as_str()), (123, "alice"));
    assert_eq!(
        user_from_claim_values(Some(123), None, Some(1), Some(2)).unwrap_err(),
        "Invalid token: missing or ill-typed claims"
    );
    assert!(user_from_claim_values(Some(4_294_967_296), Some("a"), Some(1), Some(2)).is_err());
}
