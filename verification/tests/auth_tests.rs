use order_service::auth::{
    auth_advance, auth_interceptor, bearer_token, is_blacklisted, jwt_secret, parse_token,
    AuthEvent, AuthStep, BlacklistLookup, CurrentUser, JwtClaims, BEARER_PREFIX,
    DEFAULT_JWT_SECRET,
};
use order_service::error::StatusCode;

fn claims(sub: &str, email: &str) -> JwtClaims {
    JwtClaims { sub: sub.to_string(), email: email.to_string(), exp: 2_000_000_000 }
}

fn refused(step: &AuthStep) -> (StatusCode, String) {
    match step {
        AuthStep::Done { outcome: Err(e) } => (e.code, e.message.clone()),
        other => panic!("expected a refusal, got {:?}", other),
    }
}

#[test]
fn header_checks() {
    let e = bearer_token(None).unwrap_err();
    assert_eq!((e.code, e.message.as_str()), (StatusCode::Unauthenticated, "Missing authorization header"));
    let e = bearer_token(Some("Basic abc")).unwrap_err();
    assert_eq!(e.message, "Invalid authorization scheme");
    let e = bearer_token(Some("Bearer    ")).unwrap_err();
    assert_eq!(e.message, "Empty token");
    assert_eq!(bearer_token(Some("Bearer  tok.en ")).unwrap(), "tok.en");
    assert_eq!(BEARER_PREFIX, "Bearer ");
}

#[test]
fn claims_to_user() {
    let u = parse_token(Some(claims("42", "a@b.c"))).unwrap();
    assert_eq!((u.user_id, u.email.as_str()), (42, "a@b.c"));
    let e = parse_token(Some(claims("4x", "a@b.c"))).unwrap_err();
    assert_eq!((e.code, e.message.as_str()), (StatusCode::Unauthenticated, "Invalid user id in token"));
    let e = parse_token(None).unwrap_err();
    assert_eq!(e.message, "Invalid or expired token");
}

#[test]
fn blacklist_answers() {
    assert_eq!(is_blacklisted(BlacklistLookup::Answered(true)).unwrap(), true);
    assert_eq!(is_blacklisted(BlacklistLookup::Answered(false)).unwrap(), false);
    let e = is_blacklisted(BlacklistLookup::RepoMissing).unwrap_err();
    assert_eq!((e.code, e.message.as_str()), (StatusCode::Internal, "RedisRepo is not initialized, please init in main first"));
    let e = is_blacklisted(BlacklistLookup::Failed("timeout".to_string())).unwrap_err();
    assert_eq!((e.code, e.message.as_str()), (StatusCode::Internal, "Redis check failed: timeout"));
}

#[test]
fn secret_selection() {
    assert_eq!(jwt_secret(None), DEFAULT_JWT_SECRET);
    assert_eq!(jwt_secret(None), "dev-secret-change-me");
    assert_eq!(jwt_secret(Some("s3".to_string())), "s3");
}

#[test]
fn request_let_through_for_claims_user() {
    let step = auth_interceptor(Some("Bearer abc"));
    let token = match &step {
        AuthStep::Decode { token } => token.clone(),
        other => panic!("{:?}", other),
    };
    assert_eq!(token, "abc");
    let step = auth_advance(step, AuthEvent::Claims(Some(claims("7", "u@x.y"))));
    match &step {
        AuthStep::CheckBlacklist { token, user } => {
            assert_eq!(token, "abc");
            assert_eq!(user.user_id, 7);
        }
        other => panic!("{:?}", other),
    }
    let step = auth_advance(step, AuthEvent::Blacklist(BlacklistLookup::Answered(false)));
    match step {
        AuthStep::Done { outcome: Ok(CurrentUser { user_id, email }) } => {
            assert_eq!((user_id, email.as_str()), (7, "u@x.y"));
        }
        other => panic!("{:?}", other),
    }
}

#[test]
fn blacklisted_token_refused() {
    let step = auth_interceptor(Some("Bearer abc"));
    let step = auth_advance(step, AuthEvent::Claims(Some(claims("7", "u@x.y"))));
    let step = auth_advance(step, AuthEvent::Blacklist(BlacklistLookup::Answered(true)));
    assert_eq!(refused(&step), (StatusCode::Unauthenticated, "Token is blacklisted".to_string()));
}

#[test]
fn refusal_is_final() {
    let step = auth_interceptor(None);
    let step = auth_advance(step, AuthEvent::Claims(Some(claims("7", "u@x.y"))));
    let step = auth_advance(step, AuthEvent::Blacklist(BlacklistLookup::Answered(false)));
    assert_eq!(refused(&step), (StatusCode::Unauthenticated, "Missing authorization header".to_string()));
}

#[test]
fn unexpected_answer_ignored() {
    let step = auth_interceptor(Some("Bearer abc"));
    let step = auth_advance(step, AuthEvent::Blacklist(BlacklistLookup::Answered(false)));
    assert!(matches!(step, AuthStep::Decode { .. }));
}

#[test]
fn blacklist_unavailable_is_internal() {
    let step = auth_interceptor(Some("Bearer abc"));
    let step = auth_advance(step, AuthEvent::Claims(Some(claims("7", "u@x.y"))));
    let step = auth_advance(step, AuthEvent::Blacklist(BlacklistLookup::RepoMissing));
    assert_eq!(
        refused(&step),
        (StatusCode::Internal, "RedisRepo is not initialized, please init in main first".to_string())
    );
}

#[test]
fn bad_claims_refused_before_blacklist() {
    let step = auth_interceptor(Some("Bearer abc"));
    let step = auth_advance(step, AuthEvent::Claims(Some(claims("-7", "u@x.y"))));
    assert_eq!(refused(&step), (StatusCode::Unauthenticated, "Invalid user id in token".to_string()));
    let step = auth_interceptor(Some("Bearer abc"));
    let step = auth_advance(step, AuthEvent::Claims(None));
    assert_eq!(refused(&step), (StatusCode::Unauthenticated, "Invalid or expired token".to_string()));
}
