use logagent::auth::interceptor::{bearer_header, AuthInterceptor};
use logagent::auth::token_manager::{AuthError, SharedAccessToken, TokenManager};

#[test]
fn empty_token_fails_the_call_locally() {
    assert_eq!(bearer_header(&String::new()).unwrap_err(), AuthError::EmptyToken);
}

#[test]
fn bearer_value_is_prefix_plus_token() {
    assert_eq!(bearer_header(&"tok".to_string()).unwrap(), "Bearer tok");
}

#[test]
fn interceptor_rereads_the_shared_token_each_call() {
    let cell = SharedAccessToken::new(String::new());
    let interceptor = AuthInterceptor::new(cell.clone());

    // no token yet: the call fails before any network traffic
    assert_eq!(interceptor.authorization_header().unwrap_err(), AuthError::EmptyToken);

    // a refresh elsewhere replaces the token; the next call sees it
    cell.store("fresh".to_string());
    assert_eq!(interceptor.authorization_header().unwrap(), "Bearer fresh");

    cell.store("rotated".to_string());
    assert_eq!(interceptor.authorization_header().unwrap(), "Bearer rotated");
}

#[test]
fn interceptor_sees_token_manager_updates() {
    let (tm, _) = TokenManager::new(
        "initial".to_string(),
        "r".to_string(),
        "u".to_string(),
        "p".to_string(),
    );
    let interceptor = AuthInterceptor::new(tm.get_shared_token());
    assert_eq!(interceptor.authorization_header().unwrap(), "Bearer initial");
}
