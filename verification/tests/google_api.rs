use rs_google_photos_sync::clock::Timestamp;
use rs_google_photos_sync::google_api::{
    authorization_code, build_auth_token_request, build_refresh_token_request, callback_address,
    create_authorization_url, get_authorization_code, google_photos_api_read_only_scope,
    parse_query_str, query_table, AuthStep, GoogleApiToken, GoogleAuthApi, GoogleAuthorizationCode,
    GoogleCredentials, GoogleToken, GoogleWebCredentials, RefreshToken,
};

fn at(millis: i64) -> Timestamp {
    Timestamp { millis }
}

fn web() -> GoogleWebCredentials {
    GoogleWebCredentials {
        client_id: "client-1".to_string(),
        client_secret: "hush".to_string(),
        auth_uri: "https://accounts.example/o/oauth2/auth".to_string(),
        token_uri: "https://oauth2.example/token".to_string(),
        redirect_uris: vec!["http://localhost:3001/oauth2redirect".to_string()],
    }
}

fn api_token(expires_in: u32) -> GoogleApiToken {
    GoogleApiToken {
        access_token: "access-1".to_string(),
        expires_in,
        refresh_token: "refresh-1".to_string(),
        scope: "scope".to_string(),
        token_type: "Bearer".to_string(),
    }
}

fn pair(name: &str, value: &str) -> (String, String) {
    (name.to_string(), value.to_string())
}

#[test]
fn the_authorization_address_is_put_together_from_its_parts() {
    assert_eq!(
        create_authorization_url(&web()),
        "https://accounts.example/o/oauth2/auth?scope=https://www.googleapis.com/auth/photoslibrary.readonly&response_type=code&redirect_uri=http://localhost:3001/oauth2redirect&access_type=offline&client_id=client-1"
    );
    assert_eq!(callback_address(), "http://localhost:3001/oauth2redirect");
    assert_eq!(
        google_photos_api_read_only_scope(),
        vec!["https://www.googleapis.com/auth/photoslibrary.readonly".to_string()]
    );
}

#[test]
fn the_request_for_a_token_names_code_and_credentials() {
    let request = build_auth_token_request(&web(), &GoogleAuthorizationCode("4/abc".to_string()));
    assert_eq!(
        request,
        vec![
            pair("code", "4/abc"),
            pair("client_id", "client-1"),
            pair("client_secret", "hush"),
            pair("redirect_uri", "http://localhost:3001/oauth2redirect"),
            pair("grant_type", "authorization_code"),
        ]
    );
}

#[test]
fn the_request_for_renewal_names_the_refresh_token() {
    let request = build_refresh_token_request(&web(), &api_token(3600));
    assert_eq!(
        request,
        vec![
            pair("refresh_token", "refresh-1"),
            pair("client_id", "client-1"),
            pair("client_secret", "hush"),
            pair("grant_type", "refresh_token"),
        ]
    );
}

#[test]
fn a_token_runs_out_after_its_span_in_whole_seconds() {
    let token = GoogleToken { token: api_token(3600), token_created_at: at(1_000) };
    assert!(!token.is_expired_at(at(1_000)));
    assert!(!token.is_expired_at(at(1_000 + 3_600_000)));
    assert!(!token.is_expired_at(at(1_000 + 3_600_999)));
    assert!(token.is_expired_at(at(1_000 + 3_601_000)));
    assert!(!token.is_expired_at(at(0)));
    assert!(!token.is_expired_at(at(i64::MIN)));
    assert!(token.is_expired_at(at(i64::MAX)));
    let instant = GoogleToken { token: api_token(0), token_created_at: at(0) };
    assert!(!instant.is_expired_at(at(999)));
    assert!(instant.is_expired_at(at(1000)));
}

#[test]
fn an_old_token_has_run_out_by_the_clock() {
    let old = GoogleToken { token: api_token(60), token_created_at: at(0) };
    assert!(old.is_expired());
    let future = GoogleToken { token: api_token(60), token_created_at: at(i64::MAX) };
    assert!(!future.is_expired());
}

#[test]
fn the_step_before_a_request_follows_the_token() {
    let mut auth = GoogleAuthApi::create(GoogleCredentials { web: web() }, None);
    assert_eq!(auth.authenticate_or_renew(at(0)), AuthStep::Authenticate);
    let token = auth.authenticate(api_token(10), at(5_000));
    assert_eq!(token, GoogleToken { token: api_token(10), token_created_at: at(5_000) });
    assert_eq!(auth.token, Some(token));
    assert_eq!(auth.authenticate_or_renew(at(15_999)), AuthStep::Ready);
    assert_eq!(auth.authenticate_or_renew(at(16_000)), AuthStep::Renew);
}

#[test]
fn renewal_replaces_access_token_span_and_time() {
    let held = GoogleToken { token: api_token(10), token_created_at: at(5_000) };
    let mut auth = GoogleAuthApi::create(GoogleCredentials { web: web() }, Some(held));
    let answer = RefreshToken {
        expires_in: 7200,
        access_token: "access-2".to_string(),
        token_type: "Other".to_string(),
    };
    let renewed = auth.renew_token(answer, at(20_000));
    assert_eq!(renewed.token.access_token, "access-2");
    assert_eq!(renewed.token.expires_in, 7200);
    assert_eq!(renewed.token.refresh_token, "refresh-1");
    assert_eq!(renewed.token.scope, "scope");
    assert_eq!(renewed.token.token_type, "Bearer");
    assert_eq!(renewed.token_created_at, at(20_000));
    assert_eq!(auth.token, Some(renewed));
    assert_eq!(auth.credentials, GoogleCredentials { web: web() });
}

#[test]
fn the_query_of_a_request_is_read_into_a_table() {
    let table = parse_query_str("/oauth2redirect?code=4%2Fabc&scope=a+b").unwrap();
    assert_eq!(table, vec![pair("code", "4/abc"), pair("scope", "a b")]);
}

#[test]
fn a_request_without_a_query_gives_an_empty_table() {
    assert_eq!(parse_query_str("/oauth2redirect"), Some(Vec::new()));
    assert_eq!(parse_query_str(""), Some(Vec::new()));
}

#[test]
fn a_request_that_makes_no_address_gives_no_table() {
    assert_eq!(parse_query_str(":notaport/?code=1"), None);
    assert_eq!(get_authorization_code(":notaport/?code=1"), None);
}

#[test]
fn the_later_of_two_values_of_one_name_stands() {
    let table = parse_query_str("/oauth2redirect?code=first&x=1&code=second").unwrap();
    assert_eq!(table, vec![pair("code", "second"), pair("x", "1")]);
    assert_eq!(
        query_table(vec![pair("a", "1"), pair("b", "2"), pair("a", "3")]),
        vec![pair("a", "3"), pair("b", "2")]
    );
}

#[test]
fn the_code_is_read_from_the_request() {
    assert_eq!(
        get_authorization_code("/oauth2redirect?state=x&code=4%2F0AX4"),
        Some(GoogleAuthorizationCode("4/0AX4".to_string()))
    );
    assert_eq!(get_authorization_code("/oauth2redirect?error=access_denied"), None);
    assert_eq!(get_authorization_code("/oauth2redirect?Code=upper"), None);
    assert_eq!(
        authorization_code(&vec![pair("x", "1"), pair("code", "c")]),
        Some(GoogleAuthorizationCode("c".to_string()))
    );
    assert_eq!(authorization_code(&Vec::new()), None);
}
