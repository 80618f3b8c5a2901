use kafka_repo::apis::{login, login_at};
use kafka_repo::data_service::UserRecord;
use kafka_repo::data_state::{create_openai, AppState};
use kafka_repo::entities::{AuthError, Claims, ErrorKind, JwtResponse, UserLogin};
use kafka_repo::jwt_middleware::{
    accept, bearer_token, is_protected, issue, sign, token_response, Access, JwtMiddleware,
    JwtMiddlewareMiddleware, RawClaims,
};

const T0: usize = 1_700_000_000;

fn state(users: Option<Vec<UserRecord>>, secret: &str) -> AppState {
    AppState {
        kafka_inventory: None,
        kafka_consumer: None,
        user_authentication: users,
        jwt_secret: secret.to_string(),
        azure_ai_search_url: None,
        azure_ai_search_key: None,
        azure_ai_search_indexes: None,
        azure_ai_search_use_semantics: true,
        application_info: None,
        knowledge: None,
        knowledge_budget: 1000,
        open_ai_config: create_openai("", ""),
    }
}

fn users() -> Vec<UserRecord> {
    vec![
        UserRecord { user_id: "bob".to_string(), password: "hunter2".to_string() },
        UserRecord { user_id: "alice".to_string(), password: "secret".to_string() },
    ]
}

fn attempt(username: &str, password: &str) -> UserLogin {
    UserLogin { username: username.to_string(), password: password.to_string() }
}

fn guard(secret: &str) -> JwtMiddlewareMiddleware<()> {
    JwtMiddleware::new(secret.to_string()).new_transform(())
}

fn token_at(secret: &str, now: usize) -> String {
    login_at(&state(Some(users()), secret), &attempt("alice", "secret"), now).unwrap().token
}

fn header(token: &str) -> String {
    format!("Bearer {}", token)
}

fn alice_claims(now: usize) -> Claims {
    Claims::issued_at(
        "alice".to_string(),
        now + 3600,
        now,
        "kafka-repo-iss".to_string(),
        "kafka-repo-service-aud".to_string(),
    )
}

fn custom_token(secret: &str, fields: &[(&str, serde_json::Value)]) -> String {
    let mut payload = serde_json::Map::new();
    for (k, v) in fields {
        payload.insert(k.to_string(), v.clone());
    }
    jsonwebtoken::encode(
        &jsonwebtoken::Header::default(),
        &payload,
        &jsonwebtoken::EncodingKey::from_secret(secret.as_bytes()),
    )
    .unwrap()
}

#[test]
fn valid_login_returns_a_bearer_token() {
    let response = login_at(&state(Some(users()), "k"), &attempt("alice", "secret"), T0).unwrap();
    assert_eq!(response.token_type, "Bearer");
    assert_eq!(response.expires_in, 3600);
    assert_eq!(response.token.split('.').count(), 3);
    assert_ne!(response.token, "alice");
}

#[test]
fn wrong_password_is_invalid_credentials() {
    let data = state(Some(users()), "k");
    assert_eq!(login_at(&data, &attempt("alice", "wrong"), T0), Err(ErrorKind::InvalidCredentials));
    assert_eq!(login_at(&data, &attempt("carol", "secret"), T0), Err(ErrorKind::InvalidCredentials));
    assert_eq!(login(&data, &attempt("alice", "wrong")), Err(ErrorKind::InvalidCredentials));
    assert_eq!(login(&data, &attempt("alice", "hunter2")), Err(ErrorKind::InvalidCredentials));
}

#[test]
fn login_without_the_table_is_not_configured() {
    assert_eq!(login_at(&state(None, "k"), &attempt("alice", "secret"), T0), Err(ErrorKind::NotConfigured));
    assert_eq!(login(&state(None, "k"), &attempt("alice", "secret")), Err(ErrorKind::NotConfigured));
}

#[test]
fn minted_claims_expire_after_an_hour() {
    let minted = issue(&users(), &"alice".to_string(), &"secret".to_string(), 1000);
    assert_eq!(
        minted,
        Ok(Claims::issued_at(
            "alice".to_string(),
            4600,
            1000,
            "kafka-repo-iss".to_string(),
            "kafka-repo-service-aud".to_string()
        ))
    );
    assert_eq!(
        issue(&users(), &"alice".to_string(), &"nope".to_string(), 1000),
        Err(ErrorKind::InvalidCredentials)
    );
}

#[test]
fn a_clock_beyond_the_range_mints_nothing() {
    let alice = "alice".to_string();
    let secret = "secret".to_string();
    assert_eq!(issue(&users(), &alice, &secret, usize::MAX - 3599), Err(ErrorKind::SigningFailed));
    assert_eq!(issue(&users(), &alice, &secret, usize::MAX), Err(ErrorKind::SigningFailed));
    assert_eq!(issue(&users(), &alice, &secret, usize::MAX - 3600).unwrap().exp(), usize::MAX);
    assert_eq!(issue(&users(), &alice, &"x".to_string(), usize::MAX), Err(ErrorKind::InvalidCredentials));
}

#[test]
fn token_is_accepted_until_it_expires() {
    let token = token_at("k", T0);
    let g = guard("k");
    for now in [T0, T0 + 1, T0 + 3599, T0 + 3600] {
        assert_eq!(
            g.authorize_at("/api/v1/apps", Some(&header(&token)), now),
            Ok(Access::Granted(alice_claims(T0)))
        );
    }
    for now in [T0 + 3601, T0 + 3660, T0 + 7200, usize::MAX] {
        assert_eq!(
            g.authorize_at("/api/v1/apps", Some(&header(&token)), now),
            Err(AuthError::Unauthorized)
        );
    }
}

#[test]
fn token_signed_with_another_secret_is_rejected() {
    let token = token_at("one secret", T0);
    assert_eq!(
        guard("another secret").authorize_at("/api/v1/search", Some(&header(&token)), T0),
        Err(AuthError::Unauthorized)
    );
    assert_eq!(
        guard("one secre").authorize_at("/api/v1/search", Some(&header(&token)), T0),
        Err(AuthError::Unauthorized)
    );
    assert!(guard("one secret").authorize_at("/api/v1/search", Some(&header(&token)), T0).is_ok());
}

#[test]
fn tampered_token_is_rejected() {
    let token = token_at("k", T0);
    let parts: Vec<&str> = token.split('.').collect();
    let other = token_at("k", T0 + 10_000);
    let other_parts: Vec<&str> = other.split('.').collect();
    let forged = format!("{}.{}.{}", parts[0], other_parts[1], parts[2]);
    let g = guard("k");
    assert_eq!(g.authorize_at("/api/v1/x", Some(&header(&forged)), T0), Err(AuthError::Unauthorized));
    for bad in ["", "abc", "a.b.c", "a.b", &token[1..], &format!("{}x", token)] {
        assert_eq!(g.authorize_at("/api/v1/x", Some(&header(bad)), T0), Err(AuthError::Unauthorized));
    }
}

#[test]
fn unprotected_path_needs_no_header() {
    let g = guard("k");
    for path in ["/", "/login.html", "/api/authenticate/v1/login", "/api/v", "", "api/v1", "/API/V1/apps"] {
        assert_eq!(g.authorize_at(path, None, T0), Ok(Access::Open));
        assert_eq!(g.authorize_at(path, Some("rubbish"), T0), Ok(Access::Open));
        assert_eq!(g.authorize(path, None), Ok(Access::Open));
    }
}

#[test]
fn protected_path_needs_a_bearer_token() {
    let token = token_at("k", T0);
    let g = guard("k");
    for path in ["/api/v1", "/api/v1/apps", "/api/v1/apps/x/topics", "/api/v1x"] {
        assert_eq!(g.authorize_at(path, None, T0), Err(AuthError::Unauthorized));
        assert_eq!(g.authorize(path, None), Err(AuthError::Unauthorized));
        assert_eq!(g.authorize_at(path, Some(&token), T0), Err(AuthError::Unauthorized));
        assert_eq!(
            g.authorize_at(path, Some(&format!("bearer {}", token)), T0),
            Err(AuthError::Unauthorized)
        );
        assert_eq!(
            g.authorize_at(path, Some(&format!("Bearer{}", token)), T0),
            Err(AuthError::Unauthorized)
        );
        assert_eq!(
            g.authorize_at(path, Some(&format!("Basic {}", token)), T0),
            Err(AuthError::Unauthorized)
        );
        assert_eq!(
            g.authorize_at(path, Some(&format!(" Bearer {}", token)), T0),
            Err(AuthError::Unauthorized)
        );
        assert!(g.authorize_at(path, Some(&header(&token)), T0).is_ok());
    }
}

#[test]
fn token_for_another_audience_is_rejected() {
    let fields = |aud: serde_json::Value| {
        vec![
            ("sub", serde_json::Value::from("alice")),
            ("exp", serde_json::Value::from(T0 + 3600)),
            ("iat", serde_json::Value::from(T0)),
            ("iss", serde_json::Value::from("kafka-repo-iss")),
            ("aud", aud),
        ]
    };
    let g = guard("k");
    let good = custom_token("k", &fields(serde_json::Value::from("kafka-repo-service-aud")));
    assert_eq!(
        g.authorize_at("/api/v1/a", Some(&header(&good)), T0),
        Ok(Access::Granted(alice_claims(T0)))
    );
    let other = custom_token("k", &fields(serde_json::Value::from("someone-else")));
    assert_eq!(g.authorize_at("/api/v1/a", Some(&header(&other)), T0), Err(AuthError::Unauthorized));
    let list = custom_token(
        "k",
        &fields(serde_json::Value::from(vec!["kafka-repo-service-aud".to_string()])),
    );
    assert_eq!(g.authorize_at("/api/v1/a", Some(&header(&list)), T0), Err(AuthError::Unauthorized));
}

#[test]
fn token_with_a_missing_claim_is_rejected() {
    let all = vec![
        ("sub", serde_json::Value::from("alice")),
        ("exp", serde_json::Value::from(T0 + 3600)),
        ("iat", serde_json::Value::from(T0)),
        ("iss", serde_json::Value::from("kafka-repo-iss")),
        ("aud", serde_json::Value::from("kafka-repo-service-aud")),
    ];
    let g = guard("k");
    for skip in 0..all.len() {
        let fields: Vec<(&str, serde_json::Value)> =
            all.iter().enumerate().filter(|(i, _)| *i != skip).map(|(_, f)| f.clone()).collect();
        let token = custom_token("k", &fields);
        assert_eq!(g.authorize_at("/api/v1/a", Some(&header(&token)), T0), Err(AuthError::Unauthorized));
    }
    let mut wrong_type = all.clone();
    wrong_type[0] = ("sub", serde_json::Value::from(7));
    let token = custom_token("k", &wrong_type);
    assert_eq!(g.authorize_at("/api/v1/a", Some(&header(&token)), T0), Err(AuthError::Unauthorized));
}

#[test]
fn signed_token_carries_the_claims() {
    let claims = Claims::issued_at("carol".to_string(), 77, 11, "i".to_string(), "a".to_string());
    let response: JwtResponse = sign(&claims, "key").unwrap();
    assert_eq!(response.token_type, "Bearer");
    assert_eq!(response.expires_in, 3600);
    let mut validation = jsonwebtoken::Validation::default();
    validation.set_audience(&["a"]);
    validation.validate_exp = false;
    let read = jsonwebtoken::decode::<serde_json::Value>(
        &response.token,
        &jsonwebtoken::DecodingKey::from_secret(b"key"),
        &validation,
    )
    .unwrap();
    assert_eq!(read.header.alg, jsonwebtoken::Algorithm::HS256);
    assert_eq!(read.claims["sub"], "carol");
    assert_eq!(read.claims["exp"], 77);
    assert_eq!(read.claims["iat"], 11);
    assert_eq!(read.claims["iss"], "i");
    assert_eq!(read.claims["aud"], "a");
    assert_eq!(sign(&claims, "key").unwrap().token, response.token);
    assert_ne!(sign(&claims, "other").unwrap().token, response.token);
}

#[test]
fn failed_signing_is_reported() {
    assert_eq!(token_response::<()>(Err(())), Err(ErrorKind::SigningFailed));
    assert_eq!(
        token_response::<()>(Ok("t".to_string())),
        Ok(JwtResponse { token: "t".to_string(), token_type: "Bearer".to_string(), expires_in: 3600 })
    );
}

#[test]
fn bearer_token_is_what_follows_the_prefix() {
    assert_eq!(bearer_token(Some("Bearer abc.def")), Some("abc.def".to_string()));
    assert_eq!(bearer_token(Some("Bearer ")), Some(String::new()));
    assert_eq!(bearer_token(Some("Bearer  x")), Some(" x".to_string()));
    assert_eq!(bearer_token(Some("Bearer")), None);
    assert_eq!(bearer_token(Some("bearer abc")), None);
    assert_eq!(bearer_token(Some("")), None);
    assert_eq!(bearer_token(None), None);
}

#[test]
fn protected_prefix_is_api_v1() {
    assert!(is_protected("/api/v1"));
    assert!(is_protected("/api/v1/search"));
    assert!(!is_protected("/api/v"));
    assert!(!is_protected("/api/authenticate/v1/login"));
    assert!(!is_protected(""));
}

#[test]
fn claims_are_accepted_only_whole_and_in_time() {
    let raw = |exp: Option<u64>, aud: Option<&str>| RawClaims {
        sub: Some("s".to_string()),
        exp,
        iat: Some(5),
        iss: Some("i".to_string()),
        aud: aud.map(String::from),
    };
    let claims = Claims::issued_at("s".to_string(), 100, 5, "i".to_string(), "a".to_string());
    assert_eq!(accept(raw(Some(100), Some("a")), "a", 99), Ok(claims.clone()));
    assert_eq!(accept(raw(Some(100), Some("a")), "a", 100), Ok(claims));
    assert_eq!(accept(raw(Some(100), Some("a")), "a", 101), Err(AuthError::Unauthorized));
    assert_eq!(accept(raw(Some(100), Some("b")), "a", 0), Err(AuthError::Unauthorized));
    assert_eq!(accept(raw(None, Some("a")), "a", 0), Err(AuthError::Unauthorized));
    assert_eq!(accept(raw(Some(100), None), "a", 0), Err(AuthError::Unauthorized));
    let mut no_sub = raw(Some(100), Some("a"));
    no_sub.sub = None;
    assert_eq!(accept(no_sub, "a", 0), Err(AuthError::Unauthorized));
    let mut no_iat = raw(Some(100), Some("a"));
    no_iat.iat = None;
    assert_eq!(accept(no_iat, "a", 0), Err(AuthError::Unauthorized));
    let mut no_iss = raw(Some(100), Some("a"));
    no_iss.iss = None;
    assert_eq!(accept(no_iss, "a", 0), Err(AuthError::Unauthorized));
}

#[test]
fn login_and_authorize_by_the_clock() {
    let data = state(Some(users()), "clock secret");
    let response = login(&data, &attempt("alice", "secret")).unwrap();
    let g = guard("clock secret");
    match g.authorize("/api/v1/apps", Some(&header(&response.token))) {
        Ok(Access::Granted(claims)) => {
            assert_eq!(claims.sub(), "alice");
            assert_eq!(claims.exp(), claims.iat() + 3600);
            assert_eq!(claims.iss(), "kafka-repo-iss");
            assert_eq!(claims.aud(), "kafka-repo-service-aud");
        }
        other => panic!("not granted: {:?}", other),
    }
    let old = token_at("clock secret", T0);
    assert_eq!(g.authorize("/api/v1/apps", Some(&header(&old))), Err(AuthError::Unauthorized));
    assert_eq!(*g.service(), ());
}
