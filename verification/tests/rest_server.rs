use rust_zero::rest::config::{
    default_cpu_threshold, default_host, default_max_bytes, default_max_connections, default_port,
    default_signature_expiry_secs, default_signature_strict, default_timeout_ms, default_true,
    MiddlewaresConf, RestConf, SignatureConf,
};
use rust_zero::rest::engine::Engine;
use rust_zero::rest::middleware::cors::{allowed_headers, layer as cors_layer, layer_allow_headers, AllowOrigin};
use rust_zero::rest::middleware::jwt::{
    authorize, bearer_token, state as jwt_state, token_accepted, verdict, AuthHeader, AuthRejection, ExpClaim,
};
use rust_zero::rest::middleware::max_bytes::{layer as max_bytes_layer, BodyLimit};
use rust_zero::rest::middleware::timeout::state as timeout_state;
use rust_zero::rest::server::{Layer, LayerScope, Router, Server};
use rust_zero::rest::middleware::not_found::apply;
use rust_zero::rest::web::{outcome, Chain, HttpMethod, Outcome, Stage};

#[test]
fn config_default_helpers() {
    assert_eq!(default_host(), "0.0.0.0");
    assert_eq!(default_port(), 8888);
    assert_eq!(default_max_connections(), 10_000);
    assert_eq!(default_max_bytes(), 1_048_576);
    assert_eq!(default_timeout_ms(), 3_000);
    assert_eq!(default_cpu_threshold(), 900);
    assert!(default_true());
    assert!(!default_signature_strict());
    assert_eq!(default_signature_expiry_secs(), 3600);
    let m = MiddlewaresConf::default();
    assert!(m.trace && m.log && m.timeout && m.max_bytes && m.gunzip);
    let s = SignatureConf::default();
    assert!(s.private_keys.is_empty());
}

#[test]
fn config_address_and_validation() {
    let mut c = RestConf::default();
    assert_eq!(c.addr_string(), "0.0.0.0:8888");
    assert!(c.validate().is_ok());
    c.cpu_threshold = 1000;
    assert_eq!(c.validate().unwrap_err(), "CpuThreshold out of range [0,1000): 1000");
    c.cpu_threshold = -3;
    assert_eq!(c.validate().unwrap_err(), "CpuThreshold out of range [0,1000): -3");
    c.cpu_threshold = 0;
    c.port = 0;
    assert_eq!(c.validate().unwrap_err(), "Port must be > 0");
}

#[test]
fn server_refuses_invalid_conf() {
    let mut c = RestConf::default();
    c.port = 0;
    match Server::<()>::new(c) {
        Err(m) => assert_eq!(m, "Port must be > 0"),
        Ok(_) => panic!("expected a refusal"),
    }
    let s = Server::<()>::must_new(RestConf::default());
    assert_eq!(s.conf().port, 8888);
}

#[test]
fn server_collects_routes() {
    let s = Server::<u8>::new(RestConf::default()).ok().unwrap();
    let a = Router::<u8>::new().route(HttpMethod::Get, "/a".to_string());
    let b = Router::<u8>::new().route(HttpMethod::Post, "/a".to_string());
    let s = s.add_routes(a).add_route(b).with_not_found_handler();
    let r = s.into_router();
    assert!(r.has_route(HttpMethod::Get, &"/a".to_string()));
    assert!(r.has_route(HttpMethod::Post, &"/a".to_string()));
    assert!(!r.has_route(HttpMethod::Put, &"/a".to_string()));
}

#[test]
fn server_prepared_router_keeps_engine() {
    let s = Server::<()>::must_new(RestConf::default())
        .with_router(Router::new().route(HttpMethod::Delete, "/x".to_string()));
    let (engine, router) = s.prepared_router();
    assert_eq!(engine.conf.host, "0.0.0.0");
    assert!(router.has_route(HttpMethod::Delete, &"/x".to_string()));
    let s2 = Server::<u8>::must_new(RestConf::default()).with_state(7u8);
    assert!(!s2.into_router().has_route(HttpMethod::Get, &"/".to_string()));
}

#[test]
fn engine_applies_default_layers_without_touching_routes() {
    let e = Engine::new(RestConf::default());
    let r = e.apply_defaults(Router::<()>::new().route(HttpMethod::Patch, "/p".to_string()));
    assert!(r.has_route(HttpMethod::Patch, &"/p".to_string()));
    assert_eq!(Layer::Timeout { millis: 3000 }, Layer::Timeout { millis: 3000 });
}

#[test]
fn body_limit_layer() {
    assert_eq!(max_bytes_layer(0), BodyLimit::Disabled);
    assert_eq!(max_bytes_layer(-1), BodyLimit::Disabled);
    assert_eq!(max_bytes_layer(1024), BodyLimit::Max(1024));
}

#[test]
fn timeout_and_jwt_state_hold_their_value() {
    let t = timeout_state(std::time::Duration::from_millis(250));
    assert_eq!(*t, std::time::Duration::from_millis(250));
    let s = jwt_state("secret".to_string());
    assert_eq!(*s, "secret");
}

#[test]
fn cors_keeps_valid_origins() {
    let p = cors_layer(vec!["https://a.com".to_string(), "bad\norigin".to_string()]);
    match p.origins {
        AllowOrigin::List(v) => assert_eq!(v, vec!["https://a.com".to_string()]),
        AllowOrigin::Any => panic!("expected a list"),
    }
    assert!(p.allow_headers.is_none());
    assert!(matches!(cors_layer(vec![]).origins, AllowOrigin::Any));
    let q = layer_allow_headers(vec![], vec!["x-token".to_string(), "bad header".to_string()]);
    assert_eq!(q.allow_headers, Some(vec!["x-token".to_string()]));
    let r = layer_allow_headers(vec![], vec!["bad header".to_string()]);
    assert!(r.allow_headers.is_none());
}

#[test]
fn header_name_validity_follows_http() {
    let long_ok = "A".repeat(65_535);
    let too_long = "a".repeat(65_536);
    let hs = vec![
        "X-Custom_1!#$%&'*+-.^`|~\"".to_string(),
        long_ok.clone(),
        too_long,
        String::new(),
        "caf\u{e9}".to_string(),
        "a{b}".to_string(),
        "a:b".to_string(),
    ];
    let p = layer_allow_headers(vec![], hs.clone());
    assert_eq!(p.allow_headers, Some(vec![hs[0].clone(), long_ok]));
}

#[test]
fn bearer_tokens_are_extracted() {
    assert_eq!(bearer_token(&AuthHeader::Text("Bearer abc".to_string())), Ok("abc".to_string()));
    assert_eq!(bearer_token(&AuthHeader::Text("bearer xyz".to_string())), Ok("xyz".to_string()));
    assert_eq!(bearer_token(&AuthHeader::Text("Basic abc".to_string())), Err(AuthRejection::InvalidScheme));
    assert_eq!(bearer_token(&AuthHeader::Missing), Err(AuthRejection::MissingAuthorization));
    assert_eq!(bearer_token(&AuthHeader::Opaque), Err(AuthRejection::InvalidAuthorization));
    assert_eq!(AuthRejection::InvalidToken.message(), "invalid token");
}

fn token(secret: &str, exp: u64) -> String {
    let mut claims = serde_json::Map::new();
    claims.insert("sub".to_string(), serde_json::Value::String("u1".to_string()));
    claims.insert("exp".to_string(), serde_json::Value::from(exp));
    jsonwebtoken::encode(
        &jsonwebtoken::Header::default(),
        &claims,
        &jsonwebtoken::EncodingKey::from_secret(secret.as_bytes()),
    )
    .unwrap()
}

#[test]
fn authorize_checks_signature_and_expiry() {
    let good = token("s3cret", 4_000_000_000);
    assert_eq!(authorize(&AuthHeader::Text(format!("Bearer {good}")), "s3cret"), Ok(()));
    assert_eq!(
        authorize(&AuthHeader::Text(format!("Bearer {good}")), "other"),
        Err(AuthRejection::InvalidToken)
    );
    let expired = token("s3cret", 1_000);
    assert_eq!(
        authorize(&AuthHeader::Text(format!("Bearer {expired}")), "s3cret"),
        Err(AuthRejection::InvalidToken)
    );
    assert_eq!(authorize(&AuthHeader::Missing, "s3cret"), Err(AuthRejection::MissingAuthorization));
}

fn token_with_exp(secret: &str, exp: serde_json::Value) -> String {
    let mut claims = serde_json::Map::new();
    claims.insert("exp".to_string(), exp);
    jsonwebtoken::encode(
        &jsonwebtoken::Header::default(),
        &claims,
        &jsonwebtoken::EncodingKey::from_secret(secret.as_bytes()),
    )
    .unwrap()
}

#[test]
fn authorize_requires_an_integer_exp() {
    let float = token_with_exp("k", serde_json::Value::from(4_000_000_000.5f64));
    assert_eq!(authorize(&AuthHeader::Text(format!("Bearer {float}")), "k"), Err(AuthRejection::InvalidToken));
    let int = token_with_exp("k", serde_json::Value::from(4_000_000_000u64));
    assert_eq!(authorize(&AuthHeader::Text(format!("Bearer {int}")), "k"), Ok(()));
    assert!(!token_accepted(None));
    assert!(!token_accepted(Some(ExpClaim::Other)));
    assert!(token_accepted(Some(ExpClaim::Absent)));
    assert!(token_accepted(Some(ExpClaim::Null)));
    assert!(token_accepted(Some(ExpClaim::Unsigned(7))));
}

#[test]
fn http_methods_map_by_name() {
    assert_eq!(HttpMethod::from_name(http::Method::GET.as_str()), Some(HttpMethod::Get));
    assert_eq!(HttpMethod::from_name(http::Method::PATCH.as_str()), Some(HttpMethod::Patch));
    assert_eq!(HttpMethod::from_name(http::Method::OPTIONS.as_str()), None);
    assert_eq!(HttpMethod::from_name("DELETE"), Some(HttpMethod::Delete));
    assert_eq!(HttpMethod::from_name("get"), None);
}

#[test]
fn verdict_follows_header_then_token() {
    let h = AuthHeader::Text("Bearer t".to_string());
    assert_eq!(verdict(&h, true), Ok(()));
    assert_eq!(verdict(&h, false), Err(AuthRejection::InvalidToken));
    assert_eq!(verdict(&AuthHeader::Text("Token t".to_string()), true), Err(AuthRejection::InvalidScheme));
    assert_eq!(verdict(&AuthHeader::Missing, true), Err(AuthRejection::MissingAuthorization));
}

#[test]
fn allowed_headers_keep_flagged_ones() {
    let hs = vec!["a".to_string(), "b".to_string(), "c".to_string()];
    assert_eq!(allowed_headers(&hs, &vec![true, false, true]), Some(vec!["a".to_string(), "c".to_string()]));
    assert_eq!(allowed_headers(&hs, &vec![false, false, false]), None);
}

#[test]
fn dispatch_outcomes() {
    let methods = vec![HttpMethod::Get, HttpMethod::Post];
    assert_eq!(outcome("GET", &methods, true), Outcome::Handle);
    assert_eq!(outcome("GET", &methods, false), Outcome::Status(404));
    assert_eq!(outcome("PUT", &methods, true), Outcome::Status(404));
    assert_eq!(outcome("HEAD", &methods, true), Outcome::Status(405));
    assert_eq!(outcome("get", &methods, true), Outcome::Status(405));
}

#[test]
fn middlewares_then_router() {
    let c = Chain::start(2);
    let (c, s0) = c.next();
    let (c, s1) = c.next();
    let (c, s2) = c.next();
    let (_, s3) = c.next();
    assert_eq!(
        vec![s0, s1, s2, s3],
        vec![Stage::Middleware(0), Stage::Middleware(1), Stage::Router, Stage::Router]
    );
    assert_eq!(Chain::start(0).next().1, Stage::Router);
}

#[test]
fn builders_keep_conf() {
    let mut c = RestConf::default();
    c.port = 9000;
    let s = Server::<u8>::new(c).ok().unwrap()
        .with_router(Router::new().route(HttpMethod::Get, "/a".to_string()))
        .add_routes(Router::new().route(HttpMethod::Get, "/b".to_string()))
        .add_route(Router::new().route(HttpMethod::Get, "/c".to_string()))
        .use_layer(Layer::Timeout { millis: 10 })
        .with_not_found_handler();
    assert_eq!(s.conf().port, 9000);
    let r = s.into_router();
    assert!(r.has_route(HttpMethod::Get, &"/b".to_string()) && r.has_route(HttpMethod::Get, &"/c".to_string()));
}

#[test]
fn not_found_fallback_keeps_routes() {
    let r = apply(Router::<()>::new().route(HttpMethod::Put, "/p".to_string()));
    assert!(r.has_route(HttpMethod::Put, &"/p".to_string()));
    assert!(!r.has_route(HttpMethod::Get, &"/p".to_string()));
}

#[test]
fn use_layer_wraps_only_the_routes_so_far() {
    let t = Layer::Timeout { millis: 5 };
    let s = Server::<()>::must_new(RestConf::default())
        .with_router(Router::new().route(HttpMethod::Get, "/a".to_string()))
        .use_layer(t)
        .add_routes(Router::new().route(HttpMethod::Get, "/b".to_string()))
        .with_not_found_handler();
    let r = s.into_router();
    assert_eq!(r.layer_scopes(), vec![LayerScope { from: 0, to: 1, fallback: false }]);
}

#[test]
fn router_layers_and_merge_scopes() {
    let t = Layer::Timeout { millis: 5 };
    let a = Router::<()>::new().route(HttpMethod::Get, "/a".to_string()).layer(t);
    assert_eq!(a.layer_scopes(), vec![LayerScope { from: 0, to: 1, fallback: true }]);
    let b = Router::<()>::new()
        .route(HttpMethod::Get, "/b".to_string())
        .route(HttpMethod::Get, "/c".to_string())
        .route_layer(t)
        .fallback();
    let m = a.merge(b);
    assert_eq!(
        m.layer_scopes(),
        vec![LayerScope { from: 0, to: 1, fallback: false }, LayerScope { from: 1, to: 3, fallback: false }]
    );
    let f = Router::<()>::new().route(HttpMethod::Get, "/x".to_string()).layer(t).fallback();
    assert_eq!(f.layer_scopes(), vec![LayerScope { from: 0, to: 1, fallback: false }]);
}
