use rust_zero::rsctl::gen::{
    effective_group, route_handler_name, service_group_name, service_jwt, service_middleware,
    service_prefix,
};
use rust_zero::rsctl::parse::{parse, unquote, unquote_if_needed, AnnotationArgs, Item};
use rust_zero::rsctl::semantic::{parse_method, to_spec, SemanticError};
use rust_zero::rsctl::spec::{self, HttpMethod};

const SAMPLE: &str = r#"
@server(
  prefix: /v1
  group: Foo
  jwt: Auth
)
service user {
  @doc "login"
  @handler login
  post /user/login (LoginReq) returns (LoginResp)

  @handler getUserInfo
  GET /user/info/:id (GetUserInfoReq) returns (GetUserInfoResp)
}

@doc "ping"
get /ping
"#;

#[test]
fn parse_reads_services_routes_and_annotations() {
    let ast = parse(SAMPLE).unwrap();
    assert_eq!(ast.items.len(), 2);
    match &ast.items[0] {
        Item::Service(s) => {
            assert_eq!(s.name, "user");
            assert_eq!(s.annotations.len(), 1);
            assert_eq!(s.annotations[0].name, "server");
            match &s.annotations[0].args {
                AnnotationArgs::KeyValues(kvs) => {
                    assert_eq!(kvs.len(), 3);
                    assert_eq!(kvs[0], ("prefix".to_string(), "/v1".to_string()));
                    assert_eq!(kvs[2], ("jwt".to_string(), "Auth".to_string()));
                }
                _ => panic!("expected key/value arguments"),
            }
            assert_eq!(s.routes.len(), 2);
            assert_eq!(s.routes[0].method, "post");
            assert_eq!(s.routes[0].path, "/user/login");
            assert_eq!(s.routes[0].request, Some("LoginReq".to_string()));
            assert_eq!(s.routes[0].response, Some("LoginResp".to_string()));
            match &s.routes[0].annotations[0].args {
                AnnotationArgs::Str(d) => assert_eq!(d, "login"),
                _ => panic!("expected a value"),
            }
        }
        _ => panic!("expected a service"),
    }
    match &ast.items[1] {
        Item::Route(r) => {
            assert_eq!(r.path, "/ping");
            assert_eq!(r.request, None);
        }
        _ => panic!("expected a route"),
    }
}

#[test]
fn parse_errors_report_an_offset() {
    let e = parse("service user {\n  get /x\n").unwrap_err();
    assert!(e.offset <= 24);
    assert!(parse("@").is_err());
}

#[test]
fn unquoting() {
    assert_eq!(unquote("\"a\\\"b\""), "a\"b");
    assert_eq!(unquote_if_needed("\"x\""), "x");
    assert_eq!(unquote_if_needed("x"), "x");
}

#[test]
fn semantic_normalises_methods() {
    let ast = parse(SAMPLE).unwrap();
    let sp = to_spec(&ast).unwrap();
    assert_eq!(sp.services.len(), 1);
    assert_eq!(sp.routes.len(), 1);
    assert!(sp.types.is_empty());
    assert_eq!(sp.services[0].routes[1].method, HttpMethod::Get);
    assert_eq!(sp.services[0].routes[0].method, HttpMethod::Post);
    assert!(matches!(parse_method("Patch"), Ok(HttpMethod::Patch)));
    match parse_method("TRACE") {
        Err(SemanticError::UnsupportedMethod(m)) => assert_eq!(m, "trace"),
        _ => panic!("expected an unsupported method"),
    }
    assert_eq!(
        SemanticError::UnsupportedMethod("trace".to_string()).message(),
        "unsupported http method: trace"
    );
}

#[test]
fn generator_reads_server_annotations() {
    let sp = to_spec(&parse(SAMPLE).unwrap()).unwrap();
    let s: &spec::Service = &sp.services[0];
    assert_eq!(service_group_name(s), Some("Foo".to_string()));
    assert_eq!(effective_group(s), "Foo");
    assert_eq!(service_prefix(s), Some("/v1".to_string()));
    assert_eq!(service_jwt(s), Some("Auth".to_string()));
    assert_eq!(service_middleware(s), None);
    assert_eq!(route_handler_name(&s.routes[1]), Some("getUserInfo".to_string()));
    let bare = to_spec(&parse("service plain {\n  get /a\n}\n").unwrap()).unwrap();
    assert_eq!(effective_group(&bare.services[0]), "plain");
    assert_eq!(route_handler_name(&bare.services[0].routes[0]), None);
}
