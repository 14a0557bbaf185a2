use rust_zero::render::RenderError;
use rust_zero::rsctl::api::prepare;
use rust_zero::rsctl::spec::{
    Annotation, AnnotationArgs, Field, HttpMethod, Route, Service, Spec, TypeDef,
};
use rust_zero::rsctl::tree::{
    actix, axum, generate_go_like_tree, relative_path, Artifacts, GenEnv, GenError, Options,
    Templates,
};

fn templates() -> Templates {
    Templates {
        context: "ctx {{.serviceName}}\n".to_string(),
        etc: "Name: {{.serviceName}}\nHost: {{.host}}\nPort: {{.port}}\n".to_string(),
        main: "{{.mainAttr}}\nfn main() {}\n".to_string(),
        config: "{{.jwtConf}}pub struct Config {\n{{.jwtField}}\n}\n// {{.jwtDefault}}\n".to_string(),
        routes: "router! {\n{{.routesAdditions}}}\n".to_string(),
        handler: "{{.handlerImports}}{{.handlers}}".to_string(),
        logic: "{{.logics}}".to_string(),
        types: "{{if .needValidate}}use validator::Validate;\n{{end}}{{.types}}".to_string(),
        middleware: "// {{.name}}\n{{.middlewareImports}}{{.middlewareHandle}}".to_string(),
    }
}

fn env() -> GenEnv {
    GenEnv {
        templates: templates(),
        version: "1.2.3".to_string(),
        rust_zero_rel: "../crates/rust-zero".to_string(),
    }
}

const USER_API: &str = r#"
@server(
  prefix: /v1
  group: user
  jwt: Auth
  middleware: Log
)
service user {
  @doc "login"
  @handler login
  post /user/login (LoginReq) returns (LoginResp)
}
"#;

fn user_tree(web: &str, style: &str) -> Result<Artifacts, GenError> {
    let p = prepare(USER_API, None, Some(style.to_string()), web).ok().unwrap();
    generate_go_like_tree(web, &p.spec, &p.service_name, true, style, &env())
}

fn file<'a>(a: &'a Artifacts, path: &str) -> &'a str {
    a.files.iter().find(|f| f.rel_path == path).map(|f| f.content.as_str()).unwrap()
}

#[test]
fn tree_lists_files_in_order() {
    let a = user_tree("axum", "rust_zero").ok().unwrap();
    let paths: Vec<&str> = a.files.iter().map(|f| f.rel_path.as_str()).collect();
    assert_eq!(
        paths,
        vec![
            "Cargo.toml",
            "etc/user.yaml",
            "user.rs",
            "config.rs",
            "svc.rs",
            "handler.rs",
            "handler/routes.rs",
            "middleware.rs",
            "middleware/prelude.rs",
            "middleware/log.rs",
            "logic.rs",
            "types.rs",
            "handler/user.rs",
            "handler/user/handler.rs",
            "logic/user.rs",
            "logic/user/logic.rs",
            "types/user.rs",
            "types/user/types.rs",
        ]
    );
}

#[test]
fn tree_cargo_toml_enables_framework_and_jwt() {
    let a = user_tree("axum", "rust_zero").ok().unwrap();
    let expected = "[package]\nname = \"rust_zero_user_axum\"\nversion = \"0.1.0\"\nedition = \"2024\"\n\n[[bin]]\nname = \"rust_zero_user_axum\"\npath = \"user.rs\"\n\n[dependencies]\nanyhow = \"1\"\naxum = \"0.6\"\nhttp = \"0.2\"\nserde = { version = \"1\", features = [\"derive\"] }\nserde_json = \"1\"\ntokio = { version = \"1\", features = [\"macros\", \"rt-multi-thread\", \"signal\"] }\ntracing = \"0.1\"\ntracing-subscriber = { version = \"0.3\", features = [\"env-filter\"] }\nrust_zero = { package = \"rust-zero\", path = \"../crates/rust-zero\", features = [\"axum\", \"jwt\"] }\n\n\n\n[workspace]\n\n";
    assert_eq!(file(&a, "Cargo.toml"), expected);
}

#[test]
fn tree_actix_cargo_toml_names_actix() {
    let a = user_tree("actix", "rust_zero").ok().unwrap();
    let c = file(&a, "Cargo.toml");
    assert!(c.contains("name = \"rust_zero_user_actix\""));
    assert!(c.contains("actix-web = \"4\"\n"));
    assert!(c.contains("features = [\"actix\", \"jwt\"] }"));
    assert_eq!(file(&a, "user.rs"), "#[actix_web::main]\nfn main() {}\n");
}

#[test]
fn tree_etc_yaml_gets_jwt_section() {
    let a = user_tree("axum", "rust_zero").ok().unwrap();
    assert_eq!(
        file(&a, "etc/user.yaml"),
        "Name: user\nHost: 0.0.0.0\nPort: 8888\n\nAuth:\n  AccessSecret: \"changeme\"\n"
    );
}

#[test]
fn tree_config_gets_jwt_struct_and_field() {
    let a = user_tree("axum", "rust_zero").ok().unwrap();
    let expected = "#[derive(Debug, Clone, Deserialize, Default)]\npub struct JwtConf {\n    #[serde(rename = \"AccessSecret\")]\n    pub access_secret: String,\n}\npub struct Config {\n#[serde(rename = \"Auth\")]\n    pub auth: JwtConf,\n}\n// auth: JwtConf { access_secret: String::new() },\n";
    assert_eq!(file(&a, "config.rs"), expected);
}

#[test]
fn tree_entry_and_svc_use_base_context() {
    let a = user_tree("axum", "rust_zero").ok().unwrap();
    assert_eq!(file(&a, "user.rs"), "#[tokio::main]\nfn main() {}\n");
    assert_eq!(file(&a, "svc.rs"), "ctx user\n");
}

#[test]
fn tree_routes_group_block_with_middleware_and_jwt() {
    let a = user_tree("axum", "rust_zero").ok().unwrap();
    let expected = "router! {\nstate $svc_ctx.clone();\ngroup \"/v1\" {\n    middleware_fn crate::middleware::log::handle;\n    middleware_state rust_zero::rest::middleware::jwt::axum_jwt::state($svc_ctx.config.auth.access_secret.clone()), rust_zero::rest::middleware::jwt::axum_jwt::auth;\n    POST \"/user/login\" => crate::handler::user::handler::login;\n}\n}\n";
    assert_eq!(file(&a, "handler/routes.rs"), expected);
}

#[test]
fn tree_module_roots() {
    let a = user_tree("axum", "rust_zero").ok().unwrap();
    assert_eq!(file(&a, "handler.rs"), "/// generated by rsctl\n\npub mod routes;\npub mod user;\n");
    assert_eq!(file(&a, "logic.rs"), "/// generated by rsctl\npub mod user;\n");
    assert_eq!(file(&a, "types.rs"), "/// generated by rsctl\npub mod user;\n");
    assert_eq!(file(&a, "middleware.rs"), "/// generated by rsctl\npub mod prelude;\npub mod log;\n");
    assert_eq!(file(&a, "middleware/prelude.rs"), "// generated by rsctl\n");
    assert_eq!(
        file(&a, "handler/user.rs"),
        "/// generated by rsctl\n#[path = \"user/handler.rs\"]\npub mod handler;\n"
    );
}

#[test]
fn tree_middleware_stub_axum() {
    let a = user_tree("axum", "rust_zero").ok().unwrap();
    let expected = "// log\nuse axum::body::Body;\nuse axum::http::Request;\nuse axum::middleware::Next;\nuse axum::response::Response;\npub async fn handle(req: Request<Body>, next: Next<Body>) -> Response {\n    // TODO: {{.name}} middleware logic\n    next.run(req).await\n}\n";
    assert_eq!(file(&a, "middleware/log.rs"), expected);
}

#[test]
fn tree_handler_body_axum() {
    let a = user_tree("axum", "rust_zero").ok().unwrap();
    let expected = "use axum::http::StatusCode;\nuse axum::response::IntoResponse;\nuse axum::Extension;\nuse axum::Json;\n/// login\npub async fn login(\n    Extension(svc_ctx): Extension<Arc<ServiceContext>>,\n    Json(req): Json<crate::types::user::types::LoginReq>,\n) -> impl IntoResponse {\n    let l = crate::logic::user::logic::LoginLogic::new(svc_ctx.clone());\n    match l.login(req).await {\n        Ok(resp) => Json(resp).into_response(),\n        Err(e) => (StatusCode::INTERNAL_SERVER_ERROR, e.to_string()).into_response(),\n    }\n}\n\n";
    assert_eq!(file(&a, "handler/user/handler.rs"), expected);
}

#[test]
fn tree_handler_body_actix() {
    let a = user_tree("actix", "rust_zero").ok().unwrap();
    let expected = "use actix_web::HttpResponse;\nuse actix_web::web;\n/// login\npub async fn login(\n    svc_ctx: web::Data<Arc<ServiceContext>>,\n    req: web::Json<crate::types::user::types::LoginReq>,\n) -> HttpResponse {\n    let l = crate::logic::user::logic::LoginLogic::new(svc_ctx.get_ref().clone());\n    match l.login(req.into_inner()).await {\n        Ok(resp) => HttpResponse::Ok().json(resp),\n        Err(e) => HttpResponse::InternalServerError().body(e.to_string()),\n    }\n}\n\n";
    assert_eq!(file(&a, "handler/user/handler.rs"), expected);
}

#[test]
fn tree_logic_body() {
    let a = user_tree("axum", "rust_zero").ok().unwrap();
    let expected = "pub struct LoginLogic {\n    svc_ctx: Arc<ServiceContext>,\n}\n\nimpl LoginLogic {\n    pub fn new(svc_ctx: Arc<ServiceContext>) -> Self {\n        Self { svc_ctx }\n    }\n\n    #[instrument(skip_all)]\n    pub async fn login(&self, req: crate::types::user::types::LoginReq) -> anyhow::Result<crate::types::user::types::LoginResp> {\n        let _ = &self.svc_ctx;\n        // todo: add your logic here and delete this line\n\n        Ok(crate::types::user::types::LoginResp::default())\n    }\n}\n\n";
    assert_eq!(file(&a, "logic/user/logic.rs"), expected);
}

#[test]
fn tree_types_for_undeclared_names_are_empty_structs() {
    let a = user_tree("axum", "rust_zero").ok().unwrap();
    let expected = "#[derive(Debug, Clone, Serialize, Deserialize, Default)]\npub struct LoginReq {}\n\n#[derive(Debug, Clone, Serialize, Deserialize, Default)]\npub struct LoginResp {}\n";
    assert_eq!(file(&a, "types/user/types.rs"), expected);
}

#[test]
fn tree_style_names_group_files() {
    let src = "service user_center {\n  @handler get_info\n  get /info\n}\n";
    let p = prepare(src, None, None, "axum").ok().unwrap();
    let a = generate_go_like_tree("axum", &p.spec, &p.service_name, true, "RustZero", &env()).ok().unwrap();
    assert_eq!(
        file(&a, "handler.rs"),
        "/// generated by rsctl\n\npub mod routes;\n#[path = \"handler/UserCenter.rs\"]\npub mod user_center;\n"
    );
    assert!(a.files.iter().any(|f| f.rel_path == "handler/UserCenter.rs"));
    assert!(a.files.iter().any(|f| f.rel_path == "handler/user_center/handler.rs"));
    let b = generate_go_like_tree("axum", &p.spec, &p.service_name, true, "rustZero", &env()).ok().unwrap();
    assert!(b.files.iter().any(|f| f.rel_path == "logic/userCenter.rs"));
}

#[test]
fn tree_unsupported_style_is_refused() {
    match user_tree("axum", "kebab") {
        Err(GenError::Style(m)) => {
            assert_eq!(m, "unsupported style: kebab (expected rust_zero|rustZero|RustZero)")
        }
        _ => panic!("expected a style error"),
    }
}

#[test]
fn tree_render_error_names_template() {
    let p = prepare(USER_API, None, None, "axum").ok().unwrap();
    let mut e = env();
    e.templates.main = "{{if .mainAttr}}never closed".to_string();
    match generate_go_like_tree("axum", &p.spec, &p.service_name, true, "rust_zero", &e) {
        Err(GenError::Render(name, err)) => {
            assert_eq!(name, "main.tpl");
            assert_eq!(err, RenderError::UnclosedIf);
            let g = GenError::Render(name, err);
            assert_eq!(g.message(), "render main.tpl: unclosed {if} block");
        }
        _ => panic!("expected a render error"),
    }
}

#[test]
fn tree_duplicate_route_same_priority_is_refused() {
    let src = "service user {\n  @handler a\n  get /x\n}\nservice user {\n  @handler b\n  get /x\n}\n";
    let p = prepare(src, None, None, "axum").ok().unwrap();
    match generate_go_like_tree("axum", &p.spec, &p.service_name, true, "rust_zero", &env()) {
        Err(GenError::DuplicateRoute(k)) => {
            assert_eq!(k, "GET /x");
            let g = GenError::DuplicateRoute(k);
            assert_eq!(
                g.message(),
                "duplicate route detected with same priority: `GET /x`.\nPlease remove duplicates or keep only one @server(...) variant."
            );
        }
        _ => panic!("expected a duplicate route"),
    }
}

#[test]
fn tree_higher_priority_block_owns_route() {
    let src = "service user {\n  @handler a\n  get /x\n}\n@server(jwt: Auth)\nservice user {\n  @handler b\n  get /x\n}\n";
    let p = prepare(src, None, None, "axum").ok().unwrap();
    let a = generate_go_like_tree("axum", &p.spec, &p.service_name, true, "rust_zero", &env()).ok().unwrap();
    let routes = file(&a, "handler/routes.rs");
    assert!(routes.contains("GET \"/x\" => crate::handler::user::handler::b;"));
    assert!(!routes.contains("handler::a;"));
}

#[test]
fn tree_axum_and_actix_entry_points() {
    let p = prepare(USER_API, None, None, "axum").ok().unwrap();
    let opts = Options {
        service_name: p.service_name.clone(),
        merge: true,
        style: "rust_zero".to_string(),
        out_dir: "out".to_string(),
        template_root: "templates".to_string(),
    };
    let a = axum::generate(&p.spec, &opts, &env()).ok().unwrap();
    assert!(file(&a, "Cargo.toml").contains("rust_zero_user_axum"));
    let b = actix::generate(&p.spec, &opts, &env()).ok().unwrap();
    assert!(file(&b, "Cargo.toml").contains("rust_zero_user_actix"));
}

#[test]
fn tree_split_puts_one_handler_per_file() {
    let src = "@server(group: user)\nservice s {\n  @handler login\n  post /login (LoginReq)\n  @handler logout\n  post /logout\n}\n";
    let p = prepare(src, None, None, "axum").ok().unwrap();
    let merged = generate_go_like_tree("axum", &p.spec, &p.service_name, true, "rust_zero", &env()).ok().unwrap();
    let split = generate_go_like_tree("axum", &p.spec, &p.service_name, false, "rust_zero", &env()).ok().unwrap();
    assert_eq!(merged.files.len(), 11 + 6);
    assert_eq!(split.files.len(), 11 + 6 + 2 * 2);
    let paths: Vec<&str> = split.files.iter().skip(11).map(|f| f.rel_path.as_str()).collect();
    assert_eq!(
        paths,
        vec![
            "handler/user.rs",
            "handler/user/handler.rs",
            "handler/user/login.rs",
            "handler/user/logout.rs",
            "logic/user.rs",
            "logic/user/logic.rs",
            "logic/user/login.rs",
            "logic/user/logout.rs",
            "types/user.rs",
            "types/user/types.rs",
        ]
    );
    let modules = "/// generated by rsctl\n#[path = \"login.rs\"]\nmod login;\npub use login::*;\n#[path = \"logout.rs\"]\nmod logout;\npub use logout::*;\n";
    assert_eq!(file(&split, "handler/user/handler.rs"), modules);
    assert_eq!(file(&split, "logic/user/logic.rs"), modules);
    let login = file(&split, "handler/user/login.rs");
    assert!(login.contains("pub async fn login("));
    assert!(!login.contains("pub async fn logout("));
    assert!(file(&split, "logic/user/logout.rs").contains("pub struct LogoutLogic"));
    let merged_body = file(&merged, "handler/user/handler.rs");
    assert!(merged_body.contains("pub async fn login(") && merged_body.contains("pub async fn logout("));
    // everything outside the groups is the same either way
    for (x, y) in merged.files.iter().take(11).zip(split.files.iter().take(11)) {
        assert_eq!(x.rel_path, y.rel_path);
        assert_eq!(x.content, y.content);
    }
    assert_eq!(file(&merged, "types/user/types.rs"), file(&split, "types/user/types.rs"));
}

#[test]
fn tree_shape_counts_files() {
    let src = "@server(group: a middleware: M1)\nservice s {\n  @handler h1\n  get /a\n}\n@server(group: b middleware: M2)\nservice s {\n  @handler h2\n  get /b\n}\n";
    let p = prepare(src, None, None, "axum").ok().unwrap();
    let a = generate_go_like_tree("axum", &p.spec, &p.service_name, true, "rust_zero", &env()).ok().unwrap();
    assert_eq!(a.files.len(), 11 + 2 + 6 * 2);
    assert_eq!(a.files[0].rel_path, "Cargo.toml");
    assert_eq!(a.files[2].rel_path, "s.rs");
}

fn ann(name: &str, args: AnnotationArgs) -> Annotation {
    Annotation { name: name.to_string(), args }
}

fn field(name: &str, ty: &str, tag: Option<&str>) -> Field {
    Field { name: name.to_string(), ty: ty.to_string(), tag: tag.map(|t| t.to_string()) }
}

#[test]
fn tree_types_follow_declared_fields_and_validation() {
    let spec = Spec {
        services: vec![Service {
            name: "shop".to_string(),
            annotations: vec![],
            routes: vec![Route {
                annotations: vec![ann("handler", AnnotationArgs::Str("create".to_string()))],
                method: HttpMethod::Post,
                path: "/orders".to_string(),
                request: Some("CreateReq".to_string()),
                response: Some("[]Order".to_string()),
            }],
        }],
        routes: vec![],
        types: vec![
            TypeDef {
                name: "CreateReq".to_string(),
                fields: vec![
                    field("Name", "string", Some("json:\"name\",validate:\"min=1,max=8\"")),
                    field("Items", "[]Item", Some("json:\"items\"")),
                ],
            },
            TypeDef { name: "Item".to_string(), fields: vec![field("Qty", "int", None)] },
            TypeDef { name: "Order".to_string(), fields: vec![field("Id", "int64", Some("form:\"id\""))] },
        ],
    };
    let a = generate_go_like_tree("axum", &spec, "shop", true, "rust_zero", &env()).ok().unwrap();
    let expected = "use validator::Validate;\n#[derive(Debug, Clone, Serialize, Deserialize, Validate, Default)]\npub struct CreateReq {\n    #[serde(rename = \"name\")]\n    #[validate(length(min = 1, max = 8))]\n    pub name: String,\n    #[serde(rename = \"items\")]\n    pub items: Vec<crate::types::shop::types::Item>,\n}\n\n#[derive(Debug, Clone, Serialize, Deserialize, Default)]\npub struct Item {\n    pub qty: i64,\n}\n\n#[derive(Debug, Clone, Serialize, Deserialize, Default)]\npub struct Order {\n    #[serde(rename = \"id\")]\n    pub id: i64,\n}\n";
    assert_eq!(file(&a, "types/shop/types.rs"), expected);
    let h = file(&a, "handler/shop/handler.rs");
    assert!(h.contains("    if let Err(e) = req.validate() {\n        return (StatusCode::BAD_REQUEST, e.to_string()).into_response();\n    }\n\n"));
    let l = file(&a, "logic/shop/logic.rs");
    assert!(l.contains("-> anyhow::Result<Vec<crate::types::shop::types::Order>> {"));
    assert!(l.contains("        Ok(Vec::new())\n"));
    let c = file(&a, "Cargo.toml");
    assert!(c.contains("validator = { version = \"0.19\", features = [\"derive\"] }\n"));
}

#[test]
fn tree_healthz_logic_returns_ok_response() {
    let spec = Spec {
        services: vec![Service {
            name: "api".to_string(),
            annotations: vec![],
            routes: vec![Route {
                annotations: vec![ann("handler", AnnotationArgs::Str("healthz".to_string()))],
                method: HttpMethod::Get,
                path: "/healthz".to_string(),
                request: None,
                response: Some("HealthzResp".to_string()),
            }],
        }],
        routes: vec![],
        types: vec![],
    };
    let a = generate_go_like_tree("axum", &spec, "api", true, "rust_zero", &env()).ok().unwrap();
    let l = file(&a, "logic/api/logic.rs");
    assert!(l.contains("        Ok(crate::types::api::types::HealthzResp { code: 0, message: \"ok\".to_string(), data: Default::default() })\n"));
    assert!(l.contains("    pub async fn healthz(&self) -> anyhow::Result<crate::types::api::types::HealthzResp> {"));
    let h = file(&a, "handler/api/handler.rs");
    assert!(h.contains("    match l.healthz().await {\n        Ok(resp) => Json(resp).into_response(),"));
}

#[test]
fn tree_single_type_of_a_route_is_its_request() {
    let src = "service api {\n  @handler healthz\n  get /healthz returns (HealthzResp)\n}\n";
    let p = prepare(src, None, None, "axum").ok().unwrap();
    assert_eq!(p.spec.services[0].routes[0].request, Some("HealthzResp".to_string()));
    assert_eq!(p.spec.services[0].routes[0].response, None);
    let a = generate_go_like_tree("axum", &p.spec, &p.service_name, true, "rust_zero", &env()).ok().unwrap();
    let l = file(&a, "logic/api/logic.rs");
    assert!(l.contains("    pub async fn healthz(&self, req: crate::types::api::types::HealthzResp) -> anyhow::Result<()> {"));
    assert!(l.contains("        Ok(())\n"));
}

#[test]
fn relative_path_walks_up_then_down() {
    let v = |xs: &[&str]| xs.iter().map(|s| s.to_string()).collect::<Vec<String>>();
    assert_eq!(
        relative_path(&v(&["/", "repo", "tests", "out"]), &v(&["/", "repo", "crates", "rust-zero"])),
        v(&["..", "..", "crates", "rust-zero"])
    );
    assert_eq!(relative_path(&v(&["/", "a"]), &v(&["/", "a"])), v(&["."]));
    assert_eq!(relative_path(&v(&["a"]), &v(&["b", "c"])), v(&["b", "c"]));
}
