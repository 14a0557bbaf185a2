//! The fixed files of a generated project: `Cargo.toml`, the configuration
//! additions for JWT, the module roots and the middleware stubs.
use vstd::prelude::*;
use crate::render::{Context, ValV};
use crate::rsctl::naming::{
    group_file_base_chars, group_file_base_spec, join, join_with, mod_decl_chars, mod_decl_spec,
    Style,
};
use crate::text::{
    chars_of, extend, extend_str, eq_str, find_from, find_from_exec, lemma_find_from_spec, lower,
    string_of, upper_char, upper_char_exec,
};

verus! {

/// The generator targets actix-web for `actix`, axum for any other name.
pub open spec fn is_actix(fw: Seq<char>) -> bool {
    fw == "actix"@
}

pub fn is_actix_exec(fw: &str) -> (b: bool)
    ensures
        b == is_actix(fw@),
{
    let v = chars_of(fw);
    eq_str(&v, "actix")
}

pub open spec fn main_attr(fw: Seq<char>) -> Seq<char> {
    if is_actix(fw) {
        "#[actix_web::main]"@
    } else {
        "#[tokio::main]"@
    }
}

pub open spec fn handler_imports(fw: Seq<char>) -> Seq<char> {
    if is_actix(fw) {
        "use actix_web::HttpResponse;\nuse actix_web::web;\n"@
    } else {
        "use axum::http::StatusCode;\nuse axum::response::IntoResponse;\nuse axum::Extension;\nuse axum::Json;\n"@
    }
}

pub open spec fn server_start(fw: Seq<char>) -> Seq<char> {
    if is_actix(fw) {
        "    rust_zero::rest::server::start(engine, app)\n        .await\n        .map_err(anyhow::Error::from)\n        .context(\"actix serve\")?;"@
    } else {
        "    rust_zero::rest::server::start(engine, app).await.context(\"axum serve\")?;"@
    }
}

/// The variables every template sees.
pub open spec fn base_vars(version: Seq<char>, svc: Seq<char>, fw: Seq<char>) -> Map<Seq<char>, ValV> {
    Map::<Seq<char>, ValV>::empty().insert(lower("version"@), ValV::Str(version)).insert(
        lower("serviceName"@),
        ValV::Str(svc),
    ).insert(lower("host"@), ValV::Str("0.0.0.0"@)).insert(lower("port"@), ValV::Str("8888"@)).insert(
        lower("importPackages"@),
        ValV::Str(Seq::empty()),
    ).insert(lower("ImportPackages"@), ValV::Str(Seq::empty())).insert(
        lower("imports"@),
        ValV::Str(Seq::empty()),
    ).insert(lower("configImport"@), ValV::Str(Seq::empty())).insert(
        lower("config"@),
        ValV::Str("crate::config::Config"@),
    ).insert(lower("middleware"@), ValV::Str(Seq::empty())).insert(
        lower("middlewareAssignment"@),
        ValV::Str(Seq::empty()),
    ).insert(lower("mainAttr"@), ValV::Str(main_attr(fw))).insert(
        lower("handlerImports"@),
        ValV::Str(handler_imports(fw)),
    ).insert(lower("serverStart"@), ValV::Str(server_start(fw)))
}

fn text_of(s: &str) -> (r: String)
    ensures
        r@ == s@,
{
    String::from_str(s)
}

/// The base template context.
pub fn base_context(version: &str, svc: &str, fw: &str) -> (c: Context)
    ensures
        c.vars() == base_vars(version@, svc@, fw@),
{
    let actix = is_actix_exec(fw);
    let main_attr_s = if actix {
        "#[actix_web::main]"
    } else {
        "#[tokio::main]"
    };
    let imports = if actix {
        "use actix_web::HttpResponse;\nuse actix_web::web;\n"
    } else {
        "use axum::http::StatusCode;\nuse axum::response::IntoResponse;\nuse axum::Extension;\nuse axum::Json;\n"
    };
    let start = if actix {
        "    rust_zero::rest::server::start(engine, app)\n        .await\n        .map_err(anyhow::Error::from)\n        .context(\"actix serve\")?;"
    } else {
        "    rust_zero::rest::server::start(engine, app).await.context(\"axum serve\")?;"
    };
    Context::new().set_str("version", text_of(version)).set_str("serviceName", text_of(svc)).set_str(
        "host",
        text_of("0.0.0.0"),
    ).set_str("port", text_of("8888")).set_str("importPackages", String::new()).set_str(
        "ImportPackages",
        String::new(),
    ).set_str("imports", String::new()).set_str("configImport", String::new()).set_str(
        "config",
        text_of("crate::config::Config"),
    ).set_str("middleware", String::new()).set_str("middlewareAssignment", String::new()).set_str(
        "mainAttr",
        text_of(main_attr_s),
    ).set_str("handlerImports", text_of(imports)).set_str("serverStart", text_of(start))
}

// ---------------------------------------------------------------------------
// Cargo.toml
// ---------------------------------------------------------------------------

/// `rust_zero_<service>_<framework>`.
pub open spec fn project_name(svc: Seq<char>, fw: Seq<char>) -> Seq<char> {
    "rust_zero_"@ + svc + "_"@ + fw
}

pub open spec fn framework_dep(fw: Seq<char>) -> Seq<char> {
    if is_actix(fw) {
        "actix-web = \"4\""@
    } else {
        "axum = \"0.6\""@
    }
}

/// The features of the `rust-zero` dependency: the framework, and `jwt` when a
/// block declares `@server(jwt: ...)`.
pub open spec fn rest_features(fw: Seq<char>, jwt: bool) -> Seq<char> {
    if is_actix(fw) {
        if jwt {
            "[\"actix\", \"jwt\"]"@
        } else {
            "[\"actix\"]"@
        }
    } else if jwt {
        "[\"axum\", \"jwt\"]"@
    } else {
        "[\"axum\"]"@
    }
}

pub open spec fn validator_dep(validator: bool) -> Seq<char> {
    if validator {
        "validator = { version = \"0.19\", features = [\"derive\"] }"@
    } else {
        Seq::empty()
    }
}

/// The generated `Cargo.toml`.
pub open spec fn cargo_toml(
    svc: Seq<char>,
    fw: Seq<char>,
    jwt: bool,
    validator: bool,
    rust_zero_rel: Seq<char>,
) -> Seq<char> {
    let pn = project_name(svc, fw);
    "[package]\nname = \""@ + pn + "\"\nversion = \"0.1.0\"\nedition = \"2024\"\n\n[[bin]]\nname = \""@
        + pn + "\"\npath = \""@ + svc + ".rs\"\n\n[dependencies]\nanyhow = \"1\"\n"@
        + framework_dep(fw)
        + "\nhttp = \"0.2\"\nserde = { version = \"1\", features = [\"derive\"] }\nserde_json = \"1\"\ntokio = { version = \"1\", features = [\"macros\", \"rt-multi-thread\", \"signal\"] }\ntracing = \"0.1\"\ntracing-subscriber = { version = \"0.3\", features = [\"env-filter\"] }\nrust_zero = { package = \"rust-zero\", path = \""@
        + rust_zero_rel + "\", features = "@ + rest_features(fw, jwt) + " }\n"@ + validator_dep(
        validator,
    ) + "\n\n\n[workspace]\n\n"@
}

pub fn cargo_toml_exec(svc: &str, fw: &str, jwt: bool, validator: bool, rust_zero_rel: &str) -> (r:
    String)
    ensures
        r@ == cargo_toml(svc@, fw@, jwt, validator, rust_zero_rel@),
{
    let actix = is_actix_exec(fw);
    let mut pn = chars_of("rust_zero_");
    extend_str(&mut pn, svc);
    extend_str(&mut pn, "_");
    extend_str(&mut pn, fw);
    let mut out = chars_of("[package]\nname = \"");
    extend(&mut out, &pn);
    extend_str(&mut out, "\"\nversion = \"0.1.0\"\nedition = \"2024\"\n\n[[bin]]\nname = \"");
    extend(&mut out, &pn);
    extend_str(&mut out, "\"\npath = \"");
    extend_str(&mut out, svc);
    extend_str(&mut out, ".rs\"\n\n[dependencies]\nanyhow = \"1\"\n");
    if actix {
        extend_str(&mut out, "actix-web = \"4\"");
    } else {
        extend_str(&mut out, "axum = \"0.6\"");
    }
    extend_str(
        &mut out,
        "\nhttp = \"0.2\"\nserde = { version = \"1\", features = [\"derive\"] }\nserde_json = \"1\"\ntokio = { version = \"1\", features = [\"macros\", \"rt-multi-thread\", \"signal\"] }\ntracing = \"0.1\"\ntracing-subscriber = { version = \"0.3\", features = [\"env-filter\"] }\nrust_zero = { package = \"rust-zero\", path = \"",
    );
    extend_str(&mut out, rust_zero_rel);
    extend_str(&mut out, "\", features = ");
    if actix {
        if jwt {
            extend_str(&mut out, "[\"actix\", \"jwt\"]");
        } else {
            extend_str(&mut out, "[\"actix\"]");
        }
    } else if jwt {
        extend_str(&mut out, "[\"axum\", \"jwt\"]");
    } else {
        extend_str(&mut out, "[\"axum\"]");
    }
    extend_str(&mut out, " }\n");
    if validator {
        extend_str(&mut out, "validator = { version = \"0.19\", features = [\"derive\"] }");
    }
    extend_str(&mut out, "\n\n\n[workspace]\n\n");
    string_of(&out)
}

// ---------------------------------------------------------------------------
// JWT configuration
// ---------------------------------------------------------------------------

/// The first character ASCII-uppercased: the YAML key of a JWT section.
pub open spec fn cap_first(j: Seq<char>) -> Seq<char> {
    if j.len() == 0 {
        j
    } else {
        seq![upper_char(j[0])] + j.drop_first()
    }
}

pub fn cap_first_exec(j: &Vec<char>) -> (r: Vec<char>)
    ensures
        r@ == cap_first(j@),
{
    if j.len() == 0 {
        return Vec::new();
    }
    let mut r: Vec<char> = Vec::new();
    r.push(upper_char_exec(j[0]));
    let mut i: usize = 1;
    while i < j.len()
        invariant
            1 <= i <= j.len(),
            r@ == seq![upper_char(j@[0])] + j@.subrange(1, i as int),
        decreases j.len() - i,
    {
        r.push(j[i]);
        i = i + 1;
    }
    assert(j@.subrange(1, j.len() as int) == j@.drop_first());
    r
}

/// One `Key:\n  AccessSecret: "changeme"\n` section per JWT name.
pub open spec fn jwt_sections(js: Seq<Seq<char>>) -> Seq<char>
    decreases js.len(),
{
    if js.len() == 0 {
        Seq::empty()
    } else {
        jwt_sections(js.drop_last()) + cap_first(js.last()) + ":\n  AccessSecret: \"changeme\"\n"@
    }
}

/// What follows the rendered `etc.tpl`: nothing without JWT, else a blank line and the sections.
pub open spec fn etc_suffix(js: Seq<Seq<char>>) -> Seq<char> {
    if js.len() == 0 {
        Seq::empty()
    } else {
        "\n"@ + jwt_sections(js)
    }
}

pub fn etc_suffix_exec(js: &Vec<Vec<char>>) -> (r: Vec<char>)
    ensures
        r@ == etc_suffix(js@.map_values(|v: Vec<char>| v@)),
{
    let ghost jv = js@.map_values(|v: Vec<char>| v@);
    if js.len() == 0 {
        return Vec::new();
    }
    let mut out = chars_of("\n");
    let ghost head = out@;
    let mut i: usize = 0;
    while i < js.len()
        invariant
            i <= js.len(),
            jv == js@.map_values(|v: Vec<char>| v@),
            head == "\n"@,
            out@ == head + jwt_sections(jv.subrange(0, i as int)),
        decreases js.len() - i,
    {
        assert(jv.subrange(0, i + 1).drop_last() == jv.subrange(0, i as int));
        assert(jv.subrange(0, i + 1).last() == js@[i as int]@);
        let k = cap_first_exec(&js[i]);
        extend(&mut out, &k);
        extend_str(&mut out, ":\n  AccessSecret: \"changeme\"\n");
        i = i + 1;
    }
    assert(jv.subrange(0, js.len() as int) == jv);
    out
}

pub open spec fn jwt_conf_text() -> Seq<char> {
    "#[derive(Debug, Clone, Deserialize, Default)]\npub struct JwtConf {\n    #[serde(rename = \"AccessSecret\")]\n    pub access_secret: String,\n}\n"@
}

pub open spec fn jwt_field_item(j: Seq<char>) -> Seq<char> {
    "#[serde(rename = \""@ + cap_first(j) + "\")]\n    pub "@ + j + ": JwtConf,"@
}

pub open spec fn jwt_default_item(j: Seq<char>) -> Seq<char> {
    j + ": JwtConf { access_secret: String::new() },"@
}

/// The variables `config.tpl` sees: the base ones and the JWT struct, fields and defaults.
pub open spec fn config_vars(base: Map<Seq<char>, ValV>, js: Seq<Seq<char>>) -> Map<Seq<char>, ValV> {
    if js.len() == 0 {
        base.insert(lower("jwtConf"@), ValV::Str(Seq::empty())).insert(
            lower("jwtField"@),
            ValV::Str(Seq::empty()),
        ).insert(lower("jwtDefault"@), ValV::Str(Seq::empty()))
    } else {
        base.insert(lower("jwtConf"@), ValV::Str(jwt_conf_text())).insert(
            lower("jwtField"@),
            ValV::Str(join(js.map_values(|j: Seq<char>| jwt_field_item(j)), "\n\n"@)),
        ).insert(
            lower("jwtDefault"@),
            ValV::Str(join(js.map_values(|j: Seq<char>| jwt_default_item(j)), "\n            "@)),
        )
    }
}

pub fn config_context(base: &Context, js: &Vec<Vec<char>>) -> (c: Context)
    ensures
        c.vars() == config_vars(base.vars(), js@.map_values(|v: Vec<char>| v@)),
{
    let ghost jv = js@.map_values(|v: Vec<char>| v@);
    if js.len() == 0 {
        return base.clone().set_str("jwtConf", String::new()).set_str("jwtField", String::new()).set_str(
            "jwtDefault",
            String::new(),
        );
    }
    let mut fields: Vec<Vec<char>> = Vec::new();
    let mut defaults: Vec<Vec<char>> = Vec::new();
    let mut i: usize = 0;
    while i < js.len()
        invariant
            i <= js.len(),
            jv == js@.map_values(|v: Vec<char>| v@),
            fields@.len() == i,
            defaults@.len() == i,
            forall|k: int| 0 <= k < i ==> (#[trigger] fields@[k])@ == jwt_field_item(jv[k]),
            forall|k: int| 0 <= k < i ==> (#[trigger] defaults@[k])@ == jwt_default_item(jv[k]),
        decreases js.len() - i,
    {
        let k = cap_first_exec(&js[i]);
        let mut f = chars_of("#[serde(rename = \"");
        extend(&mut f, &k);
        extend_str(&mut f, "\")]\n    pub ");
        extend(&mut f, &js[i]);
        extend_str(&mut f, ": JwtConf,");
        fields.push(f);
        let mut d: Vec<char> = Vec::new();
        extend(&mut d, &js[i]);
        extend_str(&mut d, ": JwtConf { access_secret: String::new() },");
        defaults.push(d);
        i = i + 1;
    }
    assert(fields@.map_values(|v: Vec<char>| v@) =~= jv.map_values(|j: Seq<char>| jwt_field_item(j)));
    assert(defaults@.map_values(|v: Vec<char>| v@) =~= jv.map_values(
        |j: Seq<char>| jwt_default_item(j),
    ));
    let fj = join_with(&fields, "\n\n");
    let dj = join_with(&defaults, "\n            ");
    base.clone().set_str(
        "jwtConf",
        text_of(
            "#[derive(Debug, Clone, Deserialize, Default)]\npub struct JwtConf {\n    #[serde(rename = \"AccessSecret\")]\n    pub access_secret: String,\n}\n",
        ),
    ).set_str("jwtField", string_of(&fj)).set_str("jwtDefault", string_of(&dj))
}

// ---------------------------------------------------------------------------
// Module roots
// ---------------------------------------------------------------------------

/// One module declaration per group, the file named in `style`.
pub open spec fn mod_decls(parent: Seq<char>, gs: Seq<Seq<char>>, style: Style) -> Seq<char>
    decreases gs.len(),
{
    if gs.len() == 0 {
        Seq::empty()
    } else {
        mod_decls(parent, gs.drop_last(), style) + mod_decl_spec(
            parent,
            gs.last(),
            group_file_base_spec(gs.last(), style),
        )
    }
}

pub fn mod_decls_exec(parent: &str, gs: &Vec<Vec<char>>, style: Style) -> (r: Vec<char>)
    ensures
        r@ == mod_decls(parent@, gs@.map_values(|v: Vec<char>| v@), style),
{
    let ghost gv = gs@.map_values(|v: Vec<char>| v@);
    let mut out: Vec<char> = Vec::new();
    let mut i: usize = 0;
    while i < gs.len()
        invariant
            i <= gs.len(),
            gv == gs@.map_values(|v: Vec<char>| v@),
            out@ == mod_decls(parent@, gv.subrange(0, i as int), style),
        decreases gs.len() - i,
    {
        assert(gv.subrange(0, i + 1).drop_last() == gv.subrange(0, i as int));
        assert(gv.subrange(0, i + 1).last() == gs@[i as int]@);
        let fb = group_file_base_chars(&gs[i], style);
        let d = mod_decl_chars(parent, &gs[i], &fb);
        extend(&mut out, &d);
        i = i + 1;
    }
    assert(gv.subrange(0, gs.len() as int) == gv);
    out
}

/// `handler.rs`: the routes module and one module per group.
pub open spec fn handler_root(gs: Seq<Seq<char>>, style: Style) -> Seq<char> {
    "/// generated by rsctl\n\npub mod routes;\n"@ + mod_decls("handler"@, gs, style)
}

/// `logic.rs` and `types.rs`: one module per group.
pub open spec fn group_root(parent: Seq<char>, gs: Seq<Seq<char>>, style: Style) -> Seq<char> {
    "/// generated by rsctl\n"@ + mod_decls(parent, gs, style)
}

pub fn handler_root_exec(gs: &Vec<Vec<char>>, style: Style) -> (r: String)
    ensures
        r@ == handler_root(gs@.map_values(|v: Vec<char>| v@), style),
{
    let mut out = chars_of("/// generated by rsctl\n\npub mod routes;\n");
    let d = mod_decls_exec("handler", gs, style);
    extend(&mut out, &d);
    string_of(&out)
}

pub fn group_root_exec(parent: &str, gs: &Vec<Vec<char>>, style: Style) -> (r: String)
    ensures
        r@ == group_root(parent@, gs@.map_values(|v: Vec<char>| v@), style),
{
    let mut out = chars_of("/// generated by rsctl\n");
    let d = mod_decls_exec(parent, gs, style);
    extend(&mut out, &d);
    string_of(&out)
}

/// `<kind>/<file>.rs` of a group: points the module at `<kind>/<group>/<kind>.rs`.
pub open spec fn group_stub(kind: Seq<char>, g: Seq<char>) -> Seq<char> {
    "/// generated by rsctl\n#[path = \""@ + g + "/"@ + kind + ".rs\"]\npub mod "@ + kind + ";\n"@
}

pub fn group_stub_exec(kind: &str, g: &Vec<char>) -> (r: String)
    ensures
        r@ == group_stub(kind@, g@),
{
    let mut out = chars_of("/// generated by rsctl\n#[path = \"");
    extend(&mut out, g);
    extend_str(&mut out, "/");
    extend_str(&mut out, kind);
    extend_str(&mut out, ".rs\"]\npub mod ");
    extend_str(&mut out, kind);
    extend_str(&mut out, ";\n");
    string_of(&out)
}

/// The module declarations of a group split into one file per handler: each
/// `<h>.rs` is a private module whose items are re-exported.
pub open spec fn split_mods(hs: Seq<Seq<char>>) -> Seq<char>
    decreases hs.len(),
{
    if hs.len() == 0 {
        Seq::empty()
    } else {
        split_mods(hs.drop_last()) + "#[path = \""@ + hs.last() + ".rs\"]\nmod "@ + hs.last()
            + ";\npub use "@ + hs.last() + "::*;\n"@
    }
}

/// `<kind>/<group>/<kind>.rs` of a split group: one module per handler, re-exported,
/// so that the group's items keep their paths.
pub open spec fn split_root(hs: Seq<Seq<char>>) -> Seq<char> {
    "/// generated by rsctl\n"@ + split_mods(hs)
}

pub fn split_root_exec(hs: &Vec<Vec<char>>) -> (r: String)
    ensures
        r@ == split_root(hs@.map_values(|v: Vec<char>| v@)),
{
    let ghost hv = hs@.map_values(|v: Vec<char>| v@);
    let mut out = chars_of("/// generated by rsctl\n");
    let mut i: usize = 0;
    while i < hs.len()
        invariant
            i <= hs.len(),
            hv == hs@.map_values(|v: Vec<char>| v@),
            out@ == "/// generated by rsctl\n"@ + split_mods(hv.subrange(0, i as int)),
        decreases hs.len() - i,
    {
        assert(hv.subrange(0, i + 1).drop_last() == hv.subrange(0, i as int));
        assert(hv.subrange(0, i + 1).last() == hs@[i as int]@);
        let ghost o0 = out@;
        extend_str(&mut out, "#[path = \"");
        extend(&mut out, &hs[i]);
        extend_str(&mut out, ".rs\"]\nmod ");
        extend(&mut out, &hs[i]);
        extend_str(&mut out, ";\npub use ");
        extend(&mut out, &hs[i]);
        extend_str(&mut out, "::*;\n");
        assert(out@ =~= "/// generated by rsctl\n"@ + split_mods(hv.subrange(0, i + 1)));
        i = i + 1;
    }
    assert(hv.subrange(0, hs.len() as int) == hv);
    string_of(&out)
}

// ---------------------------------------------------------------------------
// Middleware
// ---------------------------------------------------------------------------

pub open spec fn pub_mods(ms: Seq<Seq<char>>) -> Seq<char>
    decreases ms.len(),
{
    if ms.len() == 0 {
        Seq::empty()
    } else {
        pub_mods(ms.drop_last()) + "pub mod "@ + ms.last() + ";\n"@
    }
}

/// `middleware.rs`: the prelude and one module per declared middleware.
pub open spec fn middleware_root(ms: Seq<Seq<char>>) -> Seq<char> {
    "/// generated by rsctl\npub mod prelude;\n"@ + pub_mods(ms)
}

pub fn middleware_root_exec(ms: &Vec<Vec<char>>) -> (r: String)
    ensures
        r@ == middleware_root(ms@.map_values(|v: Vec<char>| v@)),
{
    let ghost mv = ms@.map_values(|v: Vec<char>| v@);
    let mut out = chars_of("/// generated by rsctl\npub mod prelude;\n");
    let ghost head = out@;
    let mut i: usize = 0;
    while i < ms.len()
        invariant
            i <= ms.len(),
            mv == ms@.map_values(|v: Vec<char>| v@),
            head == "/// generated by rsctl\npub mod prelude;\n"@,
            out@ == head + pub_mods(mv.subrange(0, i as int)),
        decreases ms.len() - i,
    {
        assert(mv.subrange(0, i + 1).drop_last() == mv.subrange(0, i as int));
        assert(mv.subrange(0, i + 1).last() == ms@[i as int]@);
        extend_str(&mut out, "pub mod ");
        extend(&mut out, &ms[i]);
        extend_str(&mut out, ";\n");
        i = i + 1;
    }
    assert(mv.subrange(0, ms.len() as int) == mv);
    string_of(&out)
}

pub open spec fn middleware_imports(fw: Seq<char>) -> Seq<char> {
    if is_actix(fw) {
        "use actix_web::body::BoxBody;\nuse actix_web::dev::{ServiceRequest, ServiceResponse};\nuse actix_web::middleware::Next;\nuse actix_web::Error;\n"@
    } else {
        "use axum::body::Body;\nuse axum::http::Request;\nuse axum::middleware::Next;\nuse axum::response::Response;\n"@
    }
}

pub open spec fn middleware_handle(fw: Seq<char>) -> Seq<char> {
    if is_actix(fw) {
        "pub async fn handle(req: ServiceRequest, next: Next<BoxBody>) -> Result<ServiceResponse<BoxBody>, Error> {\n    // TODO: {{.name}} middleware logic\n    next.call(req).await\n}\n"@
    } else {
        "pub async fn handle(req: Request<Body>, next: Next<Body>) -> Response {\n    // TODO: {{.name}} middleware logic\n    next.run(req).await\n}\n"@
    }
}

/// The variables `middleware.tpl` sees for middleware `m`.
pub open spec fn middleware_vars(base: Map<Seq<char>, ValV>, fw: Seq<char>, m: Seq<char>) -> Map<
    Seq<char>,
    ValV,
> {
    base.insert(lower("name"@), ValV::Str(m)).insert(
        lower("middlewareImports"@),
        ValV::Str(middleware_imports(fw)),
    ).insert(lower("middlewareHandle"@), ValV::Str(middleware_handle(fw)))
}

pub fn middleware_context(base: &Context, fw: &str, m: &Vec<char>) -> (c: Context)
    ensures
        c.vars() == middleware_vars(base.vars(), fw@, m@),
{
    let actix = is_actix_exec(fw);
    let imports = if actix {
        "use actix_web::body::BoxBody;\nuse actix_web::dev::{ServiceRequest, ServiceResponse};\nuse actix_web::middleware::Next;\nuse actix_web::Error;\n"
    } else {
        "use axum::body::Body;\nuse axum::http::Request;\nuse axum::middleware::Next;\nuse axum::response::Response;\n"
    };
    let handle = if actix {
        "pub async fn handle(req: ServiceRequest, next: Next<BoxBody>) -> Result<ServiceResponse<BoxBody>, Error> {\n    // TODO: {{.name}} middleware logic\n    next.call(req).await\n}\n"
    } else {
        "pub async fn handle(req: Request<Body>, next: Next<Body>) -> Response {\n    // TODO: {{.name}} middleware logic\n    next.run(req).await\n}\n"
    };
    base.clone().set_str("name", string_of(m)).set_str("middlewareImports", text_of(imports)).set_str(
        "middlewareHandle",
        text_of(handle),
    )
}

// ---------------------------------------------------------------------------
// validator
// ---------------------------------------------------------------------------

/// The field's tag contains `validate:"`.
pub open spec fn tag_mentions_validate(f: crate::rsctl::spec::FieldV) -> bool {
    match f.tag {
        Some(t) => find_from(t, "validate:\""@, 0) is Some,
        None => false,
    }
}

/// Some field of a declared type has a tag containing `validate:"`.
pub open spec fn uses_validator(ts: Seq<crate::rsctl::spec::TypeDefV>) -> bool {
    exists|i: int, j: int|
        0 <= i < ts.len() && 0 <= j < ts[i].fields.len() && tag_mentions_validate(
            #[trigger] ts[i].fields[j],
        )
}

pub fn uses_validator_exec(ts: &Vec<crate::rsctl::spec::TypeDef>) -> (b: bool)
    ensures
        b == uses_validator(crate::rsctl::spec::types_view(ts@)),
{
    let ghost tv = crate::rsctl::spec::types_view(ts@);
    let pat = chars_of("validate:\"");
    let mut i: usize = 0;
    while i < ts.len()
        invariant
            i <= ts.len(),
            tv == crate::rsctl::spec::types_view(ts@),
            pat@ == "validate:\""@,
            forall|a: int, j: int|
                0 <= a < i && 0 <= j < tv[a].fields.len() ==> !tag_mentions_validate(
                    #[trigger] tv[a].fields[j],
                ),
        decreases ts.len() - i,
    {
        let td = &ts[i];
        assert(tv[i as int] == td@);
        let mut j: usize = 0;
        while j < td.fields.len()
            invariant
                i < ts.len(),
                td == &ts[i as int],
                j <= td.fields.len(),
                tv == crate::rsctl::spec::types_view(ts@),
                tv[i as int] == td@,
                pat@ == "validate:\""@,
                forall|a: int, k: int|
                    0 <= a < i && 0 <= k < tv[a].fields.len() ==> !tag_mentions_validate(
                        #[trigger] tv[a].fields[k],
                    ),
                forall|k: int|
                    0 <= k < j ==> !tag_mentions_validate(#[trigger] tv[i as int].fields[k]),
            decreases td.fields.len() - j,
        {
            assert(tv[i as int].fields[j as int] == td.fields@[j as int]@);
            match &td.fields[j].tag {
                Some(t) => {
                    let tc = chars_of(t.as_str());
                    let f = find_from_exec(&tc, &pat, 0);
                    proof {
                        lemma_find_from_spec(tc@, pat@, 0);
                    }
                    if f.is_some() {
                        assert(tv[i as int].fields[j as int].tag == Some(t@));
                        return true;
                    }
                },
                None => {},
            }
            j = j + 1;
        }
        i = i + 1;
    }
    false
}

} // verus!
