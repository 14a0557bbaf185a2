//! The handler and logic code of a group: one function (and one logic struct)
//! per handler, typed from a representative route.
use vstd::prelude::*;
use crate::rsctl::gen::{find_annotation, first_annotation};
use crate::rsctl::groups::{group_of, handler_module};
use crate::rsctl::naming::{
    api_ty_spec, api_ty_to_rust_chars, pairs_lookup, pascal_chars, pascal_spec, snake_chars,
    tag_kv_map, tag_pairs,
};
use crate::rsctl::project::{is_actix, is_actix_exec};
use crate::rsctl::spec::{self, ArgsV, FieldV, RouteV, ServiceV, TypeDefV};
use crate::rsctl::gen::{effective_group, route_handler_name};
use crate::text::{
    chars_of, chars_of_string, ends_with, ends_with_str, eq_chars, eq_str, extend, extend_str,
    starts_with, starts_with_str, string_of,
};

verus! {

// ---------------------------------------------------------------------------
// Representative route
// ---------------------------------------------------------------------------

/// The first of `rs` whose handler module is `h`.
pub open spec fn rep_in_routes(rs: Seq<RouteV>, h: Seq<char>) -> Option<RouteV>
    decreases rs.len(),
{
    if rs.len() == 0 {
        None
    } else if handler_module(rs[0]) == Some(h) {
        Some(rs[0])
    } else {
        rep_in_routes(rs.drop_first(), h)
    }
}

/// The route that describes handler `h` of group `g`: the first one, in the first
/// block of the group that has one.
pub open spec fn rep_route(ss: Seq<ServiceV>, g: Seq<char>, h: Seq<char>) -> Option<RouteV>
    decreases ss.len(),
{
    if ss.len() == 0 {
        None
    } else if group_of(ss[0]) == g && rep_in_routes(ss[0].routes, h) is Some {
        rep_in_routes(ss[0].routes, h)
    } else {
        rep_route(ss.drop_first(), g, h)
    }
}

fn find_in_routes<'a>(rs: &'a Vec<spec::Route>, h: &Vec<char>) -> (r: Option<&'a spec::Route>)
    ensures
        match r {
            Some(rt) => rep_in_routes(spec::routes_view(rs@), h@) == Some(rt@),
            None => rep_in_routes(spec::routes_view(rs@), h@) is None,
        },
{
    let ghost all = spec::routes_view(rs@);
    let mut j: usize = 0;
    assert(all.subrange(0, all.len() as int) == all);
    while j < rs.len()
        invariant
            j <= rs.len(),
            all == spec::routes_view(rs@),
            rep_in_routes(all, h@) == rep_in_routes(all.subrange(j as int, all.len() as int), h@),
        decreases rs.len() - j,
    {
        let ghost rest = all.subrange(j as int, all.len() as int);
        assert(rest.drop_first() == all.subrange(j + 1, all.len() as int));
        assert(rest[0] == rs@[j as int]@);
        match route_handler_name(&rs[j]) {
            Some(hn) => {
                let hc = chars_of_string(&hn);
                let hs = snake_chars(&hc);
                if eq_chars(&hs, h) {
                    return Some(&rs[j]);
                }
            },
            None => {},
        }
        j = j + 1;
    }
    None
}

/// The representative route of handler `h` in group `g`.
pub fn find_rep<'a>(sp: &'a spec::Spec, g: &Vec<char>, h: &Vec<char>) -> (r: Option<&'a spec::Route>)
    ensures
        match r {
            Some(rt) => rep_route(spec::services_view(sp.services@), g@, h@) == Some(rt@),
            None => rep_route(spec::services_view(sp.services@), g@, h@) is None,
        },
{
    let ghost all = spec::services_view(sp.services@);
    let mut i: usize = 0;
    assert(all.subrange(0, all.len() as int) == all);
    while i < sp.services.len()
        invariant
            i <= sp.services.len(),
            all == spec::services_view(sp.services@),
            rep_route(all, g@, h@) == rep_route(all.subrange(i as int, all.len() as int), g@, h@),
        decreases sp.services.len() - i,
    {
        let ghost rest = all.subrange(i as int, all.len() as int);
        assert(rest.drop_first() == all.subrange(i + 1, all.len() as int));
        assert(rest[0] == sp.services@[i as int]@);
        let eg = effective_group(&sp.services[i]);
        let egc = chars_of_string(&eg);
        let gs = snake_chars(&egc);
        if eq_chars(&gs, g) {
            match find_in_routes(&sp.services[i].routes, h) {
                Some(rt) => {
                    return Some(rt);
                },
                None => {},
            }
        }
        i = i + 1;
    }
    None
}

pub open spec fn req_of(rep: Option<RouteV>) -> Option<Seq<char>> {
    match rep {
        Some(r) => r.request,
        None => None,
    }
}

pub open spec fn resp_of(rep: Option<RouteV>) -> Option<Seq<char>> {
    match rep {
        Some(r) => r.response,
        None => None,
    }
}

/// The text of a route's first `@doc` annotation, when it is a single value.
pub open spec fn doc_of(rep: Option<RouteV>) -> Option<Seq<char>> {
    match rep {
        Some(r) => match first_annotation(r.annotations, "doc"@) {
            Some(a) => match a.args {
                ArgsV::Str(s) => Some(s),
                _ => None,
            },
            None => None,
        },
        None => None,
    }
}

fn doc_exec(rep: Option<&spec::Route>) -> (r: Option<String>)
    ensures
        match rep {
            Some(rt) => spec::opt_view(r) == doc_of(Some(rt@)),
            None => r is None,
        },
{
    match rep {
        Some(rt) => match find_annotation(&rt.annotations, "doc") {
            Some(a) => match &a.args {
                spec::AnnotationArgs::Str(s) => Some(s.clone()),
                _ => None,
            },
            None => None,
        },
        None => None,
    }
}

// ---------------------------------------------------------------------------
// Declared types
// ---------------------------------------------------------------------------

/// The declared type named `name`: the last declaration wins.
pub open spec fn type_lookup(ts: Seq<TypeDefV>, name: Seq<char>) -> Option<TypeDefV>
    decreases ts.len(),
{
    if ts.len() == 0 {
        None
    } else if ts.last().name == name {
        Some(ts.last())
    } else {
        type_lookup(ts.drop_last(), name)
    }
}

pub fn find_type<'a>(ts: &'a Vec<spec::TypeDef>, name: &Vec<char>) -> (r: Option<&'a spec::TypeDef>)
    ensures
        match r {
            Some(t) => type_lookup(spec::types_view(ts@), name@) == Some(t@),
            None => type_lookup(spec::types_view(ts@), name@) is None,
        },
{
    let ghost all = spec::types_view(ts@);
    let mut i = ts.len();
    assert(all.subrange(0, i as int) == all);
    while i > 0
        invariant
            i <= ts.len(),
            all == spec::types_view(ts@),
            type_lookup(all, name@) == type_lookup(all.subrange(0, i as int), name@),
        decreases i,
    {
        assert(all.subrange(0, i as int).drop_last() == all.subrange(0, i - 1));
        assert(all.subrange(0, i as int).last() == ts@[i - 1]@);
        let n = chars_of_string(&ts[i - 1].name);
        if eq_chars(&n, name) {
            return Some(&ts[i - 1]);
        }
        i = i - 1;
    }
    None
}

/// The field's tag has a `validate` key.
pub open spec fn field_validated(f: FieldV) -> bool {
    match f.tag {
        Some(t) => pairs_lookup(tag_pairs(t, 0), "validate"@) is Some,
        None => false,
    }
}

/// Some field of the declared type has a `validate` tag key.
pub open spec fn type_validated(td: TypeDefV) -> bool {
    exists|j: int| 0 <= j < td.fields.len() && field_validated(#[trigger] td.fields[j])
}

pub fn type_validated_exec(td: &spec::TypeDef) -> (b: bool)
    ensures
        b == type_validated(td@),
{
    let mut j: usize = 0;
    while j < td.fields.len()
        invariant
            j <= td.fields.len(),
            forall|k: int| 0 <= k < j ==> !field_validated(#[trigger] td@.fields[k]),
        decreases td.fields.len() - j,
    {
        assert(td@.fields[j as int] == td.fields@[j as int]@);
        match &td.fields[j].tag {
            Some(tag) => {
                let m = tag_kv_map(tag.as_str());
                if m.contains_key("validate") {
                    return true;
                }
            },
            None => {},
        }
        j = j + 1;
    }
    false
}

/// The request type is declared with a `validate` tag key on some field.
pub open spec fn needs_validate(ts: Seq<TypeDefV>, req: Option<Seq<char>>) -> bool {
    match req {
        Some(n) => match type_lookup(ts, n) {
            Some(td) => type_validated(td),
            None => false,
        },
        None => false,
    }
}

// ---------------------------------------------------------------------------
// Handlers
// ---------------------------------------------------------------------------

pub open spec fn doc_line(doc: Option<Seq<char>>) -> Seq<char> {
    match doc {
        Some(d) => "/// "@ + d + "\n"@,
        None => Seq::empty(),
    }
}

/// The signature of the handler function, up to its opening brace.
pub open spec fn handler_sig(fw: Seq<char>, h: Seq<char>, req_ty: Option<Seq<char>>) -> Seq<char> {
    if is_actix(fw) {
        "pub async fn "@ + h + "(\n    svc_ctx: web::Data<Arc<ServiceContext>>,\n"@ + match req_ty {
            Some(t) => "    req: web::Json<"@ + t + ">,\n"@,
            None => Seq::empty(),
        } + ") -> HttpResponse {\n"@
    } else {
        "pub async fn "@ + h + "(\n    Extension(svc_ctx): Extension<Arc<ServiceContext>>,\n"@
            + match req_ty {
            Some(t) => "    Json(req): Json<"@ + t + ">,\n"@,
            None => Seq::empty(),
        } + ") -> impl IntoResponse {\n"@
    }
}

/// The early return on a request that fails validation.
pub open spec fn validate_guard(fw: Seq<char>) -> Seq<char> {
    if is_actix(fw) {
        "    if let Err(e) = req.validate() {\n        return HttpResponse::BadRequest().body(e.to_string());\n    }\n\n"@
    } else {
        "    if let Err(e) = req.validate() {\n        return (StatusCode::BAD_REQUEST, e.to_string()).into_response();\n    }\n\n"@
    }
}

/// The construction of the handler's logic struct.
pub open spec fn logic_new_line(fw: Seq<char>, g: Seq<char>, h: Seq<char>) -> Seq<char> {
    "    let l = crate::logic::"@ + g + "::logic::"@ + pascal_spec(h) + "Logic::new("@ + if is_actix(
        fw,
    ) {
        "svc_ctx.get_ref().clone()"@
    } else {
        "svc_ctx.clone()"@
    } + ");\n"@
}

pub open spec fn call_args(fw: Seq<char>, has_req: bool) -> Seq<char> {
    if !has_req {
        "()"@
    } else if is_actix(fw) {
        "(req.into_inner())"@
    } else {
        "(req)"@
    }
}

pub open spec fn ok_arm(fw: Seq<char>, has_resp: bool) -> Seq<char> {
    if is_actix(fw) {
        if has_resp {
            "Ok(resp) => HttpResponse::Ok().json(resp)"@
        } else {
            "Ok(()) => HttpResponse::Ok().finish()"@
        }
    } else if has_resp {
        "Ok(resp) => Json(resp).into_response()"@
    } else {
        "Ok(()) => StatusCode::OK.into_response()"@
    }
}

pub open spec fn err_arm(fw: Seq<char>) -> Seq<char> {
    if is_actix(fw) {
        "Err(e) => HttpResponse::InternalServerError().body(e.to_string())"@
    } else {
        "Err(e) => (StatusCode::INTERNAL_SERVER_ERROR, e.to_string()).into_response()"@
    }
}

/// The call of the logic and the response it maps to.
pub open spec fn call_block(fw: Seq<char>, h: Seq<char>, has_req: bool, has_resp: bool) -> Seq<char> {
    "    match l."@ + h + call_args(fw, has_req) + ".await {\n        "@ + ok_arm(fw, has_resp)
        + ",\n        "@ + err_arm(fw) + ",\n    }\n"@
}

/// The Rust type of an optional API type.
pub open spec fn opt_ty(g: Seq<char>, t: Option<Seq<char>>) -> Option<Seq<char>> {
    match t {
        Some(x) => Some(api_ty_spec(g, x)),
        None => None,
    }
}

/// The handler function of `h` in group `g`, described by route `rep`.
pub open spec fn handler_text(
    fw: Seq<char>,
    g: Seq<char>,
    h: Seq<char>,
    rep: Option<RouteV>,
    ts: Seq<TypeDefV>,
) -> Seq<char> {
    let req = req_of(rep);
    let has_req = req is Some;
    let has_resp = resp_of(rep) is Some;
    doc_line(doc_of(rep)) + handler_sig(fw, h, opt_ty(g, req)) + if has_req && needs_validate(
        ts,
        req,
    ) {
        validate_guard(fw)
    } else {
        Seq::empty()
    } + logic_new_line(fw, g, h) + call_block(fw, h, has_req, has_resp) + "}\n\n"@
}

/// The handler functions of group `g`, one per handler in `hs`.
pub open spec fn handlers_body(
    fw: Seq<char>,
    g: Seq<char>,
    hs: Seq<Seq<char>>,
    ss: Seq<ServiceV>,
    ts: Seq<TypeDefV>,
) -> Seq<char>
    decreases hs.len(),
{
    if hs.len() == 0 {
        Seq::empty()
    } else {
        handlers_body(fw, g, hs.drop_last(), ss, ts) + handler_text(
            fw,
            g,
            hs.last(),
            rep_route(ss, g, hs.last()),
            ts,
        )
    }
}

fn opt_ty_exec(g: &Vec<char>, t: &Option<String>) -> (r: Option<Vec<char>>)
    ensures
        match r {
            Some(x) => opt_ty(g@, spec::opt_view(*t)) == Some(x@),
            None => t is None,
        },
{
    match t {
        Some(x) => {
            let xc = chars_of_string(x);
            Some(api_ty_to_rust_chars(g, &xc))
        },
        None => None,
    }
}

fn needs_validate_exec(sp: &spec::Spec, req: &Option<String>) -> (b: bool)
    ensures
        b == needs_validate(spec::types_view(sp.types@), spec::opt_view(*req)),
{
    match req {
        Some(n) => {
            let nc = chars_of_string(n);
            match find_type(&sp.types, &nc) {
                Some(td) => type_validated_exec(td),
                None => false,
            }
        },
        None => false,
    }
}

fn doc_line_exec(doc: &Option<String>) -> (r: Vec<char>)
    ensures
        r@ == doc_line(spec::opt_view(*doc)),
{
    let mut out: Vec<char> = Vec::new();
    match doc {
        Some(d) => {
            extend_str(&mut out, "/// ");
            extend_str(&mut out, d.as_str());
            extend_str(&mut out, "\n");
        },
        None => {},
    }
    out
}

fn handler_sig_exec(actix: bool, fw: &str, h: &Vec<char>, req_ty: &Option<Vec<char>>) -> (r: Vec<char>)
    requires
        actix == is_actix(fw@),
    ensures
        r@ == handler_sig(
            fw@,
            h@,
            match req_ty {
                Some(t) => Some(t@),
                None => None,
            },
        ),
{
    let mut out = chars_of("pub async fn ");
    extend(&mut out, h);
    if actix {
        extend_str(&mut out, "(\n    svc_ctx: web::Data<Arc<ServiceContext>>,\n");
        match req_ty {
            Some(t) => {
                extend_str(&mut out, "    req: web::Json<");
                extend(&mut out, t);
                extend_str(&mut out, ">,\n");
            },
            None => {},
        }
        extend_str(&mut out, ") -> HttpResponse {\n");
    } else {
        extend_str(&mut out, "(\n    Extension(svc_ctx): Extension<Arc<ServiceContext>>,\n");
        match req_ty {
            Some(t) => {
                extend_str(&mut out, "    Json(req): Json<");
                extend(&mut out, t);
                extend_str(&mut out, ">,\n");
            },
            None => {},
        }
        extend_str(&mut out, ") -> impl IntoResponse {\n");
    }
    out
}

fn validate_guard_exec(actix: bool, fw: &str) -> (r: Vec<char>)
    requires
        actix == is_actix(fw@),
    ensures
        r@ == validate_guard(fw@),
{
    if actix {
        chars_of(
            "    if let Err(e) = req.validate() {\n        return HttpResponse::BadRequest().body(e.to_string());\n    }\n\n",
        )
    } else {
        chars_of(
            "    if let Err(e) = req.validate() {\n        return (StatusCode::BAD_REQUEST, e.to_string()).into_response();\n    }\n\n",
        )
    }
}

fn logic_new_line_exec(actix: bool, fw: &str, g: &Vec<char>, h: &Vec<char>) -> (r: Vec<char>)
    requires
        actix == is_actix(fw@),
    ensures
        r@ == logic_new_line(fw@, g@, h@),
{
    let mut out = chars_of("    let l = crate::logic::");
    extend(&mut out, g);
    extend_str(&mut out, "::logic::");
    let ph = pascal_chars(h);
    extend(&mut out, &ph);
    extend_str(&mut out, "Logic::new(");
    if actix {
        extend_str(&mut out, "svc_ctx.get_ref().clone()");
    } else {
        extend_str(&mut out, "svc_ctx.clone()");
    }
    extend_str(&mut out, ");\n");
    out
}

fn call_block_exec(actix: bool, fw: &str, h: &Vec<char>, has_req: bool, has_resp: bool) -> (r: Vec<char>)
    requires
        actix == is_actix(fw@),
    ensures
        r@ == call_block(fw@, h@, has_req, has_resp),
{
    let mut out = chars_of("    match l.");
    extend(&mut out, h);
    if !has_req {
        extend_str(&mut out, "()");
    } else if actix {
        extend_str(&mut out, "(req.into_inner())");
    } else {
        extend_str(&mut out, "(req)");
    }
    extend_str(&mut out, ".await {\n        ");
    if actix {
        if has_resp {
            extend_str(&mut out, "Ok(resp) => HttpResponse::Ok().json(resp)");
        } else {
            extend_str(&mut out, "Ok(()) => HttpResponse::Ok().finish()");
        }
    } else if has_resp {
        extend_str(&mut out, "Ok(resp) => Json(resp).into_response()");
    } else {
        extend_str(&mut out, "Ok(()) => StatusCode::OK.into_response()");
    }
    extend_str(&mut out, ",\n        ");
    if actix {
        extend_str(&mut out, "Err(e) => HttpResponse::InternalServerError().body(e.to_string())");
    } else {
        extend_str(
            &mut out,
            "Err(e) => (StatusCode::INTERNAL_SERVER_ERROR, e.to_string()).into_response()",
        );
    }
    extend_str(&mut out, ",\n    }\n");
    out
}

pub fn handler_text_exec(fw: &str, sp: &spec::Spec, g: &Vec<char>, h: &Vec<char>) -> (r: Vec<char>)
    ensures
        r@ == handler_text(
            fw@,
            g@,
            h@,
            rep_route(spec::services_view(sp.services@), g@, h@),
            spec::types_view(sp.types@),
        ),
{
    let actix = is_actix_exec(fw);
    let rep = find_rep(sp, g, h);
    let ghost repv: Option<RouteV> = match rep {
        Some(rt) => Some(rt@),
        None => None,
    };
    let (req, has_resp): (Option<String>, bool) = match rep {
        Some(rt) => (rt.request.clone(), rt.response.is_some()),
        None => (None, false),
    };
    assert(spec::opt_view(req) == req_of(repv));
    assert(has_resp == resp_of(repv) is Some);
    let doc = doc_exec(rep);
    let mut out = doc_line_exec(&doc);
    let req_ty = opt_ty_exec(g, &req);
    let sig = handler_sig_exec(actix, fw, h, &req_ty);
    extend(&mut out, &sig);
    let has_req = req.is_some();
    let guard: Vec<char> = if has_req && needs_validate_exec(sp, &req) {
        validate_guard_exec(actix, fw)
    } else {
        Vec::new()
    };
    extend(&mut out, &guard);
    let nl = logic_new_line_exec(actix, fw, g, h);
    extend(&mut out, &nl);
    let cb = call_block_exec(actix, fw, h, has_req, has_resp);
    extend(&mut out, &cb);
    extend_str(&mut out, "}\n\n");
    out
}

/// The handler functions of group `g` for the handlers `hs`, in order.
pub fn handlers_body_exec(fw: &str, sp: &spec::Spec, g: &Vec<char>, hs: &Vec<Vec<char>>) -> (r:
    Vec<char>)
    ensures
        r@ == handlers_body(
            fw@,
            g@,
            hs@.map_values(|v: Vec<char>| v@),
            spec::services_view(sp.services@),
            spec::types_view(sp.types@),
        ),
{
    let ghost hv = hs@.map_values(|v: Vec<char>| v@);
    let ghost ss = spec::services_view(sp.services@);
    let ghost ts = spec::types_view(sp.types@);
    let mut out: Vec<char> = Vec::new();
    let mut i: usize = 0;
    while i < hs.len()
        invariant
            i <= hs.len(),
            hv == hs@.map_values(|v: Vec<char>| v@),
            ss == spec::services_view(sp.services@),
            ts == spec::types_view(sp.types@),
            out@ == handlers_body(fw@, g@, hv.subrange(0, i as int), ss, ts),
        decreases hs.len() - i,
    {
        assert(hv.subrange(0, i + 1).drop_last() == hv.subrange(0, i as int));
        assert(hv.subrange(0, i + 1).last() == hs@[i as int]@);
        let t = handler_text_exec(fw, sp, g, &hs[i]);
        extend(&mut out, &t);
        i = i + 1;
    }
    assert(hv.subrange(0, hs.len() as int) == hv);
    out
}

// ---------------------------------------------------------------------------
// Logic
// ---------------------------------------------------------------------------

/// The Rust type the logic returns inside `anyhow::Result`.
pub open spec fn resp_ty(g: Seq<char>, resp: Option<Seq<char>>) -> Seq<char> {
    match resp {
        Some(t) => api_ty_spec(g, t),
        None => "()"@,
    }
}

/// The placeholder value the generated logic returns.
pub open spec fn logic_return(h: Seq<char>, g: Seq<char>, req: Option<Seq<char>>, resp: Option<Seq<char>>) -> Seq<char> {
    match resp {
        Some(t) => {
            let rt = api_ty_spec(g, t);
            if req is None && h == "healthz"@ && ends_with(rt, "::HealthzResp"@) {
                "Ok("@ + rt + " { code: 0, message: \"ok\".to_string(), data: Default::default() })"@
            } else if starts_with(t, "[]"@) {
                "Ok(Vec::new())"@
            } else {
                "Ok("@ + rt + "::default())"@
            }
        },
        None => "Ok(())"@,
    }
}

/// The parameter list of the logic method.
pub open spec fn logic_params(g: Seq<char>, req: Option<Seq<char>>) -> Seq<char> {
    match req {
        Some(t) => "(&self, req: "@ + api_ty_spec(g, t) + ")"@,
        None => "(&self)"@,
    }
}

/// The logic struct and method of handler `h` in group `g`, described by route `rep`.
pub open spec fn logic_text(g: Seq<char>, h: Seq<char>, rep: Option<RouteV>) -> Seq<char> {
    let ln = pascal_spec(h) + "Logic"@;
    let req = req_of(rep);
    let resp = resp_of(rep);
    "pub struct "@ + ln + " {\n    svc_ctx: Arc<ServiceContext>,\n}\n\n"@ + "impl "@ + ln
        + " {\n    pub fn new(svc_ctx: Arc<ServiceContext>) -> Self {\n        Self { svc_ctx }\n    }\n\n"@
        + "    #[instrument(skip_all)]\n"@ + "    pub async fn "@ + h + logic_params(g, req)
        + " -> anyhow::Result<"@ + resp_ty(g, resp)
        + "> {\n        let _ = &self.svc_ctx;\n        // todo: add your logic here and delete this line\n\n        "@
        + logic_return(h, g, req, resp) + "\n    }\n"@ + "}\n\n"@
}

/// The logic of group `g`, one struct per handler in `hs`.
pub open spec fn logics_body(g: Seq<char>, hs: Seq<Seq<char>>, ss: Seq<ServiceV>) -> Seq<char>
    decreases hs.len(),
{
    if hs.len() == 0 {
        Seq::empty()
    } else {
        logics_body(g, hs.drop_last(), ss) + logic_text(g, hs.last(), rep_route(ss, g, hs.last()))
    }
}

pub fn logic_text_exec(sp: &spec::Spec, g: &Vec<char>, h: &Vec<char>) -> (r: Vec<char>)
    ensures
        r@ == logic_text(g@, h@, rep_route(spec::services_view(sp.services@), g@, h@)),
{
    let rep = find_rep(sp, g, h);
    let ghost repv: Option<RouteV> = match rep {
        Some(rt) => Some(rt@),
        None => None,
    };
    let (req, resp): (Option<String>, Option<String>) = match rep {
        Some(rt) => (rt.request.clone(), rt.response.clone()),
        None => (None, None),
    };
    assert(spec::opt_view(req) == req_of(repv));
    assert(spec::opt_view(resp) == resp_of(repv));
    let ph = pascal_chars(h);
    let mut ln = ph;
    extend_str(&mut ln, "Logic");
    let mut out = chars_of("pub struct ");
    extend(&mut out, &ln);
    extend_str(&mut out, " {\n    svc_ctx: Arc<ServiceContext>,\n}\n\n");
    extend_str(&mut out, "impl ");
    extend(&mut out, &ln);
    extend_str(
        &mut out,
        " {\n    pub fn new(svc_ctx: Arc<ServiceContext>) -> Self {\n        Self { svc_ctx }\n    }\n\n",
    );
    extend_str(&mut out, "    #[instrument(skip_all)]\n");
    extend_str(&mut out, "    pub async fn ");
    extend(&mut out, h);
    let ghost o1 = out@;
    match &req {
        Some(t) => {
            let tc = chars_of_string(t);
            let rt = api_ty_to_rust_chars(g, &tc);
            extend_str(&mut out, "(&self, req: ");
            extend(&mut out, &rt);
            extend_str(&mut out, ")");
        },
        None => {
            extend_str(&mut out, "(&self)");
        },
    }
    assert(out@ == o1 + logic_params(g@, req_of(repv)));
    extend_str(&mut out, " -> anyhow::Result<");
    let ghost o2 = out@;
    let ret: Vec<char> = match &resp {
        Some(t) => {
            let tc = chars_of_string(t);
            let rt = api_ty_to_rust_chars(g, &tc);
            extend(&mut out, &rt);
            if req.is_none() && eq_str(h, "healthz") && ends_with_str(&rt, "::HealthzResp") {
                let mut x = chars_of("Ok(");
                extend(&mut x, &rt);
                extend_str(
                    &mut x,
                    " { code: 0, message: \"ok\".to_string(), data: Default::default() })",
                );
                x
            } else if starts_with_str(&tc, "[]") {
                chars_of("Ok(Vec::new())")
            } else {
                let mut x = chars_of("Ok(");
                extend(&mut x, &rt);
                extend_str(&mut x, "::default())");
                x
            }
        },
        None => {
            extend_str(&mut out, "()");
            chars_of("Ok(())")
        },
    };
    assert(out@ == o2 + resp_ty(g@, resp_of(repv)));
    assert(ret@ == logic_return(h@, g@, req_of(repv), resp_of(repv)));
    extend_str(
        &mut out,
        "> {\n        let _ = &self.svc_ctx;\n        // todo: add your logic here and delete this line\n\n        ",
    );
    extend(&mut out, &ret);
    extend_str(&mut out, "\n    }\n");
    extend_str(&mut out, "}\n\n");
    out
}

/// The logic of group `g` for the handlers `hs`, in order.
pub fn logics_body_exec(sp: &spec::Spec, g: &Vec<char>, hs: &Vec<Vec<char>>) -> (r: Vec<char>)
    ensures
        r@ == logics_body(g@, hs@.map_values(|v: Vec<char>| v@), spec::services_view(sp.services@)),
{
    let ghost hv = hs@.map_values(|v: Vec<char>| v@);
    let ghost ss = spec::services_view(sp.services@);
    let mut out: Vec<char> = Vec::new();
    let mut i: usize = 0;
    while i < hs.len()
        invariant
            i <= hs.len(),
            hv == hs@.map_values(|v: Vec<char>| v@),
            ss == spec::services_view(sp.services@),
            out@ == logics_body(g@, hv.subrange(0, i as int), ss),
        decreases hs.len() - i,
    {
        assert(hv.subrange(0, i + 1).drop_last() == hv.subrange(0, i as int));
        assert(hv.subrange(0, i + 1).last() == hs@[i as int]@);
        let t = logic_text_exec(sp, g, &hs[i]);
        extend(&mut out, &t);
        i = i + 1;
    }
    assert(hv.subrange(0, hs.len() as int) == hv);
    out
}

} // verus!
