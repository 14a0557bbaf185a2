//! Semantic pass: syntax tree -> stable spec IR (methods resolved).
use vstd::prelude::*;
use crate::rsctl::parse;
use crate::rsctl::spec;
use crate::text::{chars_of, eq_str, lower, lower_exec, string_of};

verus! {

/// Why a syntax tree has no spec.
#[derive(Debug)]
pub enum SemanticError {
    /// A route's method is not one of get/post/put/delete/patch (the lowercased text).
    UnsupportedMethod(String),
}

impl SemanticError {
    pub open spec fn message_spec(&self) -> Seq<char> {
        match self {
            SemanticError::UnsupportedMethod(m) => "unsupported http method: "@ + m@,
        }
    }

    pub fn message(&self) -> (s: String)
        ensures
            s@ == self.message_spec(),
    {
        match self {
            SemanticError::UnsupportedMethod(m) => {
                let mut v = chars_of("unsupported http method: ");
                let mc = chars_of(m.as_str());
                crate::text::extend(&mut v, &mc);
                string_of(&v)
            },
        }
    }
}

/// The method a route's method text names, compared case-insensitively.
pub open spec fn method_spec(m: Seq<char>) -> Option<spec::HttpMethod> {
    let l = lower(m);
    if l == "get"@ {
        Some(spec::HttpMethod::Get)
    } else if l == "post"@ {
        Some(spec::HttpMethod::Post)
    } else if l == "put"@ {
        Some(spec::HttpMethod::Put)
    } else if l == "delete"@ {
        Some(spec::HttpMethod::Delete)
    } else if l == "patch"@ {
        Some(spec::HttpMethod::Patch)
    } else {
        None
    }
}

/// The route methods of the API language, by their lowercase names.
pub open spec fn method_names() -> Seq<(Seq<char>, spec::HttpMethod)> {
    seq![
        ("get"@, spec::HttpMethod::Get),
        ("post"@, spec::HttpMethod::Post),
        ("put"@, spec::HttpMethod::Put),
        ("delete"@, spec::HttpMethod::Delete),
        ("patch"@, spec::HttpMethod::Patch),
    ]
}

/// Each of the five method names resolves to its own method, in any letter case.
pub proof fn law_method_names_resolve(m: Seq<char>, k: int)
    requires
        0 <= k < method_names().len(),
        lower(m) == method_names()[k].0,
    ensures
        method_spec(m) == Some(method_names()[k].1),
{
    reveal_strlit("get");
    reveal_strlit("post");
    reveal_strlit("put");
    reveal_strlit("delete");
    reveal_strlit("patch");
    let l = lower(m);
    if k == 0 {
        assert(l == "get"@);
    }
    if k == 1 {
        assert(l == "post"@);
        assert(l != "get"@) by { if l == "get"@ { assert(l.len() == "get"@.len()); } }
    }
    if k == 2 {
        assert(l == "put"@);
        assert(l != "get"@) by { if l == "get"@ { assert(l[0] == "get"@[0]); } }
        assert(l != "post"@) by { if l == "post"@ { assert(l.len() == "post"@.len()); } }
    }
    if k == 3 {
        assert(l == "delete"@);
        assert(l != "get"@) by { if l == "get"@ { assert(l.len() == "get"@.len()); } }
        assert(l != "post"@) by { if l == "post"@ { assert(l.len() == "post"@.len()); } }
        assert(l != "put"@) by { if l == "put"@ { assert(l.len() == "put"@.len()); } }
    }
    if k == 4 {
        assert(l == "patch"@);
        assert(l != "get"@) by { if l == "get"@ { assert(l.len() == "get"@.len()); } }
        assert(l != "post"@) by { if l == "post"@ { assert(l.len() == "post"@.len()); } }
        assert(l != "put"@) by { if l == "put"@ { assert(l.len() == "put"@.len()); } }
        assert(l != "delete"@) by { if l == "delete"@ { assert(l.len() == "delete"@.len()); } }
    }
}

/// A method text resolves only when, lowercased, it is one of the five names.
pub proof fn law_other_methods_unsupported(m: Seq<char>)
    requires
        forall|k: int| 0 <= k < method_names().len() ==> lower(m) != (#[trigger] method_names()[k]).0,
    ensures
        method_spec(m) is None,
{
    assert(lower(m) != method_names()[0].0);
    assert(lower(m) != method_names()[1].0);
    assert(lower(m) != method_names()[2].0);
    assert(lower(m) != method_names()[3].0);
    assert(lower(m) != method_names()[4].0);
}

/// A route of the syntax tree in the spec, or the lowercased method text it fails on.
pub open spec fn route_conv(r: parse::RouteV) -> Result<spec::RouteV, Seq<char>> {
    match method_spec(r.method) {
        Some(m) => Ok(
            spec::RouteV {
                annotations: r.annotations,
                method: m,
                path: r.path,
                request: r.request,
                response: r.response,
            },
        ),
        None => Err(lower(r.method)),
    }
}

/// The routes converted in order, or the failure of the first that fails.
pub open spec fn routes_conv(rs: Seq<parse::RouteV>) -> Result<Seq<spec::RouteV>, Seq<char>>
    decreases rs.len(),
{
    if rs.len() == 0 {
        Ok(Seq::empty())
    } else {
        match routes_conv(rs.drop_last()) {
            Err(m) => Err(m),
            Ok(done) => match route_conv(rs.last()) {
                Err(m) => Err(m),
                Ok(r) => Ok(done.push(r)),
            },
        }
    }
}

pub open spec fn service_conv(s: parse::ServiceV) -> Result<spec::ServiceV, Seq<char>> {
    match routes_conv(s.routes) {
        Err(m) => Err(m),
        Ok(rs) => Ok(spec::ServiceV { name: s.name, annotations: s.annotations, routes: rs }),
    }
}

/// The services and top-level routes of a syntax tree, in order, or the failure
/// of the first route (in text order) whose method is unsupported.
pub open spec fn items_conv(items: Seq<parse::ItemV>) -> Result<
    (Seq<spec::ServiceV>, Seq<spec::RouteV>),
    Seq<char>,
>
    decreases items.len(),
{
    if items.len() == 0 {
        Ok((Seq::empty(), Seq::empty()))
    } else {
        match items_conv(items.drop_last()) {
            Err(m) => Err(m),
            Ok((ss, rs)) => match items.last() {
                parse::ItemV::Service(s) => match service_conv(s) {
                    Err(m) => Err(m),
                    Ok(sv) => Ok((ss.push(sv), rs)),
                },
                parse::ItemV::Route(r) => match route_conv(r) {
                    Err(m) => Err(m),
                    Ok(rv) => Ok((ss, rs.push(rv))),
                },
            },
        }
    }
}

proof fn lemma_routes_err_extends(rs: Seq<parse::RouteV>, i: int, m: Seq<char>)
    requires
        0 <= i <= rs.len(),
        routes_conv(rs.subrange(0, i)) == Err::<Seq<spec::RouteV>, Seq<char>>(m),
    ensures
        routes_conv(rs) == Err::<Seq<spec::RouteV>, Seq<char>>(m),
    decreases rs.len() - i,
{
    if i < rs.len() {
        assert(rs.subrange(0, i + 1).drop_last() == rs.subrange(0, i));
        lemma_routes_err_extends(rs, i + 1, m);
    } else {
        assert(rs.subrange(0, i) == rs);
    }
}

proof fn lemma_items_err_extends(items: Seq<parse::ItemV>, i: int, m: Seq<char>)
    requires
        0 <= i <= items.len(),
        items_conv(items.subrange(0, i)) == Err::<(Seq<spec::ServiceV>, Seq<spec::RouteV>), Seq<char>>(m),
    ensures
        items_conv(items) == Err::<(Seq<spec::ServiceV>, Seq<spec::RouteV>), Seq<char>>(m),
    decreases items.len() - i,
{
    if i < items.len() {
        assert(items.subrange(0, i + 1).drop_last() == items.subrange(0, i));
        lemma_items_err_extends(items, i + 1, m);
    } else {
        assert(items.subrange(0, i) == items);
    }
}

/// Resolves a method text (case-insensitively).
pub fn parse_method(s: &str) -> (r: Result<spec::HttpMethod, SemanticError>)
    ensures
        match r {
            Ok(m) => method_spec(s@) == Some(m),
            Err(SemanticError::UnsupportedMethod(t)) => method_spec(s@) is None && t@ == lower(s@),
        },
{
    let v = chars_of(s);
    let l = lower_exec(&v);
    if eq_str(&l, "get") {
        Ok(spec::HttpMethod::Get)
    } else if eq_str(&l, "post") {
        Ok(spec::HttpMethod::Post)
    } else if eq_str(&l, "put") {
        Ok(spec::HttpMethod::Put)
    } else if eq_str(&l, "delete") {
        Ok(spec::HttpMethod::Delete)
    } else if eq_str(&l, "patch") {
        Ok(spec::HttpMethod::Patch)
    } else {
        Err(SemanticError::UnsupportedMethod(string_of(&l)))
    }
}

fn clone_pairs(v: &Vec<(String, String)>) -> (r: Vec<(String, String)>)
    ensures
        spec::pairs_view(r@) == spec::pairs_view(v@),
{
    let mut r: Vec<(String, String)> = Vec::new();
    let mut i: usize = 0;
    while i < v.len()
        invariant
            i <= v.len(),
            spec::pairs_view(r@) == spec::pairs_view(v@.subrange(0, i as int)),
        decreases v.len() - i,
    {
        let ghost r0 = r@;
        r.push((v[i].0.clone(), v[i].1.clone()));
        assert(spec::pairs_view(r@) == spec::pairs_view(r0).push((v@[i as int].0@, v@[i as int].1@)));
        assert(v@.subrange(0, i + 1) == v@.subrange(0, i as int).push(v@[i as int]));
        assert(spec::pairs_view(v@.subrange(0, i + 1)) == spec::pairs_view(
            v@.subrange(0, i as int),
        ).push((v@[i as int].0@, v@[i as int].1@)));
        i = i + 1;
    }
    assert(v@.subrange(0, v.len() as int) == v@);
    r
}

fn clone_opt(o: &Option<String>) -> (r: Option<String>)
    ensures
        spec::opt_view(r) == spec::opt_view(*o),
{
    match o {
        Some(s) => Some(s.clone()),
        None => None,
    }
}

/// The annotations, carried over unchanged.
pub fn annotations_to_spec(src: &Vec<parse::Annotation>) -> (r: Vec<spec::Annotation>)
    ensures
        spec::anns_view(r@) == parse::anns_view(src@),
{
    let mut r: Vec<spec::Annotation> = Vec::new();
    let mut i: usize = 0;
    while i < src.len()
        invariant
            i <= src.len(),
            spec::anns_view(r@) == parse::anns_view(src@.subrange(0, i as int)),
        decreases src.len() - i,
    {
        let a = &src[i];
        let args = match &a.args {
            parse::AnnotationArgs::NoArgs => spec::AnnotationArgs::NoArgs,
            parse::AnnotationArgs::Str(s) => spec::AnnotationArgs::Str(s.clone()),
            parse::AnnotationArgs::KeyValues(kvs) => spec::AnnotationArgs::KeyValues(clone_pairs(kvs)),
        };
        let na = spec::Annotation { name: a.name.clone(), args };
        let ghost r0 = r@;
        r.push(na);
        assert(spec::anns_view(r@) == spec::anns_view(r0).push(na@));
        assert(src@.subrange(0, i + 1) == src@.subrange(0, i as int).push(src@[i as int]));
        assert(parse::anns_view(src@.subrange(0, i + 1)) == parse::anns_view(
            src@.subrange(0, i as int),
        ).push(src@[i as int]@));
        i = i + 1;
    }
    assert(src@.subrange(0, src.len() as int) == src@);
    r
}

/// A route in the spec.
pub fn route_to_spec(route: &parse::Route) -> (r: Result<spec::Route, SemanticError>)
    ensures
        match r {
            Ok(sr) => route_conv(route@) == Ok::<spec::RouteV, Seq<char>>(sr@),
            Err(SemanticError::UnsupportedMethod(t)) => route_conv(route@) == Err::<
                spec::RouteV,
                Seq<char>,
            >(t@),
        },
{
    let method = parse_method(route.method.as_str())?;
    Ok(
        spec::Route {
            annotations: annotations_to_spec(&route.annotations),
            method,
            path: route.path.clone(),
            request: clone_opt(&route.request),
            response: clone_opt(&route.response),
        },
    )
}

fn routes_to_spec(src: &Vec<parse::Route>) -> (r: Result<Vec<spec::Route>, SemanticError>)
    ensures
        match r {
            Ok(rs) => routes_conv(parse::routes_view(src@)) == Ok::<Seq<spec::RouteV>, Seq<char>>(
                spec::routes_view(rs@),
            ),
            Err(SemanticError::UnsupportedMethod(t)) => routes_conv(parse::routes_view(src@))
                == Err::<Seq<spec::RouteV>, Seq<char>>(t@),
        },
{
    let ghost all = parse::routes_view(src@);
    let mut out: Vec<spec::Route> = Vec::new();
    let mut i: usize = 0;
    assert(all.subrange(0, 0) == Seq::<parse::RouteV>::empty());
    assert(spec::routes_view(out@) == Seq::<spec::RouteV>::empty());
    while i < src.len()
        invariant
            i <= src.len(),
            all == parse::routes_view(src@),
            routes_conv(all.subrange(0, i as int)) == Ok::<Seq<spec::RouteV>, Seq<char>>(
                spec::routes_view(out@),
            ),
        decreases src.len() - i,
    {
        assert(all.subrange(0, i + 1).drop_last() == all.subrange(0, i as int));
        assert(all.subrange(0, i + 1).last() == src@[i as int]@);
        match route_to_spec(&src[i]) {
            Ok(sr) => {
                let ghost o0 = out@;
                out.push(sr);
                assert(spec::routes_view(out@) == spec::routes_view(o0).push(sr@));
            },
            Err(e) => {
                proof {
                    let SemanticError::UnsupportedMethod(t) = e;
                    lemma_routes_err_extends(all, i + 1, t@);
                }
                return Err(e);
            },
        }
        i = i + 1;
    }
    assert(all.subrange(0, src.len() as int) == all);
    Ok(out)
}

/// A service in the spec.
pub fn service_to_spec(svc: &parse::Service) -> (r: Result<spec::Service, SemanticError>)
    ensures
        match r {
            Ok(s) => service_conv(svc@) == Ok::<spec::ServiceV, Seq<char>>(s@),
            Err(SemanticError::UnsupportedMethod(t)) => service_conv(svc@) == Err::<
                spec::ServiceV,
                Seq<char>,
            >(t@),
        },
{
    let routes = routes_to_spec(&svc.routes)?;
    Ok(
        spec::Service {
            name: svc.name.clone(),
            annotations: annotations_to_spec(&svc.annotations),
            routes,
        },
    )
}

/// The spec of a syntax tree: its services and top-level routes in order, with
/// every method resolved; refused at the first route whose method is unsupported.
pub fn to_spec(ast: &parse::Ast) -> (r: Result<spec::Spec, SemanticError>)
    ensures
        match r {
            Ok(sp) => items_conv(parse::items_view(ast.items@)) == Ok::<
                (Seq<spec::ServiceV>, Seq<spec::RouteV>),
                Seq<char>,
            >((spec::services_view(sp.services@), spec::routes_view(sp.routes@)))
                && sp.types@.len() == 0,
            Err(SemanticError::UnsupportedMethod(t)) => items_conv(parse::items_view(ast.items@))
                == Err::<(Seq<spec::ServiceV>, Seq<spec::RouteV>), Seq<char>>(t@),
        },
{
    let ghost all = parse::items_view(ast.items@);
    let mut services: Vec<spec::Service> = Vec::new();
    let mut routes: Vec<spec::Route> = Vec::new();
    let mut i: usize = 0;
    assert(all.subrange(0, 0) == Seq::<parse::ItemV>::empty());
    assert(spec::routes_view(routes@) == Seq::<spec::RouteV>::empty());
    assert(spec::services_view(services@) == Seq::<spec::ServiceV>::empty());
    while i < ast.items.len()
        invariant
            i <= ast.items.len(),
            all == parse::items_view(ast.items@),
            items_conv(all.subrange(0, i as int)) == Ok::<
                (Seq<spec::ServiceV>, Seq<spec::RouteV>),
                Seq<char>,
            >((spec::services_view(services@), spec::routes_view(routes@))),
        decreases ast.items.len() - i,
    {
        assert(all.subrange(0, i + 1).drop_last() == all.subrange(0, i as int));
        assert(all.subrange(0, i + 1).last() == ast.items@[i as int]@);
        match &ast.items[i] {
            parse::Item::Service(s) => match service_to_spec(s) {
                Ok(sv) => {
                    let ghost s0 = services@;
                    services.push(sv);
                    assert(spec::services_view(services@) == spec::services_view(s0).push(sv@));
                },
                Err(e) => {
                    proof {
                        let SemanticError::UnsupportedMethod(t) = e;
                        lemma_items_err_extends(all, i + 1, t@);
                    }
                    return Err(e);
                },
            },
            parse::Item::Route(rt) => match route_to_spec(rt) {
                Ok(rv) => {
                    let ghost r0 = routes@;
                    routes.push(rv);
                    assert(spec::routes_view(routes@) == spec::routes_view(r0).push(rv@));
                },
                Err(e) => {
                    proof {
                        let SemanticError::UnsupportedMethod(t) = e;
                        lemma_items_err_extends(all, i + 1, t@);
                    }
                    return Err(e);
                },
            },
        }
        i = i + 1;
    }
    assert(all.subrange(0, ast.items.len() as int) == all);
    Ok(spec::Spec { services, routes, types: Vec::new() })
}

} // verus!
