//! The route table of a generated project: which service block owns each route
//! (method + full path), and the `router!` DSL text built from it.
use vstd::prelude::*;
use crate::rsctl::gen::{
    effective_group, effective_group_spec, handler_spec, route_handler_name, server_kv,
    service_jwt, service_middleware, service_prefix,
};
use crate::rsctl::naming::{
    indent_block, indent_spec, join_paths_chars, join_paths_spec, snake_chars, snake_spec,
};
use crate::rsctl::groups::{server_module, server_value_named};
use crate::rsctl::pipeline::Framework;
use crate::rsctl::spec::{self, HttpMethod, RouteV, ServiceV};
use crate::text::{
    chars_of, chars_of_string, eq_chars, extend, extend_str, string_of, trim, trim_exec,
};

verus! {

/// The wire name of a method.
pub open spec fn method_name(m: HttpMethod) -> Seq<char> {
    match m {
        HttpMethod::Get => "GET"@,
        HttpMethod::Post => "POST"@,
        HttpMethod::Put => "PUT"@,
        HttpMethod::Delete => "DELETE"@,
        HttpMethod::Patch => "PATCH"@,
    }
}

pub fn method_name_exec(m: HttpMethod) -> (s: &'static str)
    ensures
        s@ == method_name(m),
{
    match m {
        HttpMethod::Get => "GET",
        HttpMethod::Post => "POST",
        HttpMethod::Put => "PUT",
        HttpMethod::Delete => "DELETE",
        HttpMethod::Patch => "PATCH",
    }
}

/// A service's prefix, empty when it has none.
pub open spec fn prefix_spec(s: ServiceV) -> Seq<char> {
    match server_kv(s, "prefix"@) {
        Some(p) => p,
        None => Seq::empty(),
    }
}

/// The priority of a service block when routes collide: JWT, then middleware, then a prefix.
pub open spec fn score_spec(s: ServiceV) -> int {
    (if server_kv(s, "jwt"@) is Some {
        100int
    } else {
        0int
    }) + (if server_kv(s, "middleware"@) is Some {
        10int
    } else {
        0int
    }) + (if trim(prefix_spec(s)).len() > 0 {
        1int
    } else {
        0int
    })
}

/// `METHOD /full/path` of a route in a service block.
pub open spec fn route_key(s: ServiceV, r: RouteV) -> Seq<char> {
    method_name(r.method) + seq![' '] + join_paths_spec(prefix_spec(s), r.path)
}

/// A candidate: route key, the block's score, the block's index.
pub type Entry = (Seq<char>, int, int);

/// The candidates of the routes `rs` (those with a handler) of block `idx`.
pub open spec fn route_entries(s: ServiceV, rs: Seq<RouteV>, idx: int) -> Seq<Entry>
    decreases rs.len(),
{
    if rs.len() == 0 {
        Seq::empty()
    } else {
        let prev = route_entries(s, rs.drop_last(), idx);
        if handler_spec(rs.last()) is Some {
            prev.push((route_key(s, rs.last()), score_spec(s), idx))
        } else {
            prev
        }
    }
}

/// The candidates of all blocks, in order.
pub open spec fn all_entries(ss: Seq<ServiceV>) -> Seq<Entry>
    decreases ss.len(),
{
    if ss.len() == 0 {
        Seq::empty()
    } else {
        all_entries(ss.drop_last()) + route_entries(ss.last(), ss.last().routes, ss.len() - 1)
    }
}

/// The current winner of `key` in a log of choices (the latest choice counts).
pub open spec fn log_lookup(log: Seq<Entry>, key: Seq<char>) -> Option<(int, int)>
    decreases log.len(),
{
    if log.len() == 0 {
        None
    } else if log.last().0 == key {
        Some((log.last().1, log.last().2))
    } else {
        log_lookup(log.drop_last(), key)
    }
}

/// One candidate: a new key, or a higher score, wins; an equal score from another
/// block is a conflict; otherwise the earlier winner stays.
pub open spec fn win_step(log: Seq<Entry>, e: Entry) -> Result<Seq<Entry>, Seq<char>> {
    match log_lookup(log, e.0) {
        None => Ok(log.push(e)),
        Some((score, idx)) => if e.1 > score {
            Ok(log.push(e))
        } else if e.1 == score && idx != e.2 {
            Err(e.0)
        } else {
            Ok(log)
        },
    }
}

pub open spec fn win_fold(es: Seq<Entry>) -> Result<Seq<Entry>, Seq<char>>
    decreases es.len(),
{
    if es.len() == 0 {
        Ok(Seq::empty())
    } else {
        match win_fold(es.drop_last()) {
            Err(k) => Err(k),
            Ok(log) => win_step(log, es.last()),
        }
    }
}

/// The choices for a spec's services, or the first conflicting route key.
pub open spec fn winners_spec(ss: Seq<ServiceV>) -> Result<Seq<Entry>, Seq<char>> {
    win_fold(all_entries(ss))
}

proof fn lemma_log_lookup_push(log: Seq<Entry>, e: Entry, k: Seq<char>)
    ensures
        log_lookup(log.push(e), k) == if e.0 == k {
            Some((e.1, e.2))
        } else {
            log_lookup(log, k)
        },
{
    assert(log.push(e).drop_last() =~= log);
}

/// Every candidate's route ends up with an owner whose score is at least the
/// candidate's: a route goes to the block with the highest priority.
pub proof fn law_winner_has_top_score(es: Seq<Entry>)
    ensures
        win_fold(es) matches Ok(log) ==> forall|i: int|
            0 <= i < es.len() ==> (log_lookup(log, (#[trigger] es[i]).0) matches Some((sc, _)) && sc
                >= es[i].1),
    decreases es.len(),
{
    if es.len() > 0 {
        let pre = es.drop_last();
        law_winner_has_top_score(pre);
        if let Ok(log0) = win_fold(pre) {
            let e = es.last();
            if let Ok(log) = win_fold(es) {
                assert forall|i: int| 0 <= i < es.len() implies (log_lookup(
                    log,
                    (#[trigger] es[i]).0,
                ) matches Some((sc, _)) && sc >= es[i].1) by {
                    if i < es.len() - 1 {
                        assert(es[i] == pre[i]);
                        assert(log_lookup(log0, pre[i].0) is Some);
                    }
                    match log_lookup(log0, e.0) {
                        None => {
                            lemma_log_lookup_push(log0, e, es[i].0);
                        },
                        Some((score, idx)) => {
                            if e.1 > score {
                                lemma_log_lookup_push(log0, e, es[i].0);
                            }
                        },
                    }
                }
            }
        }
    }
}

/// Where the route selection succeeds, each `METHOD path` goes to a block of
/// the highest priority among those that declare it.
pub proof fn law_routes_go_to_top_priority(ss: Seq<ServiceV>)
    ensures
        winners_spec(ss) matches Ok(log) ==> forall|i: int|
            0 <= i < all_entries(ss).len() ==> (log_lookup(log, (#[trigger] all_entries(ss)[i]).0)
                matches Some((sc, _)) && sc >= all_entries(ss)[i].1),
{
    law_winner_has_top_score(all_entries(ss));
}

/// A winners log held by the generator.
#[derive(Debug)]
pub struct Winners {
    log: Vec<(Vec<char>, u32, usize)>,
}

impl Winners {
    pub closed spec fn view_log(&self) -> Seq<Entry> {
        self.log@.map_values(|e: (Vec<char>, u32, usize)| (e.0@, e.1 as int, e.2 as int))
    }

    fn lookup(&self, key: &Vec<char>) -> (r: Option<(u32, usize)>)
        ensures
            match r {
                Some((s, i)) => log_lookup(self.view_log(), key@) == Some((s as int, i as int)),
                None => log_lookup(self.view_log(), key@) is None,
            },
    {
        let ghost all = self.view_log();
        let mut i = self.log.len();
        assert(all.subrange(0, i as int) == all);
        while i > 0
            invariant
                i <= self.log@.len(),
                all == self.view_log(),
                log_lookup(all, key@) == log_lookup(all.subrange(0, i as int), key@),
            decreases i,
        {
            assert(all.subrange(0, i as int).drop_last() == all.subrange(0, i - 1));
            assert(all.subrange(0, i as int).last() == all[i - 1]);
            if eq_chars(&self.log[i - 1].0, key) {
                return Some((self.log[i - 1].1, self.log[i - 1].2));
            }
            i = i - 1;
        }
        None
    }

    /// The block that owns a route key.
    pub fn owner(&self, key: &Vec<char>) -> (r: Option<usize>)
        ensures
            match r {
                Some(i) => log_lookup(self.view_log(), key@) matches Some((_, j)) && j == i,
                None => log_lookup(self.view_log(), key@) is None,
            },
    {
        match self.lookup(key) {
            Some((_, i)) => Some(i),
            None => None,
        }
    }
}

fn score_exec(service: &spec::Service) -> (r: u32)
    ensures
        r == score_spec(service@),
{
    let mut s: u32 = 0;
    if service_jwt(service).is_some() {
        s = s + 100;
    }
    if service_middleware(service).is_some() {
        s = s + 10;
    }
    let p = match service_prefix(service) {
        Some(p) => chars_of_string(&p),
        None => Vec::new(),
    };
    let t = trim_exec(&p);
    if t.len() > 0 {
        s = s + 1;
    }
    s
}

fn prefix_exec(service: &spec::Service) -> (r: Vec<char>)
    ensures
        r@ == prefix_spec(service@),
{
    match service_prefix(service) {
        Some(p) => chars_of_string(&p),
        None => Vec::new(),
    }
}

fn route_key_exec(prefix: &Vec<char>, r: &spec::Route) -> (k: Vec<char>)
    ensures
        k@ == method_name(r.method) + seq![' '] + join_paths_spec(prefix@, r.path@),
{
    let mut k = chars_of(method_name_exec(r.method));
    k.push(' ');
    let p = chars_of_string(&r.path);
    let full = join_paths_chars(prefix, &p);
    extend(&mut k, &full);
    k
}

/// Picks, for every `METHOD path`, the service block that owns it. Blocks with
/// JWT, then middleware, then a prefix win; a tie between two blocks is refused
/// with the route key.
pub fn select_winners(sp: &spec::Spec) -> (r: Result<Winners, String>)
    ensures
        match r {
            Ok(w) => winners_spec(spec::services_view(sp.services@)) == Ok::<Seq<Entry>, Seq<char>>(
                w.view_log(),
            ),
            Err(k) => winners_spec(spec::services_view(sp.services@)) == Err::<Seq<Entry>, Seq<char>>(
                k@,
            ),
        },
{
    let ghost ss = spec::services_view(sp.services@);
    let mut w = Winners { log: Vec::new() };
    assert(w.view_log() =~= Seq::<Entry>::empty());
    let mut idx: usize = 0;
    assert(ss.subrange(0, 0) =~= Seq::<ServiceV>::empty());
    while idx < sp.services.len()
        invariant
            idx <= sp.services.len(),
            ss == spec::services_view(sp.services@),
            win_fold(all_entries(ss.subrange(0, idx as int))) == Ok::<Seq<Entry>, Seq<char>>(
                w.view_log(),
            ),
        decreases sp.services.len() - idx,
    {
        let service = &sp.services[idx];
        let ghost sv = service@;
        assert(ss.subrange(0, idx + 1).drop_last() == ss.subrange(0, idx as int));
        assert(ss.subrange(0, idx + 1).last() == sv);
        let score = score_exec(service);
        let prefix = prefix_exec(service);
        let ghost base = all_entries(ss.subrange(0, idx as int));
        let mut j: usize = 0;
        assert(sv.routes.subrange(0, 0) =~= Seq::<RouteV>::empty());
        assert(base + route_entries(sv, sv.routes.subrange(0, 0), idx as int) =~= base);
        while j < service.routes.len()
            invariant
                j <= service.routes.len(),
                idx < sp.services.len(),
                ss == spec::services_view(sp.services@),
                ss[idx as int] == sv,
                base == all_entries(ss.subrange(0, idx as int)),
                sv == service@,
                sv.routes == spec::routes_view(service.routes@),
                score == score_spec(sv),
                prefix@ == prefix_spec(sv),
                win_fold(base + route_entries(sv, sv.routes.subrange(0, j as int), idx as int))
                    == Ok::<Seq<Entry>, Seq<char>>(w.view_log()),
            decreases service.routes.len() - j,
        {
            let rt = &service.routes[j];
            let ghost pre = sv.routes.subrange(0, j as int);
            assert(sv.routes.subrange(0, j + 1).drop_last() == pre);
            assert(sv.routes.subrange(0, j + 1).last() == rt@);
            if route_handler_name(rt).is_some() {
                let key = route_key_exec(&prefix, rt);
                let ghost e: Entry = (key@, score as int, idx as int);
                assert(key@ == route_key(sv, rt@));
                let ghost es = base + route_entries(sv, pre, idx as int);
                assert(base + route_entries(sv, sv.routes.subrange(0, j + 1), idx as int) =~= es.push(e));
                assert((es.push(e)).drop_last() =~= es);
                match w.lookup(&key) {
                    None => {
                        let ghost l0 = w.view_log();
                        w.log.push((key, score, idx));
                        assert(w.view_log() =~= l0.push(e));
                    },
                    Some((s, i)) => {
                        if score > s {
                            let ghost l0 = w.view_log();
                            w.log.push((key, score, idx));
                            assert(w.view_log() =~= l0.push(e));
                        } else if score == s && i != idx {
                            proof {
                                lemma_fold_err_extends(
                                    ss,
                                    idx as int,
                                    j as int,
                                    key@,
                                );
                            }
                            return Err(string_of(&key));
                        }
                    },
                }
            } else {
                assert(route_entries(sv, sv.routes.subrange(0, j + 1), idx as int)
                    == route_entries(sv, pre, idx as int));
            }
            j = j + 1;
        }
        assert(sv.routes.subrange(0, service.routes.len() as int) == sv.routes);
        assert(all_entries(ss.subrange(0, idx + 1)) == base + route_entries(
            sv,
            sv.routes,
            idx as int,
        ));
        idx = idx + 1;
    }
    assert(ss.subrange(0, sp.services.len() as int) == ss);
    Ok(w)
}

proof fn lemma_win_fold_err_append(a: Seq<Entry>, b: Seq<Entry>, k: Seq<char>)
    requires
        win_fold(a) == Err::<Seq<Entry>, Seq<char>>(k),
    ensures
        win_fold(a + b) == Err::<Seq<Entry>, Seq<char>>(k),
    decreases b.len(),
{
    if b.len() == 0 {
        assert(a + b =~= a);
    } else {
        lemma_win_fold_err_append(a, b.drop_last(), k);
        assert((a + b).drop_last() =~= a + b.drop_last());
    }
}

proof fn lemma_route_entries_prefix(s: ServiceV, rs: Seq<RouteV>, j: int, idx: int) -> (t: Seq<
    Entry,
>)
    requires
        0 <= j <= rs.len(),
    ensures
        route_entries(s, rs, idx) == route_entries(s, rs.subrange(0, j), idx) + t,
    decreases rs.len() - j,
{
    if j == rs.len() {
        assert(rs.subrange(0, j) == rs);
        assert(route_entries(s, rs, idx) == route_entries(s, rs, idx) + Seq::<Entry>::empty());
        Seq::empty()
    } else {
        let t = lemma_route_entries_prefix(s, rs, j + 1, idx);
        assert(rs.subrange(0, j + 1).drop_last() == rs.subrange(0, j));
        assert(rs.subrange(0, j + 1).last() == rs[j]);
        if handler_spec(rs[j]) is Some {
            let e = (route_key(s, rs[j]), score_spec(s), idx);
            assert(route_entries(s, rs, idx) =~= route_entries(s, rs.subrange(0, j), idx) + (seq![e]
                + t));
            seq![e] + t
        } else {
            assert(route_entries(s, rs.subrange(0, j + 1), idx) == route_entries(
                s,
                rs.subrange(0, j),
                idx,
            ));
            t
        }
    }
}

proof fn lemma_all_entries_prefix(ss: Seq<ServiceV>, i: int) -> (t: Seq<Entry>)
    requires
        0 <= i <= ss.len(),
    ensures
        all_entries(ss) == all_entries(ss.subrange(0, i)) + t,
    decreases ss.len() - i,
{
    if i == ss.len() {
        assert(ss.subrange(0, i) == ss);
        assert(all_entries(ss) == all_entries(ss) + Seq::<Entry>::empty());
        Seq::empty()
    } else {
        let t = lemma_all_entries_prefix(ss, i + 1);
        assert(ss.subrange(0, i + 1).drop_last() == ss.subrange(0, i));
        assert(ss.subrange(0, i + 1).last() == ss[i]);
        let mid = route_entries(ss[i], ss[i].routes, i);
        assert(all_entries(ss) =~= all_entries(ss.subrange(0, i)) + (mid + t));
        mid + t
    }
}

/// A conflict at route `j` of block `idx` is the result of the whole fold.
proof fn lemma_fold_err_extends(ss: Seq<ServiceV>, idx: int, j: int, k: Seq<char>)
    requires
        0 <= idx < ss.len(),
        0 <= j < ss[idx].routes.len(),
        win_fold(all_entries(ss.subrange(0, idx)) + route_entries(
            ss[idx],
            ss[idx].routes.subrange(0, j + 1),
            idx,
        )) == Err::<Seq<Entry>, Seq<char>>(k),
    ensures
        win_fold(all_entries(ss)) == Err::<Seq<Entry>, Seq<char>>(k),
{
    let s = ss[idx];
    let t = lemma_route_entries_prefix(s, s.routes, j + 1, idx);
    let a = all_entries(ss.subrange(0, idx)) + route_entries(s, s.routes.subrange(0, j + 1), idx);
    lemma_win_fold_err_append(a, t, k);
    assert(ss.subrange(0, idx + 1).drop_last() == ss.subrange(0, idx));
    assert(ss.subrange(0, idx + 1).last() == s);
    assert(all_entries(ss.subrange(0, idx + 1)) =~= a + t);
    let u = lemma_all_entries_prefix(ss, idx + 1);
    lemma_win_fold_err_append(a + t, u, k);
}


// ---------------------------------------------------------------------------
// The router! DSL text
// ---------------------------------------------------------------------------

/// The middleware line of a block with `@server(middleware: m)`.
pub open spec fn mw_line(s: ServiceV) -> Seq<char> {
    match server_kv(s, "middleware"@) {
        Some(m) => "middleware_fn crate::middleware::"@ + snake_spec(m) + "::handle;\n"@,
        None => Seq::empty(),
    }
}

/// The JWT middleware of a block with `@server(jwt: j)`; the secret comes from the
/// config field named after `j`.
pub open spec fn jwt_line(s: ServiceV, fw: Framework) -> Seq<char> {
    match server_kv(s, "jwt"@) {
        Some(j) => match fw {
            Framework::Actix => "middleware_fn ({\n    let secret = $svc_ctx.config."@ + snake_spec(j)
                + ".access_secret.clone();\n    move |req, next| {\n        let secret = secret.clone();\n        async move { rust_zero::rest::middleware::jwt::actix_jwt::handle(req, next, secret).await }\n    }\n});\n"@,
            Framework::Axum => "middleware_state rust_zero::rest::middleware::jwt::axum_jwt::state($svc_ctx.config."@
                + snake_spec(j)
                + ".access_secret.clone()), rust_zero::rest::middleware::jwt::axum_jwt::auth;\n"@,
        },
        None => Seq::empty(),
    }
}

/// `text` reads a JWT secret from the config field `f`: it holds
/// `$svc_ctx.config.<f>.access_secret`.
pub open spec fn reads_secret_of(text: Seq<char>, f: Seq<char>) -> bool {
    exists|p: Seq<char>, q: Seq<char>| text == p + "$svc_ctx.config."@ + f + ".access_secret"@ + q
}

/// For either framework, the JWT middleware of a block reads its secret from the
/// config field the generated configuration declares for the block's JWT name:
/// the snake-cased name, one of the spec's JWT modules.
pub proof fn law_jwt_reads_declared_field(ss: Seq<ServiceV>, i: int, fw: Framework)
    requires
        0 <= i < ss.len(),
        server_kv(ss[i], "jwt"@) is Some,
    ensures
        reads_secret_of(jwt_line(ss[i], fw), snake_spec(server_kv(ss[i], "jwt"@)->0)),
        server_value_named(ss, "jwt"@, snake_spec(server_kv(ss[i], "jwt"@)->0)),
{
    let j = server_kv(ss[i], "jwt"@)->0;
    let f = snake_spec(j);
    assert(server_module(ss[i], "jwt"@) == Some(f));
    reveal_strlit("$svc_ctx.config.");
    reveal_strlit(".access_secret");
    reveal_strlit("middleware_fn ({\n    let secret = $svc_ctx.config.");
    reveal_strlit("middleware_fn ({\n    let secret = ");
    reveal_strlit(".access_secret.clone();\n    move |req, next| {\n        let secret = secret.clone();\n        async move { rust_zero::rest::middleware::jwt::actix_jwt::handle(req, next, secret).await }\n    }\n});\n");
    reveal_strlit(".clone();\n    move |req, next| {\n        let secret = secret.clone();\n        async move { rust_zero::rest::middleware::jwt::actix_jwt::handle(req, next, secret).await }\n    }\n});\n");
    reveal_strlit("middleware_state rust_zero::rest::middleware::jwt::axum_jwt::state($svc_ctx.config.");
    reveal_strlit("middleware_state rust_zero::rest::middleware::jwt::axum_jwt::state(");
    reveal_strlit(".access_secret.clone()), rust_zero::rest::middleware::jwt::axum_jwt::auth;\n");
    reveal_strlit(".clone()), rust_zero::rest::middleware::jwt::axum_jwt::auth;\n");
    match fw {
        Framework::Actix => {
            let p = "middleware_fn ({\n    let secret = "@;
            let q = ".clone();\n    move |req, next| {\n        let secret = secret.clone();\n        async move { rust_zero::rest::middleware::jwt::actix_jwt::handle(req, next, secret).await }\n    }\n});\n"@;
            assert("middleware_fn ({\n    let secret = $svc_ctx.config."@ =~= p + "$svc_ctx.config."@);
            assert(".access_secret.clone();\n    move |req, next| {\n        let secret = secret.clone();\n        async move { rust_zero::rest::middleware::jwt::actix_jwt::handle(req, next, secret).await }\n    }\n});\n"@ =~= ".access_secret"@ + q);
            assert(jwt_line(ss[i], fw) =~= p + "$svc_ctx.config."@ + f + ".access_secret"@ + q);
        },
        Framework::Axum => {
            let p = "middleware_state rust_zero::rest::middleware::jwt::axum_jwt::state("@;
            let q = ".clone()), rust_zero::rest::middleware::jwt::axum_jwt::auth;\n"@;
            assert("middleware_state rust_zero::rest::middleware::jwt::axum_jwt::state($svc_ctx.config."@
                =~= p + "$svc_ctx.config."@);
            assert(".access_secret.clone()), rust_zero::rest::middleware::jwt::axum_jwt::auth;\n"@ =~= ".access_secret"@ + q);
            assert(jwt_line(ss[i], fw) =~= p + "$svc_ctx.config."@ + f + ".access_secret"@ + q);
        },
    }
}

/// The route lines of the routes `rs` of block `idx` that the block owns.
pub open spec fn route_lines(s: ServiceV, rs: Seq<RouteV>, idx: int, log: Seq<Entry>) -> Seq<char>
    decreases rs.len(),
{
    if rs.len() == 0 {
        Seq::empty()
    } else {
        let prev = route_lines(s, rs.drop_last(), idx, log);
        let r = rs.last();
        match handler_spec(r) {
            Some(h) => match log_lookup(log, route_key(s, r)) {
                Some((_, owner)) => if owner == idx {
                    prev + method_name(r.method) + " \""@ + r.path + "\" => crate::handler::"@
                        + snake_spec(effective_group_spec(s)) + "::handler::"@ + snake_spec(h)
                        + ";\n"@
                } else {
                    prev
                },
                None => prev,
            },
            None => prev,
        }
    }
}

/// The DSL text of block `idx`: nothing when it owns no route; its lines, inside a
/// `group "<prefix>" { ... }` when it has a prefix.
pub open spec fn block_text(s: ServiceV, idx: int, log: Seq<Entry>, fw: Framework) -> Seq<char> {
    let lines = route_lines(s, s.routes, idx, log);
    let block = mw_line(s) + jwt_line(s, fw) + lines;
    if lines.len() == 0 {
        Seq::empty()
    } else if trim(prefix_spec(s)).len() > 0 {
        "group \""@ + prefix_spec(s) + "\" {\n"@ + indent_spec(block, 4) + "}\n"@
    } else {
        block
    }
}

pub open spec fn blocks_text(ss: Seq<ServiceV>, log: Seq<Entry>, fw: Framework) -> Seq<char>
    decreases ss.len(),
{
    if ss.len() == 0 {
        Seq::empty()
    } else {
        blocks_text(ss.drop_last(), log, fw) + block_text(ss.last(), ss.len() - 1, log, fw)
    }
}

/// The `router!` body: the state, then every block's routes.
pub open spec fn additions_spec(ss: Seq<ServiceV>, log: Seq<Entry>, fw: Framework) -> Seq<char> {
    "state $svc_ctx.clone();\n"@ + blocks_text(ss, log, fw)
}

fn mw_line_exec(service: &spec::Service) -> (r: Vec<char>)
    ensures
        r@ == mw_line(service@),
{
    match service_middleware(service) {
        Some(m) => {
            let mut r = chars_of("middleware_fn crate::middleware::");
            let mc = chars_of_string(&m);
            let sm = snake_chars(&mc);
            extend(&mut r, &sm);
            extend_str(&mut r, "::handle;\n");
            r
        },
        None => Vec::new(),
    }
}

fn jwt_line_exec(service: &spec::Service, fw: Framework) -> (r: Vec<char>)
    ensures
        r@ == jwt_line(service@, fw),
{
    match service_jwt(service) {
        Some(j) => {
            let jc = chars_of_string(&j);
            let f = snake_chars(&jc);
            match fw {
                Framework::Actix => {
                    let mut r = chars_of("middleware_fn ({\n    let secret = $svc_ctx.config.");
                    extend(&mut r, &f);
                    extend_str(
                        &mut r,
                        ".access_secret.clone();\n    move |req, next| {\n        let secret = secret.clone();\n        async move { rust_zero::rest::middleware::jwt::actix_jwt::handle(req, next, secret).await }\n    }\n});\n",
                    );
                    r
                },
                Framework::Axum => {
                    let mut r = chars_of(
                        "middleware_state rust_zero::rest::middleware::jwt::axum_jwt::state($svc_ctx.config.",
                    );
                    extend(&mut r, &f);
                    extend_str(
                        &mut r,
                        ".access_secret.clone()), rust_zero::rest::middleware::jwt::axum_jwt::auth;\n",
                    );
                    r
                },
            }
        },
        None => Vec::new(),
    }
}

fn route_lines_exec(service: &spec::Service, idx: usize, w: &Winners) -> (r: Vec<char>)
    ensures
        r@ == route_lines(service@, service@.routes, idx as int, w.view_log()),
{
    let ghost sv = service@;
    let prefix = prefix_exec(service);
    let g = effective_group(service);
    let gc = chars_of_string(&g);
    let group = snake_chars(&gc);
    let mut out: Vec<char> = Vec::new();
    let mut j: usize = 0;
    assert(sv.routes.subrange(0, 0) =~= Seq::<RouteV>::empty());
    while j < service.routes.len()
        invariant
            j <= service.routes.len(),
            sv == service@,
            sv.routes == spec::routes_view(service.routes@),
            prefix@ == prefix_spec(sv),
            group@ == snake_spec(effective_group_spec(sv)),
            out@ == route_lines(sv, sv.routes.subrange(0, j as int), idx as int, w.view_log()),
        decreases service.routes.len() - j,
    {
        let rt = &service.routes[j];
        assert(sv.routes.subrange(0, j + 1).drop_last() == sv.routes.subrange(0, j as int));
        assert(sv.routes.subrange(0, j + 1).last() == rt@);
        match route_handler_name(rt) {
            Some(h) => {
                let key = route_key_exec(&prefix, rt);
                assert(key@ == route_key(sv, rt@));
                match w.owner(&key) {
                    Some(owner) => {
                        if owner == idx {
                            extend_str(&mut out, method_name_exec(rt.method));
                            extend_str(&mut out, " \"");
                            let pc = chars_of_string(&rt.path);
                            extend(&mut out, &pc);
                            extend_str(&mut out, "\" => crate::handler::");
                            extend(&mut out, &group);
                            extend_str(&mut out, "::handler::");
                            let hc = chars_of_string(&h);
                            let hs = snake_chars(&hc);
                            extend(&mut out, &hs);
                            extend_str(&mut out, ";\n");
                        }
                    },
                    None => {},
                }
            },
            None => {},
        }
        j = j + 1;
    }
    assert(sv.routes.subrange(0, service.routes.len() as int) == sv.routes);
    out
}

fn block_text_exec(service: &spec::Service, idx: usize, w: &Winners, fw: Framework) -> (r: Vec<char>)
    ensures
        r@ == block_text(service@, idx as int, w.view_log(), fw),
{
    let lines = route_lines_exec(service, idx, w);
    if lines.len() == 0 {
        return Vec::new();
    }
    let mut block = mw_line_exec(service);
    let jl = jwt_line_exec(service, fw);
    extend(&mut block, &jl);
    extend(&mut block, &lines);
    let prefix = prefix_exec(service);
    let tp = trim_exec(&prefix);
    if tp.len() > 0 {
        let mut r = chars_of("group \"");
        extend(&mut r, &prefix);
        extend_str(&mut r, "\" {\n");
        let bs = string_of(&block);
        let ind = indent_block(bs.as_str(), 4);
        let ic = chars_of_string(&ind);
        extend(&mut r, &ic);
        extend_str(&mut r, "}\n");
        r
    } else {
        block
    }
}

/// The `router!` body of a spec, given its route owners.
pub fn routes_additions(sp: &spec::Spec, w: &Winners, fw: Framework) -> (r: String)
    ensures
        r@ == additions_spec(spec::services_view(sp.services@), w.view_log(), fw),
{
    let ghost ss = spec::services_view(sp.services@);
    let mut out = chars_of("state $svc_ctx.clone();\n");
    let ghost head = out@;
    let mut idx: usize = 0;
    assert(ss.subrange(0, 0) =~= Seq::<ServiceV>::empty());
    while idx < sp.services.len()
        invariant
            idx <= sp.services.len(),
            ss == spec::services_view(sp.services@),
            head == "state $svc_ctx.clone();\n"@,
            out@ == head + blocks_text(ss.subrange(0, idx as int), w.view_log(), fw),
        decreases sp.services.len() - idx,
    {
        assert(ss.subrange(0, idx + 1).drop_last() == ss.subrange(0, idx as int));
        assert(ss.subrange(0, idx + 1).last() == sp.services@[idx as int]@);
        let b = block_text_exec(&sp.services[idx], idx, w, fw);
        extend(&mut out, &b);
        idx = idx + 1;
    }
    assert(ss.subrange(0, sp.services.len() as int) == ss);
    string_of(&out)
}

} // verus!
