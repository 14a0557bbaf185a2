//! The go-zero-like project tree generated for an API spec: which files, in
//! which order, and what each one holds.
use vstd::prelude::*;
use crate::render::{render, render_spec, Context, RenderError, ValV};
use crate::rsctl::bodies::{
    handler_text, handler_text_exec, handlers_body, handlers_body_exec, logic_text, logic_text_exec,
    logics_body, logics_body_exec, rep_route,
};
use crate::rsctl::groups::{
    collect_groups, collect_handlers, collect_server_values, groups_of, handlers_of,
    server_values_of,
};
use crate::rsctl::naming::{
    group_file_base_chars, group_file_base_spec, parse_style, service_name_from_input, snake_spec,
    style_spec, Style,
};
use crate::rsctl::pipeline::Framework;
use crate::rsctl::project::{
    base_context, base_vars, cargo_toml, cargo_toml_exec, config_context, config_vars,
    etc_suffix, etc_suffix_exec, group_root, group_root_exec, group_stub, group_stub_exec,
    handler_root, handler_root_exec, is_actix, is_actix_exec, middleware_context,
    middleware_root, middleware_root_exec, middleware_vars, split_root, split_root_exec,
    uses_validator, uses_validator_exec,
};
use crate::rsctl::routes::{additions_spec, routes_additions, select_winners, winners_spec};
use crate::rsctl::spec::{self, ServiceV, TypeDefV};
use crate::rsctl::typegen::{types_context, types_vars};
use crate::text::{chars_of, chars_of_string, extend, extend_str, lower, string_of};

pub mod actix;
pub mod axum;

verus! {

/// A generated file: its path relative to the output directory, and its content.
#[derive(Debug)]
pub struct Artifact {
    pub rel_path: String,
    pub content: String,
}

/// The generated files, in the order they are written.
#[derive(Debug)]
pub struct Artifacts {
    pub files: Vec<Artifact>,
}

pub open spec fn arts_view(v: Seq<Artifact>) -> Seq<(Seq<char>, Seq<char>)> {
    v.map_values(|a: Artifact| (a.rel_path@, a.content@))
}

/// The templates the generator renders, as read from `<root>/api/rs/`.
#[derive(Debug)]
pub struct Templates {
    pub context: String,
    pub etc: String,
    pub main: String,
    pub config: String,
    pub routes: String,
    pub handler: String,
    pub logic: String,
    pub types: String,
    pub middleware: String,
}

/// What the generator takes from its surroundings: the templates, the version
/// stamped into them, and the path of the `rust-zero` crate relative to the output.
#[derive(Debug)]
pub struct GenEnv {
    pub templates: Templates,
    pub version: String,
    pub rust_zero_rel: String,
}

/// Options of the framework entry points.
#[derive(Debug, Clone)]
pub struct Options {
    pub service_name: String,
    pub merge: bool,
    pub style: String,
    /// Output directory (the path of the `rust-zero` crate is computed from it).
    pub out_dir: String,
    pub template_root: String,
}

/// Why no tree was generated.
#[derive(Debug)]
pub enum GenError {
    /// The style is not one of `rust_zero`, `rustZero`, `RustZero` (the message says so).
    Style(String),
    /// A template could not be rendered.
    Render(String, RenderError),
    /// Two blocks of the same priority declare the same `METHOD path`.
    DuplicateRoute(String),
}

pub ghost enum GenErrV {
    Style(Seq<char>),
    Render(Seq<char>, RenderError),
    DuplicateRoute(Seq<char>),
}

impl View for GenError {
    type V = GenErrV;

    open spec fn view(&self) -> GenErrV {
        match self {
            GenError::Style(m) => GenErrV::Style(m@),
            GenError::Render(n, e) => GenErrV::Render(n@, *e),
            GenError::DuplicateRoute(k) => GenErrV::DuplicateRoute(k@),
        }
    }
}

pub open spec fn gen_message(e: GenErrV) -> Seq<char> {
    match e {
        GenErrV::Style(m) => m,
        GenErrV::Render(n, r) => "render "@ + n + ": "@ + r.message_spec(),
        GenErrV::DuplicateRoute(k) => "duplicate route detected with same priority: `"@ + k
            + "`.\nPlease remove duplicates or keep only one @server(...) variant."@,
    }
}

impl GenError {
    /// The error text.
    pub fn message(&self) -> (s: String)
        ensures
            s@ == gen_message(self@),
    {
        match self {
            GenError::Style(m) => m.clone(),
            GenError::Render(n, r) => {
                let mut out = chars_of("render ");
                extend_str(&mut out, n.as_str());
                extend_str(&mut out, ": ");
                let rm = r.message();
                extend_str(&mut out, rm.as_str());
                string_of(&out)
            },
            GenError::DuplicateRoute(k) => {
                let mut out = chars_of("duplicate route detected with same priority: `");
                extend_str(&mut out, k.as_str());
                extend_str(
                    &mut out,
                    "`.\nPlease remove duplicates or keep only one @server(...) variant.",
                );
                string_of(&out)
            },
        }
    }
}

// ---------------------------------------------------------------------------
// Recipes
// ---------------------------------------------------------------------------

/// How a file's content is made.
pub ghost enum Recipe {
    /// Fixed text.
    Text(Seq<char>),
    /// The named template rendered with the variables, then a suffix.
    Render(Seq<char>, Seq<char>, Map<Seq<char>, ValV>, Seq<char>),
    /// No file: generation stops with the error.
    Fail(GenErrV),
}

pub open spec fn recipe_result(r: Recipe) -> Result<Seq<char>, GenErrV> {
    match r {
        Recipe::Text(c) => Ok(c),
        Recipe::Render(name, tpl, vars, suffix) => match render_spec(tpl, vars) {
            Ok(c) => Ok(c + suffix),
            Err(e) => Err(GenErrV::Render(name, e)),
        },
        Recipe::Fail(e) => Err(e),
    }
}

/// The files the recipes make, in order; the first recipe that fails decides the error.
pub open spec fn cook(rs: Seq<(Seq<char>, Recipe)>) -> Result<Seq<(Seq<char>, Seq<char>)>, GenErrV>
    decreases rs.len(),
{
    if rs.len() == 0 {
        Ok(Seq::empty())
    } else {
        match cook(rs.drop_last()) {
            Err(e) => Err(e),
            Ok(files) => match recipe_result(rs.last().1) {
                Ok(c) => Ok(files.push((rs.last().0, c))),
                Err(e) => Err(e),
            },
        }
    }
}

pub open spec fn fw_kind(fw: Seq<char>) -> Framework {
    if is_actix(fw) {
        Framework::Actix
    } else {
        Framework::Axum
    }
}

/// The first files: `Cargo.toml`, the configuration, the entry, `config.rs`, `svc.rs`,
/// the handler root, the routes and the middleware root.
pub open spec fn head_recipes(
    fw: Seq<char>,
    ss: Seq<ServiceV>,
    ts: Seq<TypeDefV>,
    svc: Seq<char>,
    style: Style,
    tpl: TemplatesV,
    version: Seq<char>,
    rel: Seq<char>,
) -> Seq<(Seq<char>, Recipe)> {
    let base = base_vars(version, svc, fw);
    let js = server_values_of(ss, "jwt"@);
    let ms = server_values_of(ss, "middleware"@);
    seq![
        ("Cargo.toml"@, Recipe::Text(cargo_toml(svc, fw, js.len() > 0, uses_validator(ts), rel))),
        ("etc/"@ + svc + ".yaml"@, Recipe::Render("etc.tpl"@, tpl.etc, base, etc_suffix(js))),
        (svc + ".rs"@, Recipe::Render("main.tpl"@, tpl.main, base, Seq::empty())),
        ("config.rs"@, Recipe::Render("config.tpl"@, tpl.config, config_vars(base, js), Seq::empty())),
        ("svc.rs"@, Recipe::Render("context.tpl"@, tpl.context, base, Seq::empty())),
        ("handler.rs"@, Recipe::Text(handler_root(groups_of(ss), style))),
        ("handler/routes.rs"@, match winners_spec(ss) {
            Err(k) => Recipe::Fail(GenErrV::DuplicateRoute(k)),
            Ok(log) => Recipe::Render(
                "routes.tpl"@,
                tpl.routes,
                base.insert(lower("routesAdditions"@), ValV::Str(additions_spec(ss, log, fw_kind(fw)))),
                Seq::empty(),
            ),
        }),
        ("middleware.rs"@, Recipe::Text(middleware_root(ms))),
        ("middleware/prelude.rs"@, Recipe::Text("// generated by rsctl\n"@)),
    ]
}

/// One file per declared middleware.
pub open spec fn mw_recipes(
    base: Map<Seq<char>, ValV>,
    fw: Seq<char>,
    ms: Seq<Seq<char>>,
    tpl: Seq<char>,
) -> Seq<(Seq<char>, Recipe)> {
    ms.map_values(
        |m: Seq<char>|
            (
                "middleware/"@ + m + ".rs"@,
                Recipe::Render("middleware.tpl"@, tpl, middleware_vars(base, fw, m), Seq::empty()),
            ),
    )
}

/// One handler file per handler of group `g`: `handler/<g>/<h>.rs`.
pub open spec fn handler_files(
    fw: Seq<char>,
    ss: Seq<ServiceV>,
    ts: Seq<TypeDefV>,
    tpl: TemplatesV,
    base: Map<Seq<char>, ValV>,
    g: Seq<char>,
    hs: Seq<Seq<char>>,
) -> Seq<(Seq<char>, Recipe)> {
    hs.map_values(
        |h: Seq<char>|
            (
                "handler/"@ + g + "/"@ + h + ".rs"@,
                Recipe::Render(
                    "handler.tpl"@,
                    tpl.handler,
                    base.insert(
                        lower("handlers"@),
                        ValV::Str(handler_text(fw, g, h, rep_route(ss, g, h), ts)),
                    ),
                    Seq::empty(),
                ),
            ),
    )
}

/// One logic file per handler of group `g`: `logic/<g>/<h>.rs`.
pub open spec fn logic_files(
    ss: Seq<ServiceV>,
    tpl: TemplatesV,
    base: Map<Seq<char>, ValV>,
    g: Seq<char>,
    hs: Seq<Seq<char>>,
) -> Seq<(Seq<char>, Recipe)> {
    hs.map_values(
        |h: Seq<char>|
            (
                "logic/"@ + g + "/"@ + h + ".rs"@,
                Recipe::Render(
                    "logic.tpl"@,
                    tpl.logic,
                    base.insert(lower("logics"@), ValV::Str(logic_text(g, h, rep_route(ss, g, h)))),
                    Seq::empty(),
                ),
            ),
    )
}

/// The files of group `g`. Merged: for handler, logic and types, the module stub and
/// its body (six files). Split: the handler and logic bodies become module lists,
/// followed by one file per handler each.
pub open spec fn group_recipes(
    fw: Seq<char>,
    ss: Seq<ServiceV>,
    ts: Seq<TypeDefV>,
    style: Style,
    tpl: TemplatesV,
    base: Map<Seq<char>, ValV>,
    merge: bool,
    g: Seq<char>,
) -> Seq<(Seq<char>, Recipe)> {
    let fb = group_file_base_spec(g, style);
    let hs = handlers_of(ss, g);
    if merge {
        merged_group_recipes(fw, ss, ts, style, tpl, base, g)
    } else {
        seq![
            ("handler/"@ + fb + ".rs"@, Recipe::Text(group_stub("handler"@, g))),
            ("handler/"@ + g + "/handler.rs"@, Recipe::Text(split_root(hs))),
        ] + handler_files(fw, ss, ts, tpl, base, g, hs) + seq![
            ("logic/"@ + fb + ".rs"@, Recipe::Text(group_stub("logic"@, g))),
            ("logic/"@ + g + "/logic.rs"@, Recipe::Text(split_root(hs))),
        ] + logic_files(ss, tpl, base, g, hs) + seq![
            ("types/"@ + fb + ".rs"@, Recipe::Text(group_stub("types"@, g))),
            ("types/"@ + g + "/types.rs"@, Recipe::Render(
                "types.tpl"@,
                tpl.types,
                types_vars(base, g, ss, ts),
                Seq::empty(),
            )),
        ]
    }
}

/// The six files of a merged group `g`: for handler, logic and types, the module
/// stub and its body.
pub open spec fn merged_group_recipes(
    fw: Seq<char>,
    ss: Seq<ServiceV>,
    ts: Seq<TypeDefV>,
    style: Style,
    tpl: TemplatesV,
    base: Map<Seq<char>, ValV>,
    g: Seq<char>,
) -> Seq<(Seq<char>, Recipe)> {
    let fb = group_file_base_spec(g, style);
    let hs = handlers_of(ss, g);
    seq![
        ("handler/"@ + fb + ".rs"@, Recipe::Text(group_stub("handler"@, g))),
        ("handler/"@ + g + "/handler.rs"@, Recipe::Render(
            "handler.tpl"@,
            tpl.handler,
            base.insert(lower("handlers"@), ValV::Str(handlers_body(fw, g, hs, ss, ts))),
            Seq::empty(),
        )),
        ("logic/"@ + fb + ".rs"@, Recipe::Text(group_stub("logic"@, g))),
        ("logic/"@ + g + "/logic.rs"@, Recipe::Render(
            "logic.tpl"@,
            tpl.logic,
            base.insert(lower("logics"@), ValV::Str(logics_body(g, hs, ss))),
            Seq::empty(),
        )),
        ("types/"@ + fb + ".rs"@, Recipe::Text(group_stub("types"@, g))),
        ("types/"@ + g + "/types.rs"@, Recipe::Render(
            "types.tpl"@,
            tpl.types,
            types_vars(base, g, ss, ts),
            Seq::empty(),
        )),
    ]
}

pub open spec fn groups_recipes(
    fw: Seq<char>,
    ss: Seq<ServiceV>,
    ts: Seq<TypeDefV>,
    style: Style,
    tpl: TemplatesV,
    base: Map<Seq<char>, ValV>,
    merge: bool,
    gs: Seq<Seq<char>>,
) -> Seq<(Seq<char>, Recipe)>
    decreases gs.len(),
{
    if gs.len() == 0 {
        Seq::empty()
    } else {
        groups_recipes(fw, ss, ts, style, tpl, base, merge, gs.drop_last()) + group_recipes(
            fw,
            ss,
            ts,
            style,
            tpl,
            base,
            merge,
            gs.last(),
        )
    }
}

pub ghost struct TemplatesV {
    pub context: Seq<char>,
    pub etc: Seq<char>,
    pub main: Seq<char>,
    pub config: Seq<char>,
    pub routes: Seq<char>,
    pub handler: Seq<char>,
    pub logic: Seq<char>,
    pub types: Seq<char>,
    pub middleware: Seq<char>,
}

impl View for Templates {
    type V = TemplatesV;

    open spec fn view(&self) -> TemplatesV {
        TemplatesV {
            context: self.context@,
            etc: self.etc@,
            main: self.main@,
            config: self.config@,
            routes: self.routes@,
            handler: self.handler@,
            logic: self.logic@,
            types: self.types@,
            middleware: self.middleware@,
        }
    }
}

/// Every file of the tree, in the order the generator writes them.
pub open spec fn tree_recipes(
    fw: Seq<char>,
    ss: Seq<ServiceV>,
    ts: Seq<TypeDefV>,
    svc: Seq<char>,
    style: Style,
    tpl: TemplatesV,
    version: Seq<char>,
    rel: Seq<char>,
    merge: bool,
) -> Seq<(Seq<char>, Recipe)> {
    let base = base_vars(version, svc, fw);
    let gs = groups_of(ss);
    head_recipes(fw, ss, ts, svc, style, tpl, version, rel) + mw_recipes(
        base,
        fw,
        server_values_of(ss, "middleware"@),
        tpl.middleware,
    ) + seq![
        ("logic.rs"@, Recipe::Text(group_root("logic"@, gs, style))),
        ("types.rs"@, Recipe::Text(group_root("types"@, gs, style))),
    ] + groups_recipes(fw, ss, ts, style, tpl, base, merge, gs)
}

/// What `generate_go_like_tree` returns.
pub open spec fn tree_spec(
    fw: Seq<char>,
    ss: Seq<ServiceV>,
    ts: Seq<TypeDefV>,
    service_name: Seq<char>,
    style: Seq<char>,
    tpl: TemplatesV,
    version: Seq<char>,
    rel: Seq<char>,
    merge: bool,
) -> Result<Seq<(Seq<char>, Seq<char>)>, GenErrV> {
    match style_spec(style) {
        None => Err(
            GenErrV::Style(
                "unsupported style: "@ + style + " (expected rust_zero|rustZero|RustZero)"@,
            ),
        ),
        Some(st) => cook(
            tree_recipes(fw, ss, ts, snake_spec(service_name), st, tpl, version, rel, merge),
        ),
    }
}

pub open spec fn gen_result_view(r: Result<Artifacts, GenError>) -> Result<
    Seq<(Seq<char>, Seq<char>)>,
    GenErrV,
> {
    match r {
        Ok(a) => Ok(arts_view(a.files@)),
        Err(e) => Err(e@),
    }
}

/// Every recipe makes exactly one file, at its path, in order.
pub proof fn law_cook_paths(rs: Seq<(Seq<char>, Recipe)>)
    ensures
        cook(rs) matches Ok(files) ==> files.len() == rs.len() && forall|i: int|
            0 <= i < rs.len() ==> (#[trigger] files[i]).0 == rs[i].0,
    decreases rs.len(),
{
    if rs.len() > 0 {
        law_cook_paths(rs.drop_last());
        if let Ok(files) = cook(rs) {
            let prev = cook(rs.drop_last())->Ok_0;
            assert forall|i: int| 0 <= i < rs.len() implies (#[trigger] files[i]).0 == rs[i].0 by {
                if i < rs.len() - 1 {
                    assert(files[i] == prev[i]);
                    assert(rs.drop_last()[i] == rs[i]);
                }
            }
        }
    }
}

/// How many files group `g` makes: six when merged, and two more per handler when split.
pub open spec fn group_file_count(ss: Seq<ServiceV>, merge: bool, g: Seq<char>) -> nat {
    if merge {
        6
    } else {
        6 + 2 * handlers_of(ss, g).len()
    }
}

/// How many files the groups `gs` make.
pub open spec fn groups_file_count(ss: Seq<ServiceV>, merge: bool, gs: Seq<Seq<char>>) -> nat
    decreases gs.len(),
{
    if gs.len() == 0 {
        0
    } else {
        groups_file_count(ss, merge, gs.drop_last()) + group_file_count(ss, merge, gs.last())
    }
}

proof fn lemma_groups_recipes_len(
    fw: Seq<char>,
    ss: Seq<ServiceV>,
    ts: Seq<TypeDefV>,
    style: Style,
    tpl: TemplatesV,
    base: Map<Seq<char>, ValV>,
    merge: bool,
    gs: Seq<Seq<char>>,
)
    ensures
        groups_recipes(fw, ss, ts, style, tpl, base, merge, gs).len() == groups_file_count(
            ss,
            merge,
            gs,
        ),
        merge ==> groups_file_count(ss, merge, gs) == 6 * gs.len(),
    decreases gs.len(),
{
    if gs.len() > 0 {
        lemma_groups_recipes_len(fw, ss, ts, style, tpl, base, merge, gs.drop_last());
    }
}

/// A generated tree has `Cargo.toml` first and the entry `<service>.rs` third, and
/// holds eleven files, one per declared middleware, and per group six when merged,
/// six plus two per handler when split.
pub proof fn law_tree_shape(
    fw: Seq<char>,
    ss: Seq<ServiceV>,
    ts: Seq<TypeDefV>,
    service_name: Seq<char>,
    style: Seq<char>,
    tpl: TemplatesV,
    version: Seq<char>,
    rel: Seq<char>,
    merge: bool,
)
    ensures
        tree_spec(fw, ss, ts, service_name, style, tpl, version, rel, merge) matches Ok(files) ==> {
            &&& files.len() == 11 + server_values_of(ss, "middleware"@).len() + groups_file_count(
                ss,
                merge,
                groups_of(ss),
            )
            &&& merge ==> files.len() == 11 + server_values_of(ss, "middleware"@).len() + 6
                * groups_of(ss).len()
            &&& files[0].0 == "Cargo.toml"@
            &&& files[2].0 == snake_spec(service_name) + ".rs"@
        },
{
    if let Some(st) = style_spec(style) {
        let svc = snake_spec(service_name);
        let rs = tree_recipes(fw, ss, ts, svc, st, tpl, version, rel, merge);
        let base = base_vars(version, svc, fw);
        let ms = server_values_of(ss, "middleware"@);
        let head = head_recipes(fw, ss, ts, svc, st, tpl, version, rel);
        let mw = mw_recipes(base, fw, ms, tpl.middleware);
        let gr = groups_recipes(fw, ss, ts, st, tpl, base, merge, groups_of(ss));
        lemma_groups_recipes_len(fw, ss, ts, st, tpl, base, merge, groups_of(ss));
        assert(head.len() == 9);
        assert(mw.len() == ms.len());
        assert(rs.len() == 11 + ms.len() + gr.len());
        law_cook_paths(rs);
        assert(rs[0] == head[0]);
        assert(rs[2] == head[2]);
    }
}

// ---------------------------------------------------------------------------
// Plans: recipes held as values
// ---------------------------------------------------------------------------

/// How a file's content is made, with the values needed to make it.
enum Plan {
    Text(String),
    Render(String, String, Context, Vec<char>),
    Fail(GenError),
}

impl View for Plan {
    type V = Recipe;

    closed spec fn view(&self) -> Recipe {
        match self {
            Plan::Text(c) => Recipe::Text(c@),
            Plan::Render(n, t, c, s) => Recipe::Render(n@, t@, c.vars(), s@),
            Plan::Fail(e) => Recipe::Fail(e@),
        }
    }
}

spec fn plans_view(v: Seq<(String, Plan)>) -> Seq<(Seq<char>, Recipe)> {
    v.map_values(|p: (String, Plan)| (p.0@, p.1@))
}

fn text_plan(path: String, c: String) -> (p: (String, Plan))
    ensures
        p.0@ == path@,
        p.1@ == Recipe::Text(c@),
{
    (path, Plan::Text(c))
}

fn render_plan(path: String, name: &str, tpl: &String, ctx: Context, suffix: Vec<char>) -> (p: (
    String,
    Plan,
))
    ensures
        p.0@ == path@,
        p.1@ == Recipe::Render(name@, tpl@, ctx.vars(), suffix@),
{
    (path, Plan::Render(String::from_str(name), tpl.clone(), ctx, suffix))
}

proof fn lemma_cook_err_extends(rs: Seq<(Seq<char>, Recipe)>, n: int)
    requires
        0 <= n <= rs.len(),
        cook(rs.subrange(0, n)) is Err,
    ensures
        cook(rs) == cook(rs.subrange(0, n)),
    decreases rs.len() - n,
{
    if n < rs.len() {
        assert(rs.subrange(0, n + 1).drop_last() == rs.subrange(0, n));
        lemma_cook_err_extends(rs, n + 1);
    } else {
        assert(rs.subrange(0, n) == rs);
    }
}

/// Makes the files of the plans, in order, stopping at the first failure.
fn cook_exec(plans: Vec<(String, Plan)>) -> (r: Result<Vec<Artifact>, GenError>)
    ensures
        match r {
            Ok(a) => cook(plans_view(plans@)) == Ok::<Seq<(Seq<char>, Seq<char>)>, GenErrV>(
                arts_view(a@),
            ),
            Err(e) => cook(plans_view(plans@)) == Err::<Seq<(Seq<char>, Seq<char>)>, GenErrV>(e@),
        },
{
    let ghost pv = plans_view(plans@);
    let mut files: Vec<Artifact> = Vec::new();
    let mut i: usize = 0;
    let n = plans.len();
    let mut queue = plans;
    assert(pv.subrange(0, 0) =~= Seq::<(Seq<char>, Recipe)>::empty());
    assert(arts_view(files@) =~= Seq::<(Seq<char>, Seq<char>)>::empty());
    while i < n
        invariant
            i <= n,
            pv == plans_view(plans@),
            n == pv.len(),
            queue@.len() == n - i,
            plans_view(queue@) == pv.subrange(i as int, n as int),
            cook(pv.subrange(0, i as int)) == Ok::<Seq<(Seq<char>, Seq<char>)>, GenErrV>(
                arts_view(files@),
            ),
        decreases n - i,
    {
        assert(plans_view(queue@)[0] == pv[i as int]);
        let ghost rest = queue@;
        let (path, plan) = queue.remove(0);
        assert(plans_view(queue@) =~= pv.subrange(i + 1, n as int)) by {
            assert(queue@ =~= rest.subrange(1, rest.len() as int));
            assert forall|k: int| 0 <= k < queue@.len() implies #[trigger] plans_view(queue@)[k]
                == pv[i + 1 + k] by {
                assert(queue@[k] == rest[k + 1]);
                assert(plans_view(rest)[k + 1] == pv.subrange(i as int, n as int)[k + 1]);
            }
        }
        assert(pv.subrange(0, i + 1).drop_last() == pv.subrange(0, i as int));
        assert(pv.subrange(0, i + 1).last() == pv[i as int]);
        assert(plan@ == pv[i as int].1);
        assert(path@ == pv[i as int].0);
        let content: String = match plan {
            Plan::Text(c) => c,
            Plan::Render(name, tpl, ctx, suffix) => match render(tpl.as_str(), &ctx) {
                Ok(c) => {
                    let mut cc = chars_of_string(&c);
                    extend(&mut cc, &suffix);
                    string_of(&cc)
                },
                Err(e) => {
                    proof {
                        lemma_cook_err_extends(pv, i + 1);
                        assert(pv.subrange(0, pv.len() as int) == pv);
                    }
                    return Err(GenError::Render(name, e));
                },
            },
            Plan::Fail(e) => {
                proof {
                    assert(recipe_result(pv[i as int].1) == Err::<Seq<char>, GenErrV>(e@));
                    assert(cook(pv.subrange(0, i + 1)) == Err::<Seq<(Seq<char>, Seq<char>)>, GenErrV>(e@));
                    lemma_cook_err_extends(pv, i + 1);
                    assert(cook(pv) == Err::<Seq<(Seq<char>, Seq<char>)>, GenErrV>(e@));
                }
                return Err(e);
            },
        };
        let ghost a0 = arts_view(files@);
        files.push(Artifact { rel_path: path, content });
        assert(arts_view(files@) =~= a0.push((pv[i as int].0, content@)));
        i = i + 1;
    }
    assert(pv.subrange(0, n as int) == pv);
    Ok(files)
}

// ---------------------------------------------------------------------------
// The tree
// ---------------------------------------------------------------------------

/// Plans the first files of the tree.
fn head_plans(
    fw: &str,
    sp: &spec::Spec,
    svc: &String,
    style: Style,
    tpl: &Templates,
    base: &Context,
    version: &str,
    rel: &str,
    js: &Vec<Vec<char>>,
    ms: &Vec<Vec<char>>,
    gs: &Vec<Vec<char>>,
) -> (r: Vec<(String, Plan)>)
    requires
        base.vars() == base_vars(version@, svc@, fw@),
        js@.map_values(|x: Vec<char>| x@) == server_values_of(
            spec::services_view(sp.services@),
            "jwt"@,
        ),
        ms@.map_values(|x: Vec<char>| x@) == server_values_of(
            spec::services_view(sp.services@),
            "middleware"@,
        ),
        gs@.map_values(|x: Vec<char>| x@) == groups_of(spec::services_view(sp.services@)),
    ensures
        plans_view(r@) == head_recipes(
            fw@,
            spec::services_view(sp.services@),
            spec::types_view(sp.types@),
            svc@,
            style,
            tpl@,
            version@,
            rel@,
        ),
{
    let ghost ss = spec::services_view(sp.services@);
    let mut plans: Vec<(String, Plan)> = Vec::new();
    let validator = uses_validator_exec(&sp.types);
    let cargo = cargo_toml_exec(svc.as_str(), fw, js.len() > 0, validator, rel);
    plans.push(text_plan(String::from_str("Cargo.toml"), cargo));
    let mut etc_path = chars_of("etc/");
    extend_str(&mut etc_path, svc.as_str());
    extend_str(&mut etc_path, ".yaml");
    let suffix = etc_suffix_exec(js);
    plans.push(render_plan(string_of(&etc_path), "etc.tpl", &tpl.etc, base.clone(), suffix));
    let mut entry = chars_of_string(svc);
    extend_str(&mut entry, ".rs");
    plans.push(render_plan(string_of(&entry), "main.tpl", &tpl.main, base.clone(), Vec::new()));
    let cfg = config_context(base, js);
    plans.push(render_plan(String::from_str("config.rs"), "config.tpl", &tpl.config, cfg, Vec::new()));
    plans.push(render_plan(String::from_str("svc.rs"), "context.tpl", &tpl.context, base.clone(), Vec::new()));
    let hroot = handler_root_exec(gs, style);
    plans.push(text_plan(String::from_str("handler.rs"), hroot));
    let routes_path = String::from_str("handler/routes.rs");
    match select_winners(sp) {
        Err(k) => {
            plans.push((routes_path, Plan::Fail(GenError::DuplicateRoute(k))));
        },
        Ok(w) => {
            let kind = if is_actix_exec(fw) {
                Framework::Actix
            } else {
                Framework::Axum
            };
            let adds = routes_additions(sp, &w, kind);
            let ctx = base.clone().set_str("routesAdditions", adds);
            plans.push(render_plan(routes_path, "routes.tpl", &tpl.routes, ctx, Vec::new()));
        },
    }
    let mroot = middleware_root_exec(ms);
    plans.push(text_plan(String::from_str("middleware.rs"), mroot));
    plans.push(
        text_plan(String::from_str("middleware/prelude.rs"), String::from_str("// generated by rsctl\n")),
    );
    assert(plans_view(plans@) =~= head_recipes(
        fw@,
        ss,
        spec::types_view(sp.types@),
        svc@,
        style,
        tpl@,
        version@,
        rel@,
    ));
    plans
}

/// The handlers of group `g`, in order, as characters.
fn handler_names(sp: &spec::Spec, g: &Vec<char>) -> (r: Vec<Vec<char>>)
    ensures
        r@.map_values(|x: Vec<char>| x@) == handlers_of(spec::services_view(sp.services@), g@),
{
    let hs_set = collect_handlers(sp, g);
    let hs = hs_set.to_strings();
    let mut hsv: Vec<Vec<char>> = Vec::new();
    let mut i: usize = 0;
    while i < hs.len()
        invariant
            i <= hs.len(),
            hs@.map_values(|s: String| s@) == hs_set.elems(),
            hsv@.len() == i,
            forall|k: int| 0 <= k < i ==> (#[trigger] hsv@[k])@ == hs@[k]@,
        decreases hs.len() - i,
    {
        hsv.push(chars_of_string(&hs[i]));
        i = i + 1;
    }
    assert(hsv@.map_values(|x: Vec<char>| x@) =~= hs_set.elems());
    hsv
}

/// Plans one handler file per handler in `hs`.
fn handler_file_plans(
    plans: &mut Vec<(String, Plan)>,
    fw: &str,
    sp: &spec::Spec,
    tpl: &Templates,
    base: &Context,
    g: &Vec<char>,
    hs: &Vec<Vec<char>>,
)
    ensures
        plans_view(final(plans)@) == plans_view(old(plans)@) + handler_files(
            fw@,
            spec::services_view(sp.services@),
            spec::types_view(sp.types@),
            tpl@,
            base.vars(),
            g@,
            hs@.map_values(|v: Vec<char>| v@),
        ),
{
    let ghost p0 = plans_view(plans@);
    let ghost hv = hs@.map_values(|v: Vec<char>| v@);
    let ghost ss = spec::services_view(sp.services@);
    let ghost ts = spec::types_view(sp.types@);
    let mut i: usize = 0;
    while i < hs.len()
        invariant
            i <= hs.len(),
            hv == hs@.map_values(|v: Vec<char>| v@),
            ss == spec::services_view(sp.services@),
            ts == spec::types_view(sp.types@),
            plans_view(plans@) == p0 + handler_files(
                fw@,
                ss,
                ts,
                tpl@,
                base.vars(),
                g@,
                hv.subrange(0, i as int),
            ),
        decreases hs.len() - i,
    {
        let ghost q0 = plans_view(plans@);
        let mut p = chars_of("handler/");
        extend(&mut p, g);
        extend_str(&mut p, "/");
        extend(&mut p, &hs[i]);
        extend_str(&mut p, ".rs");
        let t = handler_text_exec(fw, sp, g, &hs[i]);
        let ctx = base.clone().set_str("handlers", string_of(&t));
        let item = render_plan(string_of(&p), "handler.tpl", &tpl.handler, ctx, Vec::new());
        let ghost iv = (item.0@, item.1@);
        plans.push(item);
        assert(plans_view(plans@) =~= q0.push(iv));
        proof {
            let old_f = handler_files(fw@, ss, ts, tpl@, base.vars(), g@, hv.subrange(0, i as int));
            let new_f = handler_files(fw@, ss, ts, tpl@, base.vars(), g@, hv.subrange(0, i + 1));
            assert forall|k: int| 0 <= k < i implies #[trigger] new_f[k] == old_f[k] by {
                assert(hv.subrange(0, i + 1)[k] == hv.subrange(0, i as int)[k]);
            }
            assert(hv.subrange(0, i + 1)[i as int] == hs@[i as int]@);
            assert(new_f[i as int] == iv);
            assert(new_f =~= old_f.push(iv));
        }
        i = i + 1;
    }
    assert(hv.subrange(0, hs.len() as int) == hv);
}

/// Plans one logic file per handler in `hs`.
fn logic_file_plans(
    plans: &mut Vec<(String, Plan)>,
    sp: &spec::Spec,
    tpl: &Templates,
    base: &Context,
    g: &Vec<char>,
    hs: &Vec<Vec<char>>,
)
    ensures
        plans_view(final(plans)@) == plans_view(old(plans)@) + logic_files(
            spec::services_view(sp.services@),
            tpl@,
            base.vars(),
            g@,
            hs@.map_values(|v: Vec<char>| v@),
        ),
{
    let ghost p0 = plans_view(plans@);
    let ghost hv = hs@.map_values(|v: Vec<char>| v@);
    let ghost ss = spec::services_view(sp.services@);
    let mut i: usize = 0;
    while i < hs.len()
        invariant
            i <= hs.len(),
            hv == hs@.map_values(|v: Vec<char>| v@),
            ss == spec::services_view(sp.services@),
            plans_view(plans@) == p0 + logic_files(
                ss,
                tpl@,
                base.vars(),
                g@,
                hv.subrange(0, i as int),
            ),
        decreases hs.len() - i,
    {
        let ghost q0 = plans_view(plans@);
        let mut p = chars_of("logic/");
        extend(&mut p, g);
        extend_str(&mut p, "/");
        extend(&mut p, &hs[i]);
        extend_str(&mut p, ".rs");
        let t = logic_text_exec(sp, g, &hs[i]);
        let ctx = base.clone().set_str("logics", string_of(&t));
        let item = render_plan(string_of(&p), "logic.tpl", &tpl.logic, ctx, Vec::new());
        let ghost iv = (item.0@, item.1@);
        plans.push(item);
        assert(plans_view(plans@) =~= q0.push(iv));
        proof {
            let old_f = logic_files(ss, tpl@, base.vars(), g@, hv.subrange(0, i as int));
            let new_f = logic_files(ss, tpl@, base.vars(), g@, hv.subrange(0, i + 1));
            assert forall|k: int| 0 <= k < i implies #[trigger] new_f[k] == old_f[k] by {
                assert(hv.subrange(0, i + 1)[k] == hv.subrange(0, i as int)[k]);
            }
            assert(hv.subrange(0, i + 1)[i as int] == hs@[i as int]@);
            assert(new_f[i as int] == iv);
            assert(new_f =~= old_f.push(iv));
        }
        i = i + 1;
    }
    assert(hv.subrange(0, hs.len() as int) == hv);
}

/// Plans the files of group `g`, merged or split.
fn group_plans(
    plans: &mut Vec<(String, Plan)>,
    fw: &str,
    sp: &spec::Spec,
    style: Style,
    tpl: &Templates,
    base: &Context,
    merge: bool,
    g: &Vec<char>,
)
    ensures
        plans_view(final(plans)@) == plans_view(old(plans)@) + group_recipes(
            fw@,
            spec::services_view(sp.services@),
            spec::types_view(sp.types@),
            style,
            tpl@,
            base.vars(),
            merge,
            g@,
        ),
{
    if merge {
        merged_group_plans(plans, fw, sp, style, tpl, base, g);
        return ;
    }
    let ghost p0 = plans_view(plans@);
    let fb = group_file_base_chars(g, style);
    let hsv = handler_names(sp, g);
    let mut p = chars_of("handler/");
    extend(&mut p, &fb);
    extend_str(&mut p, ".rs");
    plans.push(text_plan(string_of(&p), group_stub_exec("handler", g)));
    let mut p = chars_of("handler/");
    extend(&mut p, g);
    extend_str(&mut p, "/handler.rs");
    plans.push(text_plan(string_of(&p), split_root_exec(&hsv)));
    let ghost p1 = plans_view(plans@);
    handler_file_plans(plans, fw, sp, tpl, base, g, &hsv);
    let ghost p2 = plans_view(plans@);
    let mut p = chars_of("logic/");
    extend(&mut p, &fb);
    extend_str(&mut p, ".rs");
    plans.push(text_plan(string_of(&p), group_stub_exec("logic", g)));
    let mut p = chars_of("logic/");
    extend(&mut p, g);
    extend_str(&mut p, "/logic.rs");
    plans.push(text_plan(string_of(&p), split_root_exec(&hsv)));
    let ghost p3 = plans_view(plans@);
    logic_file_plans(plans, sp, tpl, base, g, &hsv);
    let ghost p4 = plans_view(plans@);
    proof {
        let ss = spec::services_view(sp.services@);
        let ts = spec::types_view(sp.types@);
        let hv = hsv@.map_values(|v: Vec<char>| v@);
        assert(hv == handlers_of(ss, g@));
        assert(p2 == p1 + handler_files(fw@, ss, ts, tpl@, base.vars(), g@, hv));
        assert(p4 == p3 + logic_files(ss, tpl@, base.vars(), g@, hv));
    }
    let mut p = chars_of("types/");
    extend(&mut p, &fb);
    extend_str(&mut p, ".rs");
    plans.push(text_plan(string_of(&p), group_stub_exec("types", g)));
    let mut p = chars_of("types/");
    extend(&mut p, g);
    extend_str(&mut p, "/types.rs");
    let ctx = types_context(base, sp, g);
    plans.push(render_plan(string_of(&p), "types.tpl", &tpl.types, ctx, Vec::new()));
    proof {
        let ss = spec::services_view(sp.services@);
        let ts = spec::types_view(sp.types@);
        let hs = handlers_of(ss, g@);
        let fbs = group_file_base_spec(g@, style);
        let a = seq![
            ("handler/"@ + fbs + ".rs"@, Recipe::Text(group_stub("handler"@, g@))),
            ("handler/"@ + g@ + "/handler.rs"@, Recipe::Text(split_root(hs))),
        ];
        let b = seq![
            ("logic/"@ + fbs + ".rs"@, Recipe::Text(group_stub("logic"@, g@))),
            ("logic/"@ + g@ + "/logic.rs"@, Recipe::Text(split_root(hs))),
        ];
        let c = seq![
            ("types/"@ + fbs + ".rs"@, Recipe::Text(group_stub("types"@, g@))),
            ("types/"@ + g@ + "/types.rs"@, Recipe::Render(
                "types.tpl"@,
                tpl@.types,
                types_vars(base.vars(), g@, ss, ts),
                Seq::empty(),
            )),
        ];
        assert(p1 =~= p0 + a);
        assert(p3 =~= p2 + b);
        assert(plans_view(plans@) =~= p4 + c);
        let hf = handler_files(fw@, ss, ts, tpl@, base.vars(), g@, hs);
        let lf = logic_files(ss, tpl@, base.vars(), g@, hs);
        assert(group_recipes(fw@, ss, ts, style, tpl@, base.vars(), merge, g@) == a + hf + b + lf
            + c);
        assert(plans_view(plans@) =~= p0 + (a + hf + b + lf + c));
    }
}

/// Plans the six files of merged group `g`.
fn merged_group_plans(
    plans: &mut Vec<(String, Plan)>,
    fw: &str,
    sp: &spec::Spec,
    style: Style,
    tpl: &Templates,
    base: &Context,
    g: &Vec<char>,
)
    ensures
        plans_view(final(plans)@) == plans_view(old(plans)@) + merged_group_recipes(
            fw@,
            spec::services_view(sp.services@),
            spec::types_view(sp.types@),
            style,
            tpl@,
            base.vars(),
            g@,
        ),
{
    let ghost p0 = plans_view(plans@);
    let fb = group_file_base_chars(g, style);
    let hsv = handler_names(sp, g);
    let mut p = chars_of("handler/");
    extend(&mut p, &fb);
    extend_str(&mut p, ".rs");
    plans.push(text_plan(string_of(&p), group_stub_exec("handler", g)));
    let mut p = chars_of("handler/");
    extend(&mut p, g);
    extend_str(&mut p, "/handler.rs");
    let hb = handlers_body_exec(fw, sp, g, &hsv);
    let ctx = base.clone().set_str("handlers", string_of(&hb));
    plans.push(render_plan(string_of(&p), "handler.tpl", &tpl.handler, ctx, Vec::new()));
    let mut p = chars_of("logic/");
    extend(&mut p, &fb);
    extend_str(&mut p, ".rs");
    plans.push(text_plan(string_of(&p), group_stub_exec("logic", g)));
    let mut p = chars_of("logic/");
    extend(&mut p, g);
    extend_str(&mut p, "/logic.rs");
    let lb = logics_body_exec(sp, g, &hsv);
    let ctx = base.clone().set_str("logics", string_of(&lb));
    plans.push(render_plan(string_of(&p), "logic.tpl", &tpl.logic, ctx, Vec::new()));
    let mut p = chars_of("types/");
    extend(&mut p, &fb);
    extend_str(&mut p, ".rs");
    plans.push(text_plan(string_of(&p), group_stub_exec("types", g)));
    let mut p = chars_of("types/");
    extend(&mut p, g);
    extend_str(&mut p, "/types.rs");
    let ctx = types_context(base, sp, g);
    plans.push(render_plan(string_of(&p), "types.tpl", &tpl.types, ctx, Vec::new()));
    assert(plans_view(plans@) =~= p0 + merged_group_recipes(
        fw@,
        spec::services_view(sp.services@),
        spec::types_view(sp.types@),
        style,
        tpl@,
        base.vars(),
        g@,
    ));
}

// ---------------------------------------------------------------------------
// Relative paths
// ---------------------------------------------------------------------------

/// The number of leading components two paths share.
pub open spec fn common_len(a: Seq<Seq<char>>, b: Seq<Seq<char>>) -> nat
    decreases a.len(),
{
    if a.len() == 0 || b.len() == 0 || a[0] != b[0] {
        0
    } else {
        1 + common_len(a.drop_first(), b.drop_first())
    }
}

/// The components of the path from directory `from` to `to`: `to` itself when they
/// share no leading component, else one `..` per component of `from` past the shared
/// ones followed by the rest of `to` (`.` when that is nothing).
pub open spec fn relative_spec(from: Seq<Seq<char>>, to: Seq<Seq<char>>) -> Seq<Seq<char>> {
    let i = common_len(from, to);
    if i == 0 {
        to
    } else {
        let out = Seq::new((from.len() - i) as nat, |k: int| ".."@) + to.subrange(i as int, to.len() as int);
        if out.len() == 0 {
            seq!["."@]
        } else {
            out
        }
    }
}

proof fn lemma_common_len_bound(a: Seq<Seq<char>>, b: Seq<Seq<char>>)
    ensures
        common_len(a, b) <= a.len(),
        common_len(a, b) <= b.len(),
    decreases a.len(),
{
    if a.len() > 0 && b.len() > 0 && a[0] == b[0] {
        lemma_common_len_bound(a.drop_first(), b.drop_first());
    }
}

proof fn lemma_common_len_self(a: Seq<Seq<char>>)
    ensures
        common_len(a, a) == a.len(),
    decreases a.len(),
{
    if a.len() > 0 {
        lemma_common_len_self(a.drop_first());
    }
}

/// The relative path from a directory to itself is `.`.
pub proof fn law_relative_to_self(a: Seq<Seq<char>>)
    requires
        a.len() > 0,
    ensures
        relative_spec(a, a) == seq!["."@],
{
    lemma_common_len_self(a);
    let out = Seq::new(0 as nat, |k: int| ".."@) + a.subrange(a.len() as int, a.len() as int);
    assert(out =~= Seq::<Seq<char>>::empty());
}

fn same_text(a: &String, b: &String) -> (r: bool)
    ensures
        r == (a@ == b@),
{
    let x = chars_of_string(a);
    let y = chars_of_string(b);
    crate::text::eq_chars(&x, &y)
}

/// The relative path from directory `from` to `to`, component by component.
pub fn relative_path(from: &Vec<String>, to: &Vec<String>) -> (r: Vec<String>)
    ensures
        r@.map_values(|s: String| s@) == relative_spec(
            from@.map_values(|s: String| s@),
            to@.map_values(|s: String| s@),
        ),
{
    let ghost fv = from@.map_values(|s: String| s@);
    let ghost tv = to@.map_values(|s: String| s@);
    let mut i: usize = 0;
    assert(fv.subrange(0, fv.len() as int) == fv);
    assert(tv.subrange(0, tv.len() as int) == tv);
    while i < from.len() && i < to.len() && same_text(&from[i], &to[i])
        invariant
            i <= from.len(),
            i <= to.len(),
            fv == from@.map_values(|s: String| s@),
            tv == to@.map_values(|s: String| s@),
            common_len(fv, tv) == i + common_len(
                fv.subrange(i as int, fv.len() as int),
                tv.subrange(i as int, tv.len() as int),
            ),
        decreases from.len() - i,
    {
        assert(fv.subrange(i as int, fv.len() as int).drop_first() == fv.subrange(
            i + 1,
            fv.len() as int,
        ));
        assert(tv.subrange(i as int, tv.len() as int).drop_first() == tv.subrange(
            i + 1,
            tv.len() as int,
        ));
        i = i + 1;
    }
    assert(common_len(fv, tv) == i);
    if i == 0 {
        let mut r: Vec<String> = Vec::new();
        let mut k: usize = 0;
        while k < to.len()
            invariant
                k <= to.len(),
                tv == to@.map_values(|s: String| s@),
                r@.map_values(|s: String| s@) == tv.subrange(0, k as int),
            decreases to.len() - k,
        {
            let ghost r0 = r@.map_values(|s: String| s@);
            let c = to[k].clone();
            assert(c@ == tv[k as int]);
            r.push(c);
            assert(r@.map_values(|s: String| s@) =~= r0.push(tv[k as int]));
            assert(tv.subrange(0, k + 1) =~= tv.subrange(0, k as int).push(tv[k as int]));
            k = k + 1;
        }
        assert(tv.subrange(0, to.len() as int) == tv);
        return r;
    }
    let mut r: Vec<String> = Vec::new();
    let mut k: usize = i;
    while k < from.len()
        invariant
            i <= k <= from.len(),
            r@.map_values(|s: String| s@) == Seq::new((k - i) as nat, |j: int| ".."@),
        decreases from.len() - k,
    {
        let ghost r0 = r@.map_values(|s: String| s@);
        let c = String::from_str("..");
        r.push(c);
        assert(r@.map_values(|s: String| s@) =~= r0.push(".."@));
        assert(Seq::new((k + 1 - i) as nat, |j: int| ".."@) =~= Seq::new((k - i) as nat, |j: int| ".."@).push(".."@));
        k = k + 1;
    }
    let ghost dots = r@.map_values(|s: String| s@);
    let mut k: usize = i;
    while k < to.len()
        invariant
            i <= k <= to.len(),
            tv == to@.map_values(|s: String| s@),
            r@.map_values(|s: String| s@) == dots + tv.subrange(i as int, k as int),
        decreases to.len() - k,
    {
        let ghost r0 = r@.map_values(|s: String| s@);
        let c = to[k].clone();
        assert(c@ == tv[k as int]);
        r.push(c);
        assert(r@.map_values(|s: String| s@) =~= r0.push(tv[k as int]));
        assert(tv.subrange(i as int, k + 1) =~= tv.subrange(i as int, k as int).push(tv[k as int]));
        k = k + 1;
    }
    if r.len() == 0 {
        r.push(String::from_str("."));
        assert(r@.map_values(|s: String| s@) =~= seq!["."@]);
    }
    r
}

/// Generates the project tree of `spec` for `framework` (`actix`, or any other name
/// for axum). The style must be `rust_zero`, `rustZero` or `RustZero`; the files
/// are those of [`tree_recipes`] (with `merge`, one handler file and one logic file
/// per group; without, one of each per handler), and the first template that fails
/// to render (or a route declared twice with the same priority) stops the generation.
pub fn generate_go_like_tree(
    framework: &str,
    spec: &spec::Spec,
    service_name: &str,
    merge: bool,
    style: &str,
    env: &GenEnv,
) -> (r: Result<Artifacts, GenError>)
    ensures
        gen_result_view(r) == tree_spec(
            framework@,
            spec::services_view(spec.services@),
            spec::types_view(spec.types@),
            service_name@,
            style@,
            env.templates@,
            env.version@,
            env.rust_zero_rel@,
            merge,
        ),
{
    let ghost ss = spec::services_view(spec.services@);
    let ghost ts = spec::types_view(spec.types@);
    let svc = service_name_from_input(service_name);
    let st = match parse_style(style) {
        Ok(st) => st,
        Err(m) => {
            return Err(GenError::Style(m));
        },
    };
    let fw = framework;
    let base = base_context(env.version.as_str(), svc.as_str(), fw);
    let js = collect_server_values(spec, "jwt");
    let ms = collect_server_values(spec, "middleware");
    let gs = collect_groups(spec);
    let jsv = js.to_chars();
    let msv = ms.to_chars();
    let gsv = gs.to_chars();
    let mut plans = head_plans(
        fw,
        spec,
        &svc,
        st,
        &env.templates,
        &base,
        env.version.as_str(),
        env.rust_zero_rel.as_str(),
        &jsv,
        &msv,
        &gsv,
    );
    let ghost head = plans_view(plans@);
    let mut i: usize = 0;
    while i < msv.len()
        invariant
            i <= msv.len(),
            msv@.map_values(|x: Vec<char>| x@) == server_values_of(ss, "middleware"@),
            ss == spec::services_view(spec.services@),
            base.vars() == base_vars(env.version@, svc@, fw@),
            plans_view(plans@) == head + mw_recipes(
                base.vars(),
                fw@,
                server_values_of(ss, "middleware"@).subrange(0, i as int),
                env.templates.middleware@,
            ),
        decreases msv.len() - i,
    {
        let ghost p0 = plans_view(plans@);
        let mut p = chars_of("middleware/");
        extend(&mut p, &msv[i]);
        extend_str(&mut p, ".rs");
        let ctx = middleware_context(&base, fw, &msv[i]);
        let item = render_plan(string_of(&p), "middleware.tpl", &env.templates.middleware, ctx, Vec::new());
        let ghost iv = (item.0@, item.1@);
        plans.push(item);
        assert(plans_view(plans@) =~= p0.push(iv));
        assert(server_values_of(ss, "middleware"@)[i as int] == msv@[i as int]@);
        proof {
            let msq = server_values_of(ss, "middleware"@);
            let old_mw = mw_recipes(base.vars(), fw@, msq.subrange(0, i as int), env.templates.middleware@);
            let new_mw = mw_recipes(base.vars(), fw@, msq.subrange(0, i + 1), env.templates.middleware@);
            assert(new_mw.len() == i + 1);
            assert forall|k: int| 0 <= k < i implies #[trigger] new_mw[k] == old_mw[k] by {
                assert(msq.subrange(0, i + 1)[k] == msq.subrange(0, i as int)[k]);
            }
            assert(new_mw[i as int] == (
                "middleware/"@ + msv@[i as int]@ + ".rs"@,
                Recipe::Render("middleware.tpl"@, env.templates.middleware@, middleware_vars(base.vars(), fw@, msv@[i as int]@), Seq::empty()),
            ));
            assert(new_mw =~= old_mw.push(new_mw[i as int]));
        }
        assert(plans_view(plans@) =~= head + mw_recipes(
            base.vars(),
            fw@,
            server_values_of(ss, "middleware"@).subrange(0, i + 1),
            env.templates.middleware@,
        ));
        i = i + 1;
    }
    assert(server_values_of(ss, "middleware"@).subrange(0, msv.len() as int) == server_values_of(
        ss,
        "middleware"@,
    ));
    let ghost head2 = plans_view(plans@);
    plans.push(text_plan(String::from_str("logic.rs"), group_root_exec("logic", &gsv, st)));
    plans.push(text_plan(String::from_str("types.rs"), group_root_exec("types", &gsv, st)));
    let ghost head3 = plans_view(plans@);
    assert(head3 =~= head2 + seq![
        ("logic.rs"@, Recipe::Text(group_root("logic"@, groups_of(ss), st))),
        ("types.rs"@, Recipe::Text(group_root("types"@, groups_of(ss), st))),
    ]);
    let ghost gsq = groups_of(ss);
    let mut j: usize = 0;
    assert(gsq.subrange(0, 0) =~= Seq::<Seq<char>>::empty());
    while j < gsv.len()
        invariant
            j <= gsv.len(),
            gsv@.map_values(|x: Vec<char>| x@) == gsq,
            gsq == groups_of(ss),
            ss == spec::services_view(spec.services@),
            ts == spec::types_view(spec.types@),
            base.vars() == base_vars(env.version@, svc@, fw@),
            plans_view(plans@) == head3 + groups_recipes(
                fw@,
                ss,
                ts,
                st,
                env.templates@,
                base.vars(),
                merge,
                gsq.subrange(0, j as int),
            ),
        decreases gsv.len() - j,
    {
        let ghost p0 = plans_view(plans@);
        group_plans(&mut plans, fw, spec, st, &env.templates, &base, merge, &gsv[j]);
        assert(gsq.subrange(0, j + 1).drop_last() == gsq.subrange(0, j as int));
        assert(gsq.subrange(0, j + 1).last() == gsv@[j as int]@);
        assert(plans_view(plans@) =~= head3 + groups_recipes(
            fw@,
            ss,
            ts,
            st,
            env.templates@,
            base.vars(),
            merge,
            gsq.subrange(0, j + 1),
        ));
        j = j + 1;
    }
    assert(gsq.subrange(0, gsv.len() as int) == gsq);
    assert(plans_view(plans@) =~= tree_recipes(
        fw@,
        ss,
        ts,
        svc@,
        st,
        env.templates@,
        env.version@,
        env.rust_zero_rel@,
        merge,
    ));
    match cook_exec(plans) {
        Ok(files) => Ok(Artifacts { files }),
        Err(e) => Err(e),
    }
}

/// The tree for a framework, from the options of its entry point.
pub fn generate_by_framework(
    framework: &str,
    spec: &spec::Spec,
    opts: &Options,
    env: &GenEnv,
) -> (r: Result<Artifacts, GenError>)
    ensures
        gen_result_view(r) == tree_spec(
            framework@,
            spec::services_view(spec.services@),
            spec::types_view(spec.types@),
            opts.service_name@,
            opts.style@,
            env.templates@,
            env.version@,
            env.rust_zero_rel@,
            opts.merge,
        ),
{
    generate_go_like_tree(
        framework,
        spec,
        opts.service_name.as_str(),
        opts.merge,
        opts.style.as_str(),
        env,
    )
}

} // verus!
