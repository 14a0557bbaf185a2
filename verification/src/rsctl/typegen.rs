//! The types of a group: the request and response types its routes name, and
//! the declared types their fields reach, as Rust structs.
use vstd::prelude::*;
use crate::render::{Context, ValV};
use crate::rsctl::bodies::{find_type, type_lookup, type_validated, type_validated_exec};
use crate::rsctl::gen::effective_group;
use crate::rsctl::groups::group_of;
use crate::rsctl::naming::{
    api_ty_spec, api_ty_to_rust_chars, join, join_with, pairs_lookup, snake_chars, snake_spec,
    strings_view, tag_kv_map, tag_pairs, validate_attrs, validate_attrs_spec,
};
use crate::rsctl::spec::{self, FieldV, RouteV, ServiceV, TypeDefV};
use crate::sorted::{lemma_sorted_members, sorted_members, SortedSet};
use crate::text::{
    chars_of, chars_of_string, eq_chars, extend, extend_str, lower, slice, starts_with,
    starts_with_str, string_of, strip_or_keep,
};

verus! {

/// A type name with one leading `[]` removed.
pub open spec fn norm(t: Seq<char>) -> Seq<char> {
    strip_or_keep(t, "[]"@)
}

pub fn norm_exec(t: &Vec<char>) -> (r: Vec<char>)
    ensures
        r@ == norm(t@),
{
    proof {
        reveal_strlit("[]");
    }
    if starts_with_str(t, "[]") {
        let r = slice(t, 2, t.len());
        assert(r@ == t@.subrange(2, t@.len() as int));
        r
    } else {
        t.clone()
    }
}

// ---------------------------------------------------------------------------
// Roots and reachability
// ---------------------------------------------------------------------------

pub open spec fn opt_root(t: Option<Seq<char>>) -> Seq<Seq<char>> {
    match t {
        Some(x) => seq![norm(x)],
        None => Seq::empty(),
    }
}

/// The request and response types of the routes, in order.
pub open spec fn route_roots(rs: Seq<RouteV>) -> Seq<Seq<char>>
    decreases rs.len(),
{
    if rs.len() == 0 {
        Seq::empty()
    } else {
        route_roots(rs.drop_last()) + opt_root(rs.last().request) + opt_root(rs.last().response)
    }
}

/// The request and response types of the routes of the blocks of group `g`, in order.
pub open spec fn group_roots(ss: Seq<ServiceV>, g: Seq<char>) -> Seq<Seq<char>>
    decreases ss.len(),
{
    if ss.len() == 0 {
        Seq::empty()
    } else {
        group_roots(ss.drop_last(), g) + if group_of(ss.last()) == g {
            route_roots(ss.last().routes)
        } else {
            Seq::empty()
        }
    }
}

/// The field types of a declared type that are declared too and not yet required, in order.
pub open spec fn field_pushes(ts: Seq<TypeDefV>, fs: Seq<FieldV>, req: Set<Seq<char>>) -> Seq<
    Seq<char>,
>
    decreases fs.len(),
{
    if fs.len() == 0 {
        Seq::empty()
    } else {
        let ft = norm(fs.last().ty);
        field_pushes(ts, fs.drop_last(), req) + if type_lookup(ts, ft) is Some && !req.contains(ft) {
            seq![ft]
        } else {
            Seq::empty()
        }
    }
}

/// One step of the breadth-first walk: take the first queued name, require it,
/// and queue the declared field types it reaches.
pub open spec fn bfs_step(ts: Seq<TypeDefV>, q: Seq<Seq<char>>, req: Set<Seq<char>>) -> (
    Seq<Seq<char>>,
    Set<Seq<char>>,
) {
    if q.len() == 0 {
        (q, req)
    } else {
        let t = norm(q[0]);
        if req.contains(t) {
            (q.drop_first(), req)
        } else {
            let req2 = req.insert(t);
            match type_lookup(ts, t) {
                Some(td) => (q.drop_first() + field_pushes(ts, td.fields, req2), req2),
                None => (q.drop_first(), req2),
            }
        }
    }
}

/// The state of the walk from `roots` after `n` steps.
pub open spec fn bfs_iter(ts: Seq<TypeDefV>, roots: Seq<Seq<char>>, n: nat) -> (
    Seq<Seq<char>>,
    Set<Seq<char>>,
)
    decreases n,
{
    if n == 0 {
        (roots, Set::empty())
    } else {
        let p = bfs_iter(ts, roots, (n - 1) as nat);
        bfs_step(ts, p.0, p.1)
    }
}

/// The names the walk from `roots` requires once its queue is empty.
pub open spec fn required_types(ts: Seq<TypeDefV>, roots: Seq<Seq<char>>) -> Set<Seq<char>> {
    let n = choose|n: nat| bfs_iter(ts, roots, n).0.len() == 0;
    bfs_iter(ts, roots, n).1
}

/// The required names of group `g`, in `String` order.
pub open spec fn required_names(ss: Seq<ServiceV>, ts: Seq<TypeDefV>, g: Seq<char>) -> Seq<Seq<char>> {
    sorted_members(|y: Seq<char>| required_types(ts, group_roots(ss, g)).contains(y))
}

proof fn lemma_bfs_stays(ts: Seq<TypeDefV>, roots: Seq<Seq<char>>, n: nat, m: nat)
    requires
        n <= m,
        bfs_iter(ts, roots, n).0.len() == 0,
    ensures
        bfs_iter(ts, roots, m) == bfs_iter(ts, roots, n),
    decreases m - n,
{
    if m > n {
        lemma_bfs_stays(ts, roots, n, (m - 1) as nat);
    }
}

proof fn lemma_required_at(ts: Seq<TypeDefV>, roots: Seq<Seq<char>>, k: nat)
    requires
        bfs_iter(ts, roots, k).0.len() == 0,
    ensures
        required_types(ts, roots) == bfs_iter(ts, roots, k).1,
{
    let n = choose|n: nat| bfs_iter(ts, roots, n).0.len() == 0;
    if n <= k {
        lemma_bfs_stays(ts, roots, n, k);
    } else {
        lemma_bfs_stays(ts, roots, k, n);
    }
}

/// A declared name found by `type_lookup` is the name of some declaration.
proof fn lemma_type_lookup_name(ts: Seq<TypeDefV>, n: Seq<char>)
    requires
        type_lookup(ts, n) is Some,
    ensures
        exists|k: int| 0 <= k < ts.len() && ts[k].name == n,
    decreases ts.len(),
{
    if ts.last().name != n {
        lemma_type_lookup_name(ts.drop_last(), n);
        let k = choose|k: int| 0 <= k < ts.len() - 1 && ts.drop_last()[k].name == n;
        assert(ts[k] == ts.drop_last()[k]);
    } else {
        assert(ts[ts.len() - 1] == ts.last());
    }
}

fn push_opt_root(out: &mut Vec<Vec<char>>, t: &Option<String>)
    ensures
        final(out)@.map_values(|v: Vec<char>| v@) == old(out)@.map_values(|v: Vec<char>| v@)
            + opt_root(spec::opt_view(*t)),
{
    let ghost o0 = out@.map_values(|v: Vec<char>| v@);
    match t {
        Some(x) => {
            let xc = chars_of_string(x);
            let n = norm_exec(&xc);
            out.push(n);
        },
        None => {},
    }
    assert(out@.map_values(|v: Vec<char>| v@) =~= o0 + opt_root(spec::opt_view(*t)));
}

/// The roots of group `g`.
pub fn group_roots_exec(sp: &spec::Spec, g: &Vec<char>) -> (r: Vec<Vec<char>>)
    ensures
        r@.map_values(|v: Vec<char>| v@) == group_roots(spec::services_view(sp.services@), g@),
{
    let ghost ss = spec::services_view(sp.services@);
    let mut out: Vec<Vec<char>> = Vec::new();
    let mut i: usize = 0;
    assert(out@.map_values(|v: Vec<char>| v@) =~= Seq::<Seq<char>>::empty());
    while i < sp.services.len()
        invariant
            i <= sp.services.len(),
            ss == spec::services_view(sp.services@),
            out@.map_values(|v: Vec<char>| v@) == group_roots(ss.subrange(0, i as int), g@),
        decreases sp.services.len() - i,
    {
        let service = &sp.services[i];
        assert(ss.subrange(0, i + 1).drop_last() == ss.subrange(0, i as int));
        assert(ss.subrange(0, i + 1).last() == service@);
        let ghost before = out@.map_values(|v: Vec<char>| v@);
        let eg = effective_group(service);
        let egc = chars_of_string(&eg);
        let gs = snake_chars(&egc);
        if eq_chars(&gs, g) {
            let ghost rv = spec::routes_view(service.routes@);
            let mut j: usize = 0;
            while j < service.routes.len()
                invariant
                    j <= service.routes.len(),
                    rv == spec::routes_view(service.routes@),
                    out@.map_values(|v: Vec<char>| v@) == before + route_roots(
                        rv.subrange(0, j as int),
                    ),
                decreases service.routes.len() - j,
            {
                assert(rv.subrange(0, j + 1).drop_last() == rv.subrange(0, j as int));
                assert(rv.subrange(0, j + 1).last() == service.routes@[j as int]@);
                push_opt_root(&mut out, &service.routes[j].request);
                push_opt_root(&mut out, &service.routes[j].response);
                j = j + 1;
            }
            assert(rv.subrange(0, service.routes.len() as int) == rv);
        }
        i = i + 1;
    }
    assert(ss.subrange(0, sp.services.len() as int) == ss);
    out
}

pub open spec fn names_view(v: Seq<Vec<char>>) -> Seq<Seq<char>> {
    v.map_values(|x: Vec<char>| x@)
}

/// The names the types of group `g` require, in `String` order.
pub fn collect_required(sp: &spec::Spec, g: &Vec<char>) -> (r: SortedSet)
    ensures
        r.wf(),
        r.elems() == required_names(spec::services_view(sp.services@), spec::types_view(sp.types@), g@),
{
    let ghost ss = spec::services_view(sp.services@);
    let ghost ts = spec::types_view(sp.types@);
    let mut q = group_roots_exec(sp, g);
    let ghost roots = names_view(q@);
    let ghost uset = (roots + ts.map_values(|t: TypeDefV| t.name)).map_values(
        |x: Seq<char>| norm(x),
    ).to_set();
    proof {
        vstd::seq_lib::seq_to_set_is_finite(
            (roots + ts.map_values(|t: TypeDefV| t.name)).map_values(|x: Seq<char>| norm(x)),
        );
        assert forall|i: int| 0 <= i < q@.len() implies uset.contains(norm(#[trigger] q@[i]@)) by {
            let all = roots + ts.map_values(|t: TypeDefV| t.name);
            assert(all[i] == q@[i]@);
            assert(all.map_values(|x: Seq<char>| norm(x))[i] == norm(q@[i]@));
        }
    }
    let mut qi: usize = 0;
    let mut set = SortedSet::new();
    let ghost mut k: nat = 0;
    proof {
        set.lemma_card();
        assert(names_view(q@).subrange(0, q@.len() as int) == roots);
        assert(set.elems().to_set() =~= Set::<Seq<char>>::empty());
    }
    while qi < q.len()
        invariant
            qi <= q.len(),
            set.wf(),
            ss == spec::services_view(sp.services@),
            ts == spec::types_view(sp.types@),
            uset.finite(),
            uset == (roots + ts.map_values(|t: TypeDefV| t.name)).map_values(
                |x: Seq<char>| norm(x),
            ).to_set(),
            set.elems().to_set().subset_of(uset),
            forall|i: int| qi <= i < q@.len() ==> uset.contains(norm(#[trigger] q@[i]@)),
            bfs_iter(ts, roots, k) == (
                names_view(q@).subrange(qi as int, q@.len() as int),
                set.elems().to_set(),
            ),
        decreases uset.len() - set.elems().len(), q.len() - qi,
    {
        proof {
            set.lemma_card();
            vstd::set_lib::lemma_len_subset(set.elems().to_set(), uset);
        }
        let ghost q0 = names_view(q@).subrange(qi as int, q@.len() as int);
        let ghost r0 = set.elems().to_set();
        let ghost n0 = set.elems().len();
        let t = norm_exec(&q[qi]);
        assert(q0[0] == q@[qi as int]@);
        assert(uset.contains(t@));
        qi = qi + 1;
        assert(q0.drop_first() == names_view(q@).subrange(qi as int, q@.len() as int));
        if set.contains(&t) {
            assert(r0.contains(t@));
        } else {
            assert(!r0.contains(t@));
            set.insert(t.clone());
            let ghost r2 = set.elems().to_set();
            assert(r2 =~= r0.insert(t@));
            proof {
                set.lemma_card();
                vstd::set::axiom_set_insert_len(r0, t@);
                assert(set.elems().len() == n0 + 1);
            }
            match find_type(&sp.types, &t) {
                Some(td) => {
                    let ghost rest = names_view(q@).subrange(qi as int, q@.len() as int);
                    let ghost fv = td@.fields;
                    let mut j: usize = 0;
                    while j < td.fields.len()
                        invariant
                            j <= td.fields.len(),
                            qi <= q@.len(),
                            set.wf(),
                            ts == spec::types_view(sp.types@),
                            fv == td@.fields,
                            r2 == set.elems().to_set(),
                            uset == (roots + ts.map_values(|t: TypeDefV| t.name)).map_values(
                                |x: Seq<char>| norm(x),
                            ).to_set(),
                            forall|i: int| qi <= i < q@.len() ==> uset.contains(norm(#[trigger] q@[i]@)),
                            names_view(q@).subrange(qi as int, q@.len() as int) == rest
                                + field_pushes(ts, fv.subrange(0, j as int), r2),
                        decreases td.fields.len() - j,
                    {
                        assert(fv.subrange(0, j + 1).drop_last() == fv.subrange(0, j as int));
                        assert(fv.subrange(0, j + 1).last() == td.fields@[j as int]@);
                        let tyc = chars_of_string(&td.fields[j].ty);
                        let ft = norm_exec(&tyc);
                        let ghost qn = names_view(q@).subrange(qi as int, q@.len() as int);
                        if find_type(&sp.types, &ft).is_some() && !set.contains(&ft) {
                            proof {
                                lemma_type_lookup_name(ts, ft@);
                                let kk = choose|kk: int| 0 <= kk < ts.len() && ts[kk].name == ft@;
                                let all = roots + ts.map_values(|t: TypeDefV| t.name);
                                assert(all[roots.len() + kk] == ft@);
                                assert(all.map_values(|x: Seq<char>| norm(x))[roots.len() + kk]
                                    == norm(ft@));
                            }
                            q.push(ft);
                            assert(names_view(q@).subrange(qi as int, q@.len() as int) =~= qn.push(
                                ft@,
                            ));
                        }
                        j = j + 1;
                    }
                    assert(fv.subrange(0, td.fields.len() as int) == fv);
                    assert(type_lookup(ts, t@) == Some(td@));
                },
                None => {},
            }
        }
        proof {
            k = k + 1;
            set.lemma_card();
            vstd::set_lib::lemma_len_subset(set.elems().to_set(), uset);
        }
    }
    proof {
        lemma_required_at(ts, roots, k);
        let req = required_types(ts, roots);
        assert forall|y: Seq<char>| set.elems().contains(y) <==> req.contains(y) by {
            if set.elems().contains(y) {
                let i = choose|i: int| 0 <= i < set.elems().len() && set.elems()[i] == y;
                assert(set.elems().to_set().contains(set.elems()[i]));
            }
        }
        set.lemma_sorted();
        lemma_sorted_members(set.elems(), |y: Seq<char>| required_types(ts, group_roots(ss, g@)).contains(y));
    }
    set
}

// ---------------------------------------------------------------------------
// Declarations
// ---------------------------------------------------------------------------

/// The serde name of a field: its `json`, else `form`, else `path` tag value.
pub open spec fn rename_of(ps: Seq<(Seq<char>, Seq<char>)>) -> Option<Seq<char>> {
    match pairs_lookup(ps, "json"@) {
        Some(v) => Some(v),
        None => match pairs_lookup(ps, "form"@) {
            Some(v) => Some(v),
            None => pairs_lookup(ps, "path"@),
        },
    }
}

pub open spec fn attr_lines(attrs: Seq<Seq<char>>) -> Seq<char>
    decreases attrs.len(),
{
    if attrs.len() == 0 {
        Seq::empty()
    } else {
        attr_lines(attrs.drop_last()) + "    "@ + attrs.last() + "\n"@
    }
}

/// The attribute lines and the declaration of one field.
pub open spec fn field_lines(g: Seq<char>, f: FieldV) -> Seq<char> {
    let rt = api_ty_spec(g, f.ty);
    (match f.tag {
        Some(tag) => {
            let ps = tag_pairs(tag, 0);
            (match rename_of(ps) {
                Some(v) => "    #[serde(rename = \""@ + v + "\")]\n"@,
                None => Seq::empty(),
            }) + (match pairs_lookup(ps, "validate"@) {
                Some(v) => attr_lines(validate_attrs_spec(rt, v)),
                None => Seq::empty(),
            })
        },
        None => Seq::empty(),
    }) + "    pub "@ + snake_spec(f.name) + ": "@ + rt + ",\n"@
}

pub open spec fn fields_text(g: Seq<char>, fs: Seq<FieldV>) -> Seq<char>
    decreases fs.len(),
{
    if fs.len() == 0 {
        Seq::empty()
    } else {
        fields_text(g, fs.drop_last()) + field_lines(g, fs.last())
    }
}

/// The struct of a declared type.
pub open spec fn struct_decl(g: Seq<char>, td: TypeDefV) -> Seq<char> {
    (if type_validated(td) {
        "#[derive(Debug, Clone, Serialize, Deserialize, Validate, Default)]\n"@
    } else {
        "#[derive(Debug, Clone, Serialize, Deserialize, Default)]\n"@
    }) + "pub struct "@ + td.name + " {\n"@ + fields_text(g, td.fields) + "}\n"@
}

/// The empty struct of a name that is not declared.
pub open spec fn empty_decl(t: Seq<char>) -> Seq<char> {
    "#[derive(Debug, Clone, Serialize, Deserialize, Default)]\npub struct "@ + t + " {}\n"@
}

/// The declarations of the required names, in order; names that still start with `[]` have none.
pub open spec fn decls(g: Seq<char>, ts: Seq<TypeDefV>, names: Seq<Seq<char>>) -> Seq<Seq<char>>
    decreases names.len(),
{
    if names.len() == 0 {
        Seq::empty()
    } else {
        let t = names.last();
        decls(g, ts, names.drop_last()) + if starts_with(t, "[]"@) {
            Seq::empty()
        } else {
            match type_lookup(ts, t) {
                Some(td) => seq![struct_decl(g, td)],
                None => seq![empty_decl(t)],
            }
        }
    }
}

/// Some declared struct among the names derives `Validate`.
pub open spec fn any_validated(ts: Seq<TypeDefV>, names: Seq<Seq<char>>) -> bool
    decreases names.len(),
{
    if names.len() == 0 {
        false
    } else {
        let t = names.last();
        any_validated(ts, names.drop_last()) || (!starts_with(t, "[]"@) && match type_lookup(ts, t) {
            Some(td) => type_validated(td),
            None => false,
        })
    }
}

/// The variables `types.tpl` sees for group `g`.
pub open spec fn types_vars(
    base: Map<Seq<char>, ValV>,
    g: Seq<char>,
    ss: Seq<ServiceV>,
    ts: Seq<TypeDefV>,
) -> Map<Seq<char>, ValV> {
    let names = required_names(ss, ts, g);
    base.insert(lower("types"@), ValV::Str(join(decls(g, ts, names), "\n"@))).insert(
        lower("needValidate"@),
        ValV::Bool(any_validated(ts, names)),
    )
}

fn attr_lines_exec(attrs: &Vec<String>) -> (r: Vec<char>)
    ensures
        r@ == attr_lines(strings_view(attrs@)),
{
    let ghost av = strings_view(attrs@);
    let mut out: Vec<char> = Vec::new();
    let mut i: usize = 0;
    while i < attrs.len()
        invariant
            i <= attrs.len(),
            av == strings_view(attrs@),
            out@ == attr_lines(av.subrange(0, i as int)),
        decreases attrs.len() - i,
    {
        assert(av.subrange(0, i + 1).drop_last() == av.subrange(0, i as int));
        assert(av.subrange(0, i + 1).last() == attrs@[i as int]@);
        extend_str(&mut out, "    ");
        extend_str(&mut out, attrs[i].as_str());
        extend_str(&mut out, "\n");
        i = i + 1;
    }
    assert(av.subrange(0, attrs.len() as int) == av);
    out
}

fn field_lines_exec(g: &Vec<char>, f: &spec::Field) -> (r: Vec<char>)
    ensures
        r@ == field_lines(g@, f@),
{
    let tyc = chars_of_string(&f.ty);
    let rt = api_ty_to_rust_chars(g, &tyc);
    let mut out: Vec<char> = Vec::new();
    match &f.tag {
        Some(tag) => {
            let m = tag_kv_map(tag.as_str());
            let rename = match m.get("json") {
                Some(v) => Some(v),
                None => match m.get("form") {
                    Some(v) => Some(v),
                    None => m.get("path"),
                },
            };
            match &rename {
                Some(v) => {
                    extend_str(&mut out, "    #[serde(rename = \"");
                    extend_str(&mut out, v.as_str());
                    extend_str(&mut out, "\")]\n");
                },
                None => {},
            }
            match m.get("validate") {
                Some(v) => {
                    let rts = string_of(&rt);
                    let attrs = validate_attrs(rts.as_str(), v.as_str());
                    let al = attr_lines_exec(&attrs);
                    extend(&mut out, &al);
                },
                None => {},
            }
        },
        None => {},
    }
    extend_str(&mut out, "    pub ");
    let nc = chars_of_string(&f.name);
    let sn = snake_chars(&nc);
    extend(&mut out, &sn);
    extend_str(&mut out, ": ");
    extend(&mut out, &rt);
    extend_str(&mut out, ",\n");
    out
}

fn struct_decl_exec(g: &Vec<char>, td: &spec::TypeDef) -> (r: Vec<char>)
    ensures
        r@ == struct_decl(g@, td@),
{
    let mut out = if type_validated_exec(td) {
        chars_of("#[derive(Debug, Clone, Serialize, Deserialize, Validate, Default)]\n")
    } else {
        chars_of("#[derive(Debug, Clone, Serialize, Deserialize, Default)]\n")
    };
    extend_str(&mut out, "pub struct ");
    extend_str(&mut out, td.name.as_str());
    extend_str(&mut out, " {\n");
    let ghost head = out@;
    let ghost fv = td@.fields;
    let mut j: usize = 0;
    while j < td.fields.len()
        invariant
            j <= td.fields.len(),
            fv == td@.fields,
            out@ == head + fields_text(g@, fv.subrange(0, j as int)),
        decreases td.fields.len() - j,
    {
        assert(fv.subrange(0, j + 1).drop_last() == fv.subrange(0, j as int));
        assert(fv.subrange(0, j + 1).last() == td.fields@[j as int]@);
        let fl = field_lines_exec(g, &td.fields[j]);
        extend(&mut out, &fl);
        j = j + 1;
    }
    assert(fv.subrange(0, td.fields.len() as int) == fv);
    extend_str(&mut out, "}\n");
    out
}

/// The `types.tpl` variables of group `g`: the joined declarations and whether any derives `Validate`.
pub fn types_context(base: &Context, sp: &spec::Spec, g: &Vec<char>) -> (c: Context)
    ensures
        c.vars() == types_vars(
            base.vars(),
            g@,
            spec::services_view(sp.services@),
            spec::types_view(sp.types@),
        ),
{
    let ghost ts = spec::types_view(sp.types@);
    let req = collect_required(sp, g);
    let ghost names = req.elems();
    let mut ds: Vec<Vec<char>> = Vec::new();
    let mut nv = false;
    let mut i: usize = 0;
    while i < req.len()
        invariant
            i <= names.len(),
            names == req.elems(),
            ts == spec::types_view(sp.types@),
            names_view(ds@) == decls(g@, ts, names.subrange(0, i as int)),
            nv == any_validated(ts, names.subrange(0, i as int)),
        decreases names.len() - i,
    {
        assert(names.subrange(0, i + 1).drop_last() == names.subrange(0, i as int));
        let t = req.get(i);
        assert(names.subrange(0, i + 1).last() == t@);
        let ghost d0 = names_view(ds@);
        if !starts_with_str(t, "[]") {
            match find_type(&sp.types, t) {
                Some(td) => {
                    let d = struct_decl_exec(g, td);
                    ds.push(d);
                    if type_validated_exec(td) {
                        nv = true;
                    }
                },
                None => {
                    let mut d = chars_of(
                        "#[derive(Debug, Clone, Serialize, Deserialize, Default)]\npub struct ",
                    );
                    extend(&mut d, t);
                    extend_str(&mut d, " {}\n");
                    ds.push(d);
                },
            }
        }
        assert(names_view(ds@) =~= decls(g@, ts, names.subrange(0, i + 1)));
        i = i + 1;
    }
    assert(names.subrange(0, names.len() as int) == names);
    let joined = join_with(&ds, "\n");
    base.clone().set_str("types", string_of(&joined)).set_bool("needValidate", nv)
}

} // verus!
