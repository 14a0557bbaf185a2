//! The groups of a generated project and what each one holds: handlers,
//! middlewares and JWT settings collected from the spec.
use vstd::prelude::*;
use crate::rsctl::gen::{
    effective_group, effective_group_spec, handler_spec, route_handler_name, server_kv,
    service_jwt, service_middleware,
};
use crate::rsctl::naming::{snake_chars, snake_spec};
use crate::rsctl::spec::{self, RouteV, ServiceV};
use crate::sorted::{lemma_sorted_members, sorted_members, SortedSet};
use crate::text::{chars_of_string, eq_chars};

verus! {

/// The module name of a service's group.
pub open spec fn group_of(s: ServiceV) -> Seq<char> {
    snake_spec(effective_group_spec(s))
}

/// The module name of a route's handler, if it names one.
pub open spec fn handler_module(r: RouteV) -> Option<Seq<char>> {
    match handler_spec(r) {
        Some(h) => Some(snake_spec(h)),
        None => None,
    }
}

/// The module name of a service's `@server(key: ...)` value, if it has one.
pub open spec fn server_module(s: ServiceV, key: Seq<char>) -> Option<Seq<char>> {
    match server_kv(s, key) {
        Some(v) => Some(snake_spec(v)),
        None => None,
    }
}

/// `y` is the module name of a handler of block `s`.
pub open spec fn handles(s: ServiceV, y: Seq<char>) -> bool {
    exists|j: int| 0 <= j < s.routes.len() && #[trigger] handler_module(s.routes[j]) == Some(y)
}

/// `y` is a handler of group `g`.
pub open spec fn group_handles(ss: Seq<ServiceV>, g: Seq<char>, y: Seq<char>) -> bool {
    exists|i: int| 0 <= i < ss.len() && group_of(#[trigger] ss[i]) == g && handles(ss[i], y)
}

/// `y` is the module name of a `@server(key: ...)` value of some block.
pub open spec fn server_value_named(ss: Seq<ServiceV>, key: Seq<char>, y: Seq<char>) -> bool {
    exists|i: int| 0 <= i < ss.len() && #[trigger] server_module(ss[i], key) == Some(y)
}

/// `y` is the group module of some service.
pub open spec fn is_group(ss: Seq<ServiceV>) -> spec_fn(Seq<char>) -> bool {
    |y: Seq<char>| exists|i: int| 0 <= i < ss.len() && group_of(#[trigger] ss[i]) == y
}

/// The groups of the services, in `String` order.
pub open spec fn groups_of(ss: Seq<ServiceV>) -> Seq<Seq<char>> {
    sorted_members(is_group(ss))
}

/// The handler modules of group `g`, in `String` order.
pub open spec fn handlers_of(ss: Seq<ServiceV>, g: Seq<char>) -> Seq<Seq<char>> {
    sorted_members(|y: Seq<char>| group_handles(ss, g, y))
}

/// The module names of the `@server(key: ...)` values, in `String` order.
pub open spec fn server_values_of(ss: Seq<ServiceV>, key: Seq<char>) -> Seq<Seq<char>> {
    sorted_members(|y: Seq<char>| server_value_named(ss, key, y))
}

/// The groups of a spec (every service has one), in `String` order.
pub fn collect_groups(sp: &spec::Spec) -> (r: SortedSet)
    ensures
        r.wf(),
        r.elems() == groups_of(spec::services_view(sp.services@)),
        forall|y: Seq<char>|
            r.elems().contains(y) <==> exists|i: int|
                0 <= i < sp.services@.len() && group_of(#[trigger] sp.services@[i]@) == y,
{
    let mut set = SortedSet::new();
    let mut i: usize = 0;
    while i < sp.services.len()
        invariant
            i <= sp.services.len(),
            set.wf(),
            forall|y: Seq<char>|
                set.elems().contains(y) <==> exists|k: int|
                    0 <= k < i && group_of(#[trigger] sp.services@[k]@) == y,
        decreases sp.services.len() - i,
    {
        let g = effective_group(&sp.services[i]);
        let gc = chars_of_string(&g);
        let gs = snake_chars(&gc);
        let ghost v = gs@;
        set.insert(gs);
        proof {
            assert forall|y: Seq<char>|
                set.elems().contains(y) <==> exists|k: int|
                    0 <= k < i + 1 && group_of(#[trigger] sp.services@[k]@) == y by {
                if y == v {
                    assert(group_of(sp.services@[i as int]@) == y);
                }
            }
        }
        i = i + 1;
    }
    proof {
        let ss = spec::services_view(sp.services@);
        assert forall|y: Seq<char>| set.elems().contains(y) <==> is_group(ss)(y) by {
            if set.elems().contains(y) {
                let k = choose|k: int| 0 <= k < sp.services@.len() && group_of(#[trigger] sp.services@[k]@) == y;
                assert(ss[k] == sp.services@[k]@);
            }
            if is_group(ss)(y) {
                let k = choose|k: int| 0 <= k < ss.len() && group_of(#[trigger] ss[k]) == y;
                assert(ss[k] == sp.services@[k]@);
            }
        }
        set.lemma_sorted();
        lemma_sorted_members(set.elems(), is_group(ss));
    }
    set
}

/// The handlers of group `g`, in `String` order (duplicates removed).
pub fn collect_handlers(sp: &spec::Spec, g: &Vec<char>) -> (r: SortedSet)
    ensures
        r.wf(),
        r.elems() == handlers_of(spec::services_view(sp.services@), g@),
        forall|y: Seq<char>|
            r.elems().contains(y) <==> group_handles(spec::services_view(sp.services@), g@, y),
{
    let ghost ss = spec::services_view(sp.services@);
    let mut set = SortedSet::new();
    let mut i: usize = 0;
    while i < sp.services.len()
        invariant
            i <= sp.services.len(),
            ss == spec::services_view(sp.services@),
            set.wf(),
            forall|y: Seq<char>|
                set.elems().contains(y) <==> group_handles(ss.subrange(0, i as int), g@, y),
        decreases sp.services.len() - i,
    {
        let service = &sp.services[i];
        let ghost sv = service@;
        assert(ss[i as int] == sv);
        let eg = effective_group(service);
        let egc = chars_of_string(&eg);
        let gs = snake_chars(&egc);
        let ghost before = set.elems();
        if eq_chars(&gs, g) {
            let mut j: usize = 0;
            while j < service.routes.len()
                invariant
                    j <= service.routes.len(),
                    sv == service@,
                    sv.routes == spec::routes_view(service.routes@),
                    set.wf(),
                    forall|y: Seq<char>|
                        #![trigger set.elems().contains(y)]
                        set.elems().contains(y) <==> (before.contains(y) || exists|q: int|
                            0 <= q < j && #[trigger] handler_module(sv.routes[q]) == Some(y)),
                decreases service.routes.len() - j,
            {
                assert(sv.routes[j as int] == service.routes@[j as int]@);
                match route_handler_name(&service.routes[j]) {
                    Some(h) => {
                        let hc = chars_of_string(&h);
                        let hs = snake_chars(&hc);
                        let ghost v = hs@;
                        assert(handler_module(sv.routes[j as int]) == Some(v));
                        let ghost e0 = set.elems();
                        set.insert(hs);
                        proof {
                            assert forall|y: Seq<char>|
                                set.elems().contains(y) <==> (before.contains(y) || exists|q: int|
                                    0 <= q < j + 1 && #[trigger] handler_module(sv.routes[q]) == Some(y)) by {
                                assert(set.elems().contains(y) <==> (e0.contains(y) || y == v));
                                assert(handler_module(sv.routes[j as int]) == Some(v));
                            }
                        }
                    },
                    None => {
                        assert(handler_module(sv.routes[j as int]) is None);
                    },
                }
                j = j + 1;
            }
        }
        proof {
            assert forall|y: Seq<char>|
                set.elems().contains(y) <==> group_handles(ss.subrange(0, i + 1), g@, y) by {
                let pre = ss.subrange(0, i as int);
                let post = ss.subrange(0, i + 1);
                if group_handles(post, g@, y) {
                    let k = choose|k: int|
                        0 <= k < post.len() && group_of(#[trigger] post[k]) == g@ && handles(post[k], y);
                    if k < i {
                        assert(pre[k] == post[k]);
                    }
                }
                if group_handles(pre, g@, y) {
                    let k = choose|k: int|
                        0 <= k < pre.len() && group_of(#[trigger] pre[k]) == g@ && handles(pre[k], y);
                    assert(post[k] == pre[k]);
                }
                if set.elems().contains(y) && !before.contains(y) {
                    assert(post[i as int] == sv);
                }
            }
        }
        i = i + 1;
    }
    assert(ss.subrange(0, sp.services.len() as int) == ss);
    proof {
        set.lemma_sorted();
        lemma_sorted_members(set.elems(), |y: Seq<char>| group_handles(ss, g@, y));
    }
    set
}

/// The module names of the `@server(key: ...)` values (`jwt`, `middleware`), in `String` order.
pub fn collect_server_values(sp: &spec::Spec, key: &str) -> (r: SortedSet)
    ensures
        r.wf(),
        r.elems() == server_values_of(spec::services_view(sp.services@), key@),
        forall|y: Seq<char>|
            r.elems().contains(y) <==> server_value_named(
                spec::services_view(sp.services@),
                key@,
                y,
            ),
{
    let ghost ss = spec::services_view(sp.services@);
    let mut set = SortedSet::new();
    let mut i: usize = 0;
    while i < sp.services.len()
        invariant
            i <= sp.services.len(),
            ss == spec::services_view(sp.services@),
            set.wf(),
            forall|y: Seq<char>|
                set.elems().contains(y) <==> server_value_named(ss.subrange(0, i as int), key@, y),
        decreases sp.services.len() - i,
    {
        let service = &sp.services[i];
        assert(ss[i as int] == service@);
        let ghost before = set.elems();
        let v = crate::rsctl::gen::find_annotation(&service.annotations, "server");
        let found = match v {
            Some(a) => crate::rsctl::gen::find_kv(a, key),
            None => None,
        };
        let ghost mut added: Option<Seq<char>> = None;
        match found {
            Some(x) => {
                let xc = chars_of_string(&x);
                let xs = snake_chars(&xc);
                proof {
                    added = Some(xs@);
                }
                set.insert(xs);
            },
            None => {},
        }
        proof {
            assert forall|y: Seq<char>|
                set.elems().contains(y) <==> server_value_named(ss.subrange(0, i + 1), key@, y) by {
                let pre = ss.subrange(0, i as int);
                let post = ss.subrange(0, i + 1);
                if server_value_named(post, key@, y) {
                    let k = choose|k: int|
                        0 <= k < post.len() && #[trigger] server_module(post[k], key@) == Some(y);
                    if k < i {
                        assert(pre[k] == post[k]);
                    } else {
                        assert(post[k] == service@);
                    }
                }
                if server_value_named(pre, key@, y) {
                    let k = choose|k: int|
                        0 <= k < pre.len() && #[trigger] server_module(pre[k], key@) == Some(y);
                    assert(post[k] == pre[k]);
                }
                if set.elems().contains(y) && !before.contains(y) {
                    assert(post[i as int] == service@);
                    assert(server_module(post[i as int], key@) is Some);
                }
            }
        }
        i = i + 1;
    }
    assert(ss.subrange(0, sp.services.len() as int) == ss);
    proof {
        set.lemma_sorted();
        lemma_sorted_members(set.elems(), |y: Seq<char>| server_value_named(ss, key@, y));
    }
    set
}

} // verus!
