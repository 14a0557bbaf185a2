//! Reading the spec IR the way the generator does: handlers, groups, prefixes,
//! middlewares and JWT settings from annotations.
use vstd::prelude::*;
use crate::rsctl::spec::{self, AnnotationV, ArgsV};
use crate::text::{chars_of, chars_of_string, eq_chars, eq_str, string_of};

verus! {

/// Marker that the generator crate is linked.
pub fn ping() -> (s: &'static str)
    ensures
        s@ == "gen"@,
{
    "gen"
}

/// The first annotation named `name`.
pub open spec fn first_annotation(anns: Seq<AnnotationV>, name: Seq<char>) -> Option<AnnotationV>
    decreases anns.len(),
{
    if anns.len() == 0 {
        None
    } else if anns[0].name == name {
        Some(anns[0])
    } else {
        first_annotation(anns.drop_first(), name)
    }
}

/// The value of the first pair with key `key`.
pub open spec fn first_value(kvs: Seq<(Seq<char>, Seq<char>)>, key: Seq<char>) -> Option<Seq<char>>
    decreases kvs.len(),
{
    if kvs.len() == 0 {
        None
    } else if kvs[0].0 == key {
        Some(kvs[0].1)
    } else {
        first_value(kvs.drop_first(), key)
    }
}

/// The value of key `key` in an annotation's key/value arguments.
pub open spec fn kv_spec(a: AnnotationV, key: Seq<char>) -> Option<Seq<char>> {
    match a.args {
        ArgsV::KeyValues(kvs) => first_value(kvs, key),
        _ => None,
    }
}

/// The first annotation named `name`.
pub fn find_annotation<'a>(anns: &'a Vec<spec::Annotation>, name: &str) -> (r: Option<
    &'a spec::Annotation,
>)
    ensures
        match r {
            Some(a) => first_annotation(spec::anns_view(anns@), name@) == Some(a@),
            None => first_annotation(spec::anns_view(anns@), name@) is None,
        },
{
    let n = chars_of(name);
    let ghost all = spec::anns_view(anns@);
    let mut i: usize = 0;
    assert(all.subrange(0, all.len() as int) == all);
    while i < anns.len()
        invariant
            i <= anns.len(),
            all == spec::anns_view(anns@),
            n@ == name@,
            first_annotation(all, name@) == first_annotation(
                all.subrange(i as int, all.len() as int),
                name@,
            ),
        decreases anns.len() - i,
    {
        let ghost rest = all.subrange(i as int, all.len() as int);
        assert(rest.drop_first() == all.subrange(i + 1, all.len() as int));
        assert(rest[0] == anns@[i as int]@);
        let an = chars_of_string(&anns[i].name);
        if eq_chars(&an, &n) {
            return Some(&anns[i]);
        }
        i = i + 1;
    }
    None
}

/// The value of `key` in an annotation's key/value arguments.
pub fn find_kv(ann: &spec::Annotation, key: &str) -> (r: Option<String>)
    ensures
        match r {
            Some(v) => kv_spec(ann@, key@) == Some(v@),
            None => kv_spec(ann@, key@) is None,
        },
{
    match &ann.args {
        spec::AnnotationArgs::KeyValues(kvs) => {
            let k = chars_of(key);
            let ghost all = spec::pairs_view(kvs@);
            let mut i: usize = 0;
            assert(all.subrange(0, all.len() as int) == all);
            while i < kvs.len()
                invariant
                    i <= kvs.len(),
                    all == spec::pairs_view(kvs@),
                    ann@.args == ArgsV::KeyValues(all),
                    k@ == key@,
                    first_value(all, key@) == first_value(
                        all.subrange(i as int, all.len() as int),
                        key@,
                    ),
                decreases kvs.len() - i,
            {
                let ghost rest = all.subrange(i as int, all.len() as int);
                assert(rest.drop_first() == all.subrange(i + 1, all.len() as int));
                assert(rest[0] == (kvs@[i as int].0@, kvs@[i as int].1@));
                let kc = chars_of_string(&kvs[i].0);
                if eq_chars(&kc, &k) {
                    assert(first_value(rest, key@) == Some(kvs@[i as int].1@));
                    assert(ann@.args == ArgsV::KeyValues(all));
                    return Some(kvs[i].1.clone());
                }
                i = i + 1;
            }
            None
        },
        _ => None,
    }
}

/// The handler of a route: the text of its first `@handler` annotation.
pub open spec fn handler_spec(r: spec::RouteV) -> Option<Seq<char>> {
    match first_annotation(r.annotations, "handler"@) {
        Some(a) => match a.args {
            ArgsV::Str(s) => Some(s),
            _ => None,
        },
        None => None,
    }
}

/// The value of `key` in a service's first `@server(...)` annotation.
pub open spec fn server_kv(s: spec::ServiceV, key: Seq<char>) -> Option<Seq<char>> {
    match first_annotation(s.annotations, "server"@) {
        Some(a) => kv_spec(a, key),
        None => None,
    }
}

/// The group of a service: `@server(group: ...)`, else the service name.
pub open spec fn effective_group_spec(s: spec::ServiceV) -> Seq<char> {
    match server_kv(s, "group"@) {
        Some(g) => g,
        None => s.name,
    }
}

pub fn route_handler_name(route: &spec::Route) -> (r: Option<String>)
    ensures
        match r {
            Some(h) => handler_spec(route@) == Some(h@),
            None => handler_spec(route@) is None,
        },
{
    let a = find_annotation(&route.annotations, "handler")?;
    match &a.args {
        spec::AnnotationArgs::Str(s) => Some(s.clone()),
        _ => None,
    }
}

fn server_value(service: &spec::Service, key: &str) -> (r: Option<String>)
    ensures
        match r {
            Some(v) => server_kv(service@, key@) == Some(v@),
            None => server_kv(service@, key@) is None,
        },
{
    let srv = find_annotation(&service.annotations, "server")?;
    find_kv(srv, key)
}

pub fn service_group_name(service: &spec::Service) -> (r: Option<String>)
    ensures
        match r {
            Some(v) => server_kv(service@, "group"@) == Some(v@),
            None => server_kv(service@, "group"@) is None,
        },
{
    server_value(service, "group")
}

/// go-zero habit: without a group, the service name is the group.
pub fn effective_group(service: &spec::Service) -> (r: String)
    ensures
        r@ == effective_group_spec(service@),
{
    match service_group_name(service) {
        Some(g) => g,
        None => service.name.clone(),
    }
}

pub fn service_prefix(service: &spec::Service) -> (r: Option<String>)
    ensures
        match r {
            Some(v) => server_kv(service@, "prefix"@) == Some(v@),
            None => server_kv(service@, "prefix"@) is None,
        },
{
    server_value(service, "prefix")
}

pub fn service_middleware(service: &spec::Service) -> (r: Option<String>)
    ensures
        match r {
            Some(v) => server_kv(service@, "middleware"@) == Some(v@),
            None => server_kv(service@, "middleware"@) is None,
        },
{
    server_value(service, "middleware")
}

pub fn service_jwt(service: &spec::Service) -> (r: Option<String>)
    ensures
        match r {
            Some(v) => server_kv(service@, "jwt"@) == Some(v@),
            None => server_kv(service@, "jwt"@) is None,
        },
{
    server_value(service, "jwt")
}

} // verus!
