//! Framework-neutral web vocabulary: methods, what a router answers, and the
//! order in which its middlewares and the routed handler run.
use vstd::prelude::*;

verus! {

/// The HTTP methods routes are registered for.
#[derive(Debug, Clone, Copy, PartialEq, Eq, Structural, Hash)]
pub enum HttpMethod {
    Get,
    Post,
    Put,
    Delete,
    Patch,
}

/// The route method a wire method name stands for.
pub open spec fn method_from_name(name: Seq<char>) -> Option<HttpMethod> {
    if name == "GET"@ {
        Some(HttpMethod::Get)
    } else if name == "POST"@ {
        Some(HttpMethod::Post)
    } else if name == "PUT"@ {
        Some(HttpMethod::Put)
    } else if name == "DELETE"@ {
        Some(HttpMethod::Delete)
    } else if name == "PATCH"@ {
        Some(HttpMethod::Patch)
    } else {
        None
    }
}

/// The wire names of the route methods (as `http::Method::as_str` gives them).
pub open spec fn wire_names() -> Seq<(Seq<char>, HttpMethod)> {
    seq![
        ("GET"@, HttpMethod::Get),
        ("POST"@, HttpMethod::Post),
        ("PUT"@, HttpMethod::Put),
        ("DELETE"@, HttpMethod::Delete),
        ("PATCH"@, HttpMethod::Patch),
    ]
}

/// Each wire name maps to the route method of the same name.
pub proof fn law_wire_names_resolve(k: int)
    requires
        0 <= k < wire_names().len(),
    ensures
        method_from_name(wire_names()[k].0) == Some(wire_names()[k].1),
{
    reveal_strlit("GET");
    reveal_strlit("POST");
    reveal_strlit("PUT");
    reveal_strlit("DELETE");
    reveal_strlit("PATCH");
    let n = wire_names()[k].0;
    if k == 0 {
        assert(n == "GET"@);
    }
    if k == 1 {
        assert(n == "POST"@);
        assert(n != "GET"@) by { if n == "GET"@ { assert(n.len() == "GET"@.len()); } }
    }
    if k == 2 {
        assert(n == "PUT"@);
        assert(n != "GET"@) by { if n == "GET"@ { assert(n[0] == "GET"@[0]); } }
        assert(n != "POST"@) by { if n == "POST"@ { assert(n.len() == "POST"@.len()); } }
    }
    if k == 3 {
        assert(n == "DELETE"@);
        assert(n != "GET"@) by { if n == "GET"@ { assert(n.len() == "GET"@.len()); } }
        assert(n != "POST"@) by { if n == "POST"@ { assert(n.len() == "POST"@.len()); } }
        assert(n != "PUT"@) by { if n == "PUT"@ { assert(n.len() == "PUT"@.len()); } }
    }
    if k == 4 {
        assert(n == "PATCH"@);
        assert(n != "GET"@) by { if n == "GET"@ { assert(n.len() == "GET"@.len()); } }
        assert(n != "POST"@) by { if n == "POST"@ { assert(n.len() == "POST"@.len()); } }
        assert(n != "PUT"@) by { if n == "PUT"@ { assert(n.len() == "PUT"@.len()); } }
        assert(n != "DELETE"@) by { if n == "DELETE"@ { assert(n.len() == "DELETE"@.len()); } }
    }
}

/// A name maps to a method only when it is that method's wire name: distinct
/// names never map to the same method, and other names map to none.
pub proof fn law_wire_names_only(n: Seq<char>)
    ensures
        match method_from_name(n) {
            Some(m) => exists|k: int|
                0 <= k < wire_names().len() && n == (#[trigger] wire_names()[k]).0 && m == wire_names()[k].1,
            None => forall|k: int| 0 <= k < wire_names().len() ==> n != (#[trigger] wire_names()[k]).0,
        },
{
    if let Some(m) = method_from_name(n) {
        if n == "GET"@ {
            assert(wire_names()[0].0 == n);
        } else if n == "POST"@ {
            assert(wire_names()[1].0 == n);
        } else if n == "PUT"@ {
            assert(wire_names()[2].0 == n);
        } else if n == "DELETE"@ {
            assert(wire_names()[3].0 == n);
        } else {
            assert(wire_names()[4].0 == n);
        }
    } else {
        assert forall|k: int| 0 <= k < wire_names().len() implies n != (#[trigger] wire_names()[k]).0 by {
            if n == wire_names()[k].0 {
                law_wire_names_resolve(k);
            }
        }
    }
}

impl HttpMethod {
    /// The route method a wire method name (`http::Method::as_str`) stands for.
    pub fn from_name(name: &str) -> (r: Option<HttpMethod>)
        ensures
            r == method_from_name(name@),
    {
        let v = crate::text::chars_of(name);
        if crate::text::eq_str(&v, "GET") {
            Some(HttpMethod::Get)
        } else if crate::text::eq_str(&v, "POST") {
            Some(HttpMethod::Post)
        } else if crate::text::eq_str(&v, "PUT") {
            Some(HttpMethod::Put)
        } else if crate::text::eq_str(&v, "DELETE") {
            Some(HttpMethod::Delete)
        } else if crate::text::eq_str(&v, "PATCH") {
            Some(HttpMethod::Patch)
        } else {
            None
        }
    }
}

/// What a router does with a request once its middlewares have passed it on.
#[derive(Debug, Clone, Copy, PartialEq, Eq, Structural)]
pub enum Outcome {
    /// Answer with this status and an empty body.
    Status(u16),
    /// Run the handler of the matched route, with the captured path parameters.
    Handle,
}

/// The outcome for a request whose method is `m` (`None`: not one routes use),
/// given whether any route is registered for `m` and whether one of them matched
/// the path: 405 for a method no route can use, 404 when nothing matches.
pub open spec fn outcome_spec(m: Option<HttpMethod>, has_table: bool, matched: bool) -> Outcome {
    match m {
        None => Outcome::Status(405),
        Some(_) => if !has_table || !matched {
            Outcome::Status(404)
        } else {
            Outcome::Handle
        },
    }
}

/// The method `m` has at least one route among `methods`.
pub open spec fn has_method(methods: Seq<HttpMethod>, m: HttpMethod) -> bool {
    exists|i: int| 0 <= i < methods.len() && methods[i] == m
}

/// The outcome for a request with wire method `name`, on a router whose routes are
/// registered for `methods`; `matched` is whether the path matched one of the
/// routes of that method (the path matcher decides it).
pub fn outcome(name: &str, methods: &Vec<HttpMethod>, matched: bool) -> (r: Outcome)
    ensures
        r == outcome_spec(
            method_from_name(name@),
            match method_from_name(name@) {
                Some(m) => has_method(methods@, m),
                None => false,
            },
            matched,
        ),
{
    let m = match HttpMethod::from_name(name) {
        None => {
            return Outcome::Status(405);
        },
        Some(m) => m,
    };
    let mut found = false;
    let mut i: usize = 0;
    while i < methods.len()
        invariant
            i <= methods.len(),
            found <==> exists|k: int| 0 <= k < i && methods@[k] == m,
        decreases methods.len() - i,
    {
        if methods[i] == m {
            found = true;
        }
        i = i + 1;
    }
    if !found || !matched {
        Outcome::Status(404)
    } else {
        Outcome::Handle
    }
}

/// A stage of the chain a request goes through.
#[derive(Debug, Clone, Copy, PartialEq, Eq, Structural)]
pub enum Stage {
    /// The middleware at this index, in registration order.
    Middleware(usize),
    /// The router itself: the routed handler, or the status of `outcome`.
    Router,
}

/// The stage at position `k` of a chain of `len` middlewares: the middlewares in
/// the order they were added, then the router.
pub open spec fn stage_at(len: nat, k: nat) -> Stage {
    if k < len {
        Stage::Middleware(k as usize)
    } else {
        Stage::Router
    }
}

/// Where a request is in the chain of a router with `len` middlewares: `at` stages
/// have been entered.
#[derive(Debug, Clone, Copy)]
pub struct Chain {
    pub len: usize,
    pub at: usize,
}

impl Chain {
    /// A request entering a router with `len` middlewares.
    pub fn start(len: usize) -> (c: Chain)
        ensures
            c.len == len,
            c.at == 0,
    {
        Chain { len, at: 0 }
    }

    /// The stage a request enters next: first at the start, then each time the
    /// current middleware calls `next.run`.
    pub fn next(self) -> (r: (Chain, Stage))
        requires
            self.at <= self.len,
        ensures
            r.1 == stage_at(self.len as nat, self.at as nat),
            r.0.len == self.len,
            r.0.at == if self.at < self.len {
                self.at + 1
            } else {
                self.at as int
            },
            r.0.at <= r.0.len,
    {
        if self.at < self.len {
            (Chain { len: self.len, at: self.at + 1 }, Stage::Middleware(self.at))
        } else {
            (self, Stage::Router)
        }
    }
}

/// Middlewares run in the order they were added, each before the router: the
/// `k`-th stage entered is the `k`-th middleware while there is one, and the
/// router after all of them; the router is entered only once every middleware has
/// passed the request on.
pub proof fn law_middlewares_in_order(len: nat, i: nat, j: nat)
    requires
        i < j,
    ensures
        stage_at(len, i) is Router ==> stage_at(len, j) is Router,
        stage_at(len, j) is Middleware ==> stage_at(len, i) is Middleware && j < len,
        stage_at(len, len) == Stage::Router,
        (stage_at(len, j) is Router && i < len) ==> stage_at(len, i) is Middleware,
{
}

/// A request that no route matches is answered 404 once every middleware has
/// passed it on, and one with a method no route uses is answered 405.
pub proof fn law_unmatched_is_not_found(m: HttpMethod, has_table: bool)
    ensures
        outcome_spec(Some(m), has_table, false) == Outcome::Status(404),
        outcome_spec(Some(m), false, true) == Outcome::Status(404),
        outcome_spec(None, has_table, true) == Outcome::Status(405),
{
}

} // verus!
