//! The API description language: its grammar and parser.
//!
//! ```text
//! file          = skip (stmt skip)*
//! skip          = (' ' | '\t' | '\r' | '\n' | "//" to end of line)*
//! stmt          = annotation | service_block | route
//! annotation    = '@' ident args
//! args          = hs '(' skip ')'                      -- no argument
//!               | hs '(' skip kv (skip kv)* skip ')'   -- key/value pairs
//!               | hs '(' skip value skip ')'           -- one value
//!               | hs value                             -- one value on the same line
//!               | ε
//! kv            = ident hs ':' hs value
//! value         = string | word
//! route         = ident hs+ path [hs '(' skip word skip ')'] [hs "returns" hs '(' skip word skip ')']
//! path          = '/' word-char*
//! service_block = "service" hs+ ident skip '{' skip ((annotation | route) skip)* '}'
//! ```
//! where `hs` is spaces and tabs, a `word` is a non-empty run of characters other than
//! whitespace, `(`, `)`, `{`, `}` and `"`, and a `string` is `"` ... `"` in which `\"`
//! stands for a quote. Annotations attach to the next route or service; a string
//! value loses its quotes.
use vstd::prelude::*;
use crate::rsctl::spec::{opt_view, pairs_view, AnnotationV, ArgsV};
use crate::text::{chars_of, eq_str, is_alnum, is_lower, is_upper, occurs_at, occurs_at_exec, slice, string_of};

verus! {

// ---------------------------------------------------------------------------
// Syntax tree
// ---------------------------------------------------------------------------

/// A parsed API description.
#[derive(Debug)]
pub struct Ast {
    pub items: Vec<Item>,
    pub source: String,
}

#[derive(Debug)]
pub enum Item {
    Service(Service),
    Route(Route),
}

#[derive(Debug)]
pub struct Service {
    pub name: String,
    pub annotations: Vec<Annotation>,
    pub routes: Vec<Route>,
}

#[derive(Debug)]
pub struct Route {
    pub annotations: Vec<Annotation>,
    pub method: String,
    pub path: String,
    pub request: Option<String>,
    pub response: Option<String>,
}

#[derive(Debug)]
pub struct Annotation {
    pub name: String,
    pub args: AnnotationArgs,
}

#[derive(Debug)]
pub enum AnnotationArgs {
    /// No argument.
    NoArgs,
    /// A single value.
    Str(String),
    /// `key: value` pairs, in order.
    KeyValues(Vec<(String, String)>),
}

// ---------------------------------------------------------------------------
// Views
// ---------------------------------------------------------------------------

pub ghost struct RouteV {
    pub annotations: Seq<AnnotationV>,
    pub method: Seq<char>,
    pub path: Seq<char>,
    pub request: Option<Seq<char>>,
    pub response: Option<Seq<char>>,
}

pub ghost struct ServiceV {
    pub name: Seq<char>,
    pub annotations: Seq<AnnotationV>,
    pub routes: Seq<RouteV>,
}

pub ghost enum ItemV {
    Service(ServiceV),
    Route(RouteV),
}

impl View for AnnotationArgs {
    type V = ArgsV;

    open spec fn view(&self) -> ArgsV {
        match self {
            AnnotationArgs::NoArgs => ArgsV::NoArgs,
            AnnotationArgs::Str(s) => ArgsV::Str(s@),
            AnnotationArgs::KeyValues(v) => ArgsV::KeyValues(pairs_view(v@)),
        }
    }
}

impl View for Annotation {
    type V = AnnotationV;

    open spec fn view(&self) -> AnnotationV {
        AnnotationV { name: self.name@, args: self.args@ }
    }
}

pub open spec fn anns_view(v: Seq<Annotation>) -> Seq<AnnotationV> {
    v.map_values(|a: Annotation| a@)
}

impl View for Route {
    type V = RouteV;

    open spec fn view(&self) -> RouteV {
        RouteV {
            annotations: anns_view(self.annotations@),
            method: self.method@,
            path: self.path@,
            request: opt_view(self.request),
            response: opt_view(self.response),
        }
    }
}

pub open spec fn routes_view(v: Seq<Route>) -> Seq<RouteV> {
    v.map_values(|r: Route| r@)
}

impl View for Service {
    type V = ServiceV;

    open spec fn view(&self) -> ServiceV {
        ServiceV {
            name: self.name@,
            annotations: anns_view(self.annotations@),
            routes: routes_view(self.routes@),
        }
    }
}

impl View for Item {
    type V = ItemV;

    open spec fn view(&self) -> ItemV {
        match self {
            Item::Service(s) => ItemV::Service(s@),
            Item::Route(r) => ItemV::Route(r@),
        }
    }
}

pub open spec fn items_view(v: Seq<Item>) -> Seq<ItemV> {
    v.map_values(|i: Item| i@)
}

/// Where the text stops being a valid description: the start of the statement
/// (or of the service-body entry) that does not parse.
#[derive(Debug, Clone, Copy, PartialEq, Eq, Structural)]
pub struct ParseError {
    pub offset: usize,
}

// ---------------------------------------------------------------------------
// Grammar (specification)
// ---------------------------------------------------------------------------

pub open spec fn is_space(c: char) -> bool {
    c == ' ' || c == '\t' || c == '\r' || c == '\n'
}

pub open spec fn is_hspace(c: char) -> bool {
    c == ' ' || c == '\t'
}

pub open spec fn is_ident_start(c: char) -> bool {
    is_upper(c) || is_lower(c) || c == '_'
}

pub open spec fn is_ident_char(c: char) -> bool {
    is_alnum(c) || c == '_'
}

pub open spec fn is_word_char(c: char) -> bool {
    !is_space(c) && c != '(' && c != ')' && c != '{' && c != '}' && c != '"'
}

/// The end of the line that starts at or after `i` (the position of its `\n`, or the end).
pub open spec fn line_end(s: Seq<char>, i: int) -> int
    decreases s.len() - i,
{
    if i < 0 || i >= s.len() || s[i] == '\n' {
        if i < 0 { 0 } else { i }
    } else {
        line_end(s, i + 1)
    }
}

/// The position after the whitespace and comments at `i`.
pub open spec fn skip(s: Seq<char>, i: int) -> int
    decreases s.len() - i,
{
    if i < 0 || i >= s.len() {
        i
    } else if is_space(s[i]) {
        skip(s, i + 1)
    } else if occurs_at(s, seq!['/', '/'], i) && i < line_end(s, i) <= s.len() {
        skip(s, line_end(s, i))
    } else {
        i
    }
}

/// The position after the spaces and tabs at `i`.
pub open spec fn skip_h(s: Seq<char>, i: int) -> int
    decreases s.len() - i,
{
    if 0 <= i < s.len() && is_hspace(s[i]) {
        skip_h(s, i + 1)
    } else {
        i
    }
}

/// The end of the run of identifier characters at `i`.
pub open spec fn ident_tail(s: Seq<char>, i: int) -> int
    decreases s.len() - i,
{
    if 0 <= i < s.len() && is_ident_char(s[i]) {
        ident_tail(s, i + 1)
    } else {
        i
    }
}

/// The end of the run of word characters at `i`.
pub open spec fn word_tail(s: Seq<char>, i: int) -> int
    decreases s.len() - i,
{
    if 0 <= i < s.len() && is_word_char(s[i]) {
        word_tail(s, i + 1)
    } else {
        i
    }
}

/// The end of the identifier at `i`.
pub open spec fn ident(s: Seq<char>, i: int) -> Option<int> {
    if 0 <= i < s.len() && is_ident_start(s[i]) {
        Some(ident_tail(s, i + 1))
    } else {
        None
    }
}

/// The end of the word at `i`.
pub open spec fn word(s: Seq<char>, i: int) -> Option<int> {
    if 0 <= i < s.len() && is_word_char(s[i]) {
        Some(word_tail(s, i + 1))
    } else {
        None
    }
}

/// The end of the string whose body continues at `i` (after its closing quote).
pub open spec fn string_tail(s: Seq<char>, i: int) -> Option<int>
    decreases s.len() - i,
{
    if i < 0 || i >= s.len() {
        None
    } else if s[i] == '\\' && i + 1 < s.len() && s[i + 1] == '"' {
        string_tail(s, i + 2)
    } else if s[i] == '"' {
        Some(i + 1)
    } else {
        string_tail(s, i + 1)
    }
}

/// The end of the string literal at `i`.
pub open spec fn string_lit(s: Seq<char>, i: int) -> Option<int> {
    if 0 <= i < s.len() && s[i] == '"' {
        string_tail(s, i + 1)
    } else {
        None
    }
}

/// `\"` replaced by `"`, scanning left to right.
pub open spec fn unescape(s: Seq<char>) -> Seq<char>
    decreases s.len(),
{
    if s.len() == 0 {
        s
    } else if s.len() >= 2 && s[0] == '\\' && s[1] == '"' {
        seq!['"'] + unescape(s.subrange(2, s.len() as int))
    } else {
        seq![s[0]] + unescape(s.subrange(1, s.len() as int))
    }
}

/// A quoted text without its quotes and with `\"` unescaped; any other text unchanged.
pub open spec fn unquote_spec(s: Seq<char>) -> Seq<char> {
    if s.len() >= 2 && s[0] == '"' && s.last() == '"' {
        unescape(s.subrange(1, s.len() - 1))
    } else {
        s
    }
}

/// A value at `i`: its end and its text (a string loses its quotes).
pub open spec fn value(s: Seq<char>, i: int) -> Option<(Seq<char>, int)> {
    match string_lit(s, i) {
        Some(e) => Some((unquote_spec(s.subrange(i, e)), e)),
        None => match word(s, i) {
            Some(e) => Some((s.subrange(i, e), e)),
            None => None,
        },
    }
}

/// A `key: value` pair at `i`.
pub open spec fn kv(s: Seq<char>, i: int) -> Option<((Seq<char>, Seq<char>), int)> {
    match ident(s, i) {
        None => None,
        Some(e) => {
            let m = skip_h(s, e);
            if 0 <= m < s.len() && s[m] == ':' {
                match value(s, skip_h(s, m + 1)) {
                    Some((v, ve)) => Some(((s.subrange(i, e), v), ve)),
                    None => None,
                }
            } else {
                None
            }
        },
    }
}

/// The pairs of a key/value list continuing at `i`, up to and including its `)`.
pub open spec fn kvs_from(s: Seq<char>, i: int, acc: Seq<(Seq<char>, Seq<char>)>) -> Option<
    (Seq<(Seq<char>, Seq<char>)>, int),
>
    decreases s.len() - i,
{
    let k = skip(s, i);
    if k < i || k >= s.len() {
        None
    } else if s[k] == ')' {
        Some((acc, k + 1))
    } else {
        match kv(s, k) {
            Some((p, e)) => if k < e <= s.len() {
                kvs_from(s, e, acc.push(p))
            } else {
                None
            },
            None => None,
        }
    }
}

/// The arguments of an annotation whose name ends at `e`.
pub open spec fn args(s: Seq<char>, e: int) -> Option<(ArgsV, int)> {
    let j = skip_h(s, e);
    if 0 <= j < s.len() && s[j] == '(' {
        let k = skip(s, j + 1);
        if 0 <= k < s.len() && s[k] == ')' {
            Some((ArgsV::NoArgs, k + 1))
        } else {
            match kv(s, k) {
                Some((p, pe)) => match kvs_from(s, pe, seq![p]) {
                    Some((ps, end)) => Some((ArgsV::KeyValues(ps), end)),
                    None => None,
                },
                None => match value(s, k) {
                    Some((v, ve)) => {
                        let c = skip(s, ve);
                        if 0 <= c < s.len() && s[c] == ')' {
                            Some((ArgsV::Str(v), c + 1))
                        } else {
                            None
                        }
                    },
                    None => None,
                },
            }
        }
    } else {
        match value(s, j) {
            Some((v, ve)) => Some((ArgsV::Str(v), ve)),
            None => Some((ArgsV::NoArgs, e)),
        }
    }
}

/// The annotation at `i`.
pub open spec fn annotation(s: Seq<char>, i: int) -> Option<(AnnotationV, int)> {
    if 0 <= i < s.len() && s[i] == '@' {
        match ident(s, i + 1) {
            Some(e) => match args(s, e) {
                Some((a, end)) => Some((AnnotationV { name: s.subrange(i + 1, e), args: a }, end)),
                None => None,
            },
            None => None,
        }
    } else {
        None
    }
}

/// A parenthesised type name at `i`: its text and the position after `)`.
pub open spec fn paren_type(s: Seq<char>, i: int) -> Option<(Seq<char>, int)> {
    if 0 <= i < s.len() && s[i] == '(' {
        let t = skip(s, i + 1);
        match word(s, t) {
            Some(te) => {
                let c = skip(s, te);
                if 0 <= c < s.len() && s[c] == ')' {
                    Some((s.subrange(t, te), c + 1))
                } else {
                    None
                }
            },
            None => None,
        }
    } else {
        None
    }
}

pub open spec fn returns_kw() -> Seq<char> {
    seq!['r', 'e', 't', 'u', 'r', 'n', 's']
}

/// The `returns (T)` part at `i`.
pub open spec fn returns_part(s: Seq<char>, i: int) -> Option<(Seq<char>, int)> {
    if occurs_at(s, returns_kw(), i) {
        paren_type(s, skip_h(s, i + 7))
    } else {
        None
    }
}

/// The route at `i` (without annotations): the type names that follow the path
/// are, in order, the request and the response.
pub open spec fn route(s: Seq<char>, i: int) -> Option<(RouteV, int)> {
    match ident(s, i) {
        None => None,
        Some(e) => {
            let j = skip_h(s, e);
            if j > e && 0 <= j < s.len() && s[j] == '/' {
                let p = word_tail(s, j + 1);
                let (t1, after1) = match paren_type(s, skip_h(s, p)) {
                    Some((t, a)) => (Some(t), a),
                    None => (None, p),
                };
                let (t2, after2) = match returns_part(s, skip_h(s, after1)) {
                    Some((t, a)) => (Some(t), a),
                    None => (None, after1),
                };
                let (req, resp) = match t1 {
                    Some(a) => (Some(a), t2),
                    None => (t2, None),
                };
                Some(
                    (
                        RouteV {
                            annotations: Seq::empty(),
                            method: s.subrange(i, e),
                            path: s.subrange(j, p),
                            request: req,
                            response: resp,
                        },
                        after2,
                    ),
                )
            } else {
                None
            }
        },
    }
}

pub open spec fn service_kw() -> Seq<char> {
    seq!['s', 'e', 'r', 'v', 'i', 'c', 'e']
}

/// Whether a service block starts at `i`: the keyword followed by a space or tab.
pub open spec fn starts_service(s: Seq<char>, i: int) -> bool {
    occurs_at(s, service_kw(), i) && i + 7 < s.len() && is_hspace(s[i + 7])
}

/// The entries of a service body continuing at `i`, up to and including its `}`.
/// Annotations attach to the next route; those before `}` are dropped.
pub open spec fn body_from(
    s: Seq<char>,
    i: int,
    pending: Seq<AnnotationV>,
    routes: Seq<RouteV>,
) -> Option<(Seq<RouteV>, int)>
    decreases s.len() - i,
{
    let k = skip(s, i);
    if k < i || k >= s.len() {
        None
    } else if s[k] == '}' {
        Some((routes, k + 1))
    } else if s[k] == '@' {
        match annotation(s, k) {
            Some((a, e)) => if k < e <= s.len() {
                body_from(s, e, pending.push(a), routes)
            } else {
                None
            },
            None => None,
        }
    } else {
        match route(s, k) {
            Some((r, e)) => if k < e <= s.len() {
                body_from(s, e, Seq::empty(), routes.push(RouteV { annotations: pending, ..r }))
            } else {
                None
            },
            None => None,
        }
    }
}

/// The service block at `i` (without annotations).
pub open spec fn service(s: Seq<char>, i: int) -> Option<(ServiceV, int)> {
    if starts_service(s, i) {
        let j = skip_h(s, i + 7);
        match ident(s, j) {
            Some(e) => {
                let k = skip(s, e);
                if 0 <= k < s.len() && s[k] == '{' {
                    match body_from(s, k + 1, Seq::empty(), Seq::empty()) {
                        Some((rs, end)) => Some(
                            (
                                ServiceV { name: s.subrange(j, e), annotations: Seq::empty(), routes: rs },
                                end,
                            ),
                        ),
                        None => None,
                    }
                } else {
                    None
                }
            },
            None => None,
        }
    } else {
        None
    }
}

/// The items of a description continuing at `i`. Annotations attach to the next
/// route or service; those at the end are dropped.
pub open spec fn file_from(
    s: Seq<char>,
    i: int,
    pending: Seq<AnnotationV>,
    items: Seq<ItemV>,
) -> Result<Seq<ItemV>, int>
    decreases s.len() - i,
{
    let k = skip(s, i);
    if k < i {
        Err(i)
    } else if k >= s.len() {
        Ok(items)
    } else if s[k] == '@' {
        match annotation(s, k) {
            Some((a, e)) => if k < e <= s.len() {
                file_from(s, e, pending.push(a), items)
            } else {
                Err(k)
            },
            None => Err(k),
        }
    } else if starts_service(s, k) {
        match service(s, k) {
            Some((sv, e)) => if k < e <= s.len() {
                file_from(
                    s,
                    e,
                    Seq::empty(),
                    items.push(ItemV::Service(ServiceV { annotations: pending, ..sv })),
                )
            } else {
                Err(k)
            },
            None => Err(k),
        }
    } else {
        match route(s, k) {
            Some((r, e)) => if k < e <= s.len() {
                file_from(
                    s,
                    e,
                    Seq::empty(),
                    items.push(ItemV::Route(RouteV { annotations: pending, ..r })),
                )
            } else {
                Err(k)
            },
            None => Err(k),
        }
    }
}

/// The items of a whole description, or the offset of the first statement that does not parse.
pub open spec fn parse_spec(s: Seq<char>) -> Result<Seq<ItemV>, int> {
    file_from(s, 0, Seq::empty(), Seq::empty())
}


// ---------------------------------------------------------------------------
// Parser
// ---------------------------------------------------------------------------

fn is_space_exec(c: char) -> (b: bool)
    ensures
        b == is_space(c),
{
    c == ' ' || c == '\t' || c == '\r' || c == '\n'
}

fn is_hspace_exec(c: char) -> (b: bool)
    ensures
        b == is_hspace(c),
{
    c == ' ' || c == '\t'
}

fn is_ident_start_exec(c: char) -> (b: bool)
    ensures
        b == is_ident_start(c),
{
    ('A' <= c && c <= 'Z') || ('a' <= c && c <= 'z') || c == '_'
}

fn is_ident_char_exec(c: char) -> (b: bool)
    ensures
        b == is_ident_char(c),
{
    ('A' <= c && c <= 'Z') || ('a' <= c && c <= 'z') || ('0' <= c && c <= '9') || c == '_'
}

fn is_word_char_exec(c: char) -> (b: bool)
    ensures
        b == is_word_char(c),
{
    !is_space_exec(c) && c != '(' && c != ')' && c != '{' && c != '}' && c != '"'
}

fn line_end_exec(s: &Vec<char>, i: usize) -> (r: usize)
    requires
        i <= s.len(),
    ensures
        r == line_end(s@, i as int),
        i <= r <= s.len(),
        i < s.len() && s@[i as int] != '\n' ==> r > i,
{
    let mut j = i;
    while j < s.len() && s[j] != '\n'
        invariant
            i <= j <= s.len(),
            line_end(s@, i as int) == line_end(s@, j as int),
        decreases s.len() - j,
    {
        j = j + 1;
    }
    j
}

fn skip_exec(s: &Vec<char>, i: usize) -> (r: usize)
    requires
        i <= s.len(),
    ensures
        r == skip(s@, i as int),
        i <= r <= s.len(),
{
    let slashes = chars_of("//");
    proof {
        reveal_strlit("//");
        assert(slashes@ == seq!['/', '/']);
    }
    let mut j = i;
    loop
        invariant
            i <= j <= s.len(),
            skip(s@, i as int) == skip(s@, j as int),
            slashes@ == seq!['/', '/'],
        decreases s.len() - j,
    {
        if j >= s.len() {
            return j;
        }
        if is_space_exec(s[j]) {
            j = j + 1;
        } else if occurs_at_exec(s, &slashes, j) {
            assert(s@.subrange(j as int, j + 2)[0] == '/');
            let le = line_end_exec(s, j);
            assert(le > j);
            j = le;
        } else {
            return j;
        }
    }
}

fn skip_h_exec(s: &Vec<char>, i: usize) -> (r: usize)
    requires
        i <= s.len(),
    ensures
        r == skip_h(s@, i as int),
        i <= r <= s.len(),
{
    let mut j = i;
    while j < s.len() && is_hspace_exec(s[j])
        invariant
            i <= j <= s.len(),
            skip_h(s@, i as int) == skip_h(s@, j as int),
        decreases s.len() - j,
    {
        j = j + 1;
    }
    j
}

fn ident_tail_exec(s: &Vec<char>, i: usize) -> (r: usize)
    requires
        i <= s.len(),
    ensures
        r == ident_tail(s@, i as int),
        i <= r <= s.len(),
{
    let mut j = i;
    while j < s.len() && is_ident_char_exec(s[j])
        invariant
            i <= j <= s.len(),
            ident_tail(s@, i as int) == ident_tail(s@, j as int),
        decreases s.len() - j,
    {
        j = j + 1;
    }
    j
}

fn word_tail_exec(s: &Vec<char>, i: usize) -> (r: usize)
    requires
        i <= s.len(),
    ensures
        r == word_tail(s@, i as int),
        i <= r <= s.len(),
{
    let mut j = i;
    while j < s.len() && is_word_char_exec(s[j])
        invariant
            i <= j <= s.len(),
            word_tail(s@, i as int) == word_tail(s@, j as int),
        decreases s.len() - j,
    {
        j = j + 1;
    }
    j
}

fn ident_exec(s: &Vec<char>, i: usize) -> (r: Option<usize>)
    requires
        i <= s.len(),
    ensures
        match r {
            Some(e) => ident(s@, i as int) == Some(e as int) && i < e <= s.len(),
            None => ident(s@, i as int) is None,
        },
{
    if i < s.len() && is_ident_start_exec(s[i]) {
        Some(ident_tail_exec(s, i + 1))
    } else {
        None
    }
}

fn word_exec(s: &Vec<char>, i: usize) -> (r: Option<usize>)
    requires
        i <= s.len(),
    ensures
        match r {
            Some(e) => word(s@, i as int) == Some(e as int) && i < e <= s.len(),
            None => word(s@, i as int) is None,
        },
{
    if i < s.len() && is_word_char_exec(s[i]) {
        Some(word_tail_exec(s, i + 1))
    } else {
        None
    }
}

fn string_lit_exec(s: &Vec<char>, i: usize) -> (r: Option<usize>)
    requires
        i <= s.len(),
    ensures
        match r {
            Some(e) => string_lit(s@, i as int) == Some(e as int) && i + 2 <= e <= s.len(),
            None => string_lit(s@, i as int) is None,
        },
{
    if !(i < s.len() && s[i] == '"') {
        return None;
    }
    let mut j = i + 1;
    loop
        invariant
            i + 1 <= j <= s.len(),
            string_lit(s@, i as int) == string_tail(s@, j as int),
        decreases s.len() - j,
    {
        if j >= s.len() {
            return None;
        }
        if s[j] == '\\' && j + 1 < s.len() && s[j + 1] == '"' {
            j = j + 2;
        } else if s[j] == '"' {
            return Some(j + 1);
        } else {
            j = j + 1;
        }
    }
}

fn unescape_exec(v: &Vec<char>, lo: usize, hi: usize) -> (r: Vec<char>)
    requires
        lo <= hi <= v.len(),
    ensures
        r@ == unescape(v@.subrange(lo as int, hi as int)),
{
    let mut r: Vec<char> = Vec::new();
    let mut j = lo;
    while j < hi
        invariant
            lo <= j <= hi <= v.len(),
            r@ + unescape(v@.subrange(j as int, hi as int)) == unescape(
                v@.subrange(lo as int, hi as int),
            ),
        decreases hi - j,
    {
        let ghost rest = v@.subrange(j as int, hi as int);
        if j + 1 < hi && v[j] == '\\' && v[j + 1] == '"' {
            assert(rest.subrange(2, rest.len() as int) == v@.subrange(j + 2, hi as int));
            r.push('"');
            j = j + 2;
        } else {
            assert(rest.subrange(1, rest.len() as int) == v@.subrange(j + 1, hi as int));
            r.push(v[j]);
            j = j + 1;
        }
    }
    assert(v@.subrange(hi as int, hi as int) == Seq::<char>::empty());
    r
}

fn unquote_chars(v: &Vec<char>) -> (r: Vec<char>)
    ensures
        r@ == unquote_spec(v@),
{
    if v.len() >= 2 && v[0] == '"' && v[v.len() - 1] == '"' {
        unescape_exec(v, 1, v.len() - 1)
    } else {
        v.clone()
    }
}

/// A quoted text without its quotes and with `\"` unescaped; any other text unchanged.
pub fn unquote(s: &str) -> (r: String)
    ensures
        r@ == unquote_spec(s@),
{
    let v = chars_of(s);
    string_of(&unquote_chars(&v))
}

/// `unquote` applied when `s` starts and ends with a quote; `s` otherwise.
pub fn unquote_if_needed(s: &str) -> (r: String)
    ensures
        r@ == unquote_spec(s@),
{
    let v = chars_of(s);
    if v.len() >= 1 && v[0] == '"' && v[v.len() - 1] == '"' {
        unquote(s)
    } else {
        string_of(&v)
    }
}

fn value_exec(s: &Vec<char>, i: usize) -> (r: Option<(Vec<char>, usize)>)
    requires
        i <= s.len(),
    ensures
        match r {
            Some((v, e)) => value(s@, i as int) == Some((v@, e as int)) && i < e <= s.len(),
            None => value(s@, i as int) is None,
        },
{
    match string_lit_exec(s, i) {
        Some(e) => {
            let raw = slice(s, i, e);
            Some((unquote_chars(&raw), e))
        },
        None => match word_exec(s, i) {
            Some(e) => Some((slice(s, i, e), e)),
            None => None,
        },
    }
}

fn kv_exec(s: &Vec<char>, i: usize) -> (r: Option<((String, String), usize)>)
    requires
        i <= s.len(),
    ensures
        match r {
            Some((p, e)) => kv(s@, i as int) == Some(((p.0@, p.1@), e as int)) && i < e <= s.len(),
            None => kv(s@, i as int) is None,
        },
{
    match ident_exec(s, i) {
        None => None,
        Some(e) => {
            let m = skip_h_exec(s, e);
            if m < s.len() && s[m] == ':' {
                let vs = skip_h_exec(s, m + 1);
                match value_exec(s, vs) {
                    Some((v, ve)) => {
                        let k = slice(s, i, e);
                        Some(((string_of(&k), string_of(&v)), ve))
                    },
                    None => None,
                }
            } else {
                None
            }
        },
    }
}

fn kvs_from_rec(s: &Vec<char>, i: usize, acc: Vec<(String, String)>) -> (r: Option<
    (Vec<(String, String)>, usize),
>)
    requires
        i <= s.len(),
    ensures
        match r {
            Some((ps, e)) => kvs_from(s@, i as int, pairs_view(acc@)) == Some(
                (pairs_view(ps@), e as int),
            ) && i < e <= s.len(),
            None => kvs_from(s@, i as int, pairs_view(acc@)) is None,
        },
    decreases s.len() - i,
{
    let k = skip_exec(s, i);
    if k >= s.len() {
        return None;
    }
    if s[k] == ')' {
        return Some((acc, k + 1));
    }
    match kv_exec(s, k) {
        Some((p, e)) => {
            let mut acc = acc;
            let ghost a0 = acc@;
            acc.push(p);
            assert(pairs_view(acc@) == pairs_view(a0).push((p.0@, p.1@)));
            kvs_from_rec(s, e, acc)
        },
        None => None,
    }
}

/// The arguments of an annotation whose name ends at `e`.
fn parse_annotation_args(s: &Vec<char>, e: usize) -> (r: Option<(AnnotationArgs, usize)>)
    requires
        e <= s.len(),
    ensures
        match r {
            Some((a, end)) => args(s@, e as int) == Some((a@, end as int)) && e <= end <= s.len(),
            None => args(s@, e as int) is None,
        },
{
    let j = skip_h_exec(s, e);
    if j < s.len() && s[j] == '(' {
        let k = skip_exec(s, j + 1);
        if k < s.len() && s[k] == ')' {
            return Some((AnnotationArgs::NoArgs, k + 1));
        }
        match kv_exec(s, k) {
            Some((p, pe)) => {
                let mut first: Vec<(String, String)> = Vec::new();
                first.push(p);
                assert(pairs_view(first@) == seq![(p.0@, p.1@)]);
                match kvs_from_rec(s, pe, first) {
                    Some((ps, end)) => Some((AnnotationArgs::KeyValues(ps), end)),
                    None => None,
                }
            },
            None => match value_exec(s, k) {
                Some((v, ve)) => {
                    let c = skip_exec(s, ve);
                    if c < s.len() && s[c] == ')' {
                        Some((AnnotationArgs::Str(string_of(&v)), c + 1))
                    } else {
                        None
                    }
                },
                None => None,
            },
        }
    } else {
        match value_exec(s, j) {
            Some((v, ve)) => Some((AnnotationArgs::Str(string_of(&v)), ve)),
            None => Some((AnnotationArgs::NoArgs, e)),
        }
    }
}

/// The annotation at `i`.
fn parse_annotation(s: &Vec<char>, i: usize) -> (r: Option<(Annotation, usize)>)
    requires
        i <= s.len(),
    ensures
        match r {
            Some((a, end)) => annotation(s@, i as int) == Some((a@, end as int)) && i < end
                <= s.len(),
            None => annotation(s@, i as int) is None,
        },
{
    if !(i < s.len() && s[i] == '@') {
        return None;
    }
    match ident_exec(s, i + 1) {
        Some(e) => match parse_annotation_args(s, e) {
            Some((a, end)) => {
                let name = slice(s, i + 1, e);
                Some((Annotation { name: string_of(&name), args: a }, end))
            },
            None => None,
        },
        None => None,
    }
}

fn paren_type_exec(s: &Vec<char>, i: usize) -> (r: Option<(String, usize)>)
    requires
        i <= s.len(),
    ensures
        match r {
            Some((t, e)) => paren_type(s@, i as int) == Some((t@, e as int)) && i < e <= s.len(),
            None => paren_type(s@, i as int) is None,
        },
{
    if !(i < s.len() && s[i] == '(') {
        return None;
    }
    let t = skip_exec(s, i + 1);
    match word_exec(s, t) {
        Some(te) => {
            let c = skip_exec(s, te);
            if c < s.len() && s[c] == ')' {
                let name = slice(s, t, te);
                Some((string_of(&name), c + 1))
            } else {
                None
            }
        },
        None => None,
    }
}

fn returns_part_exec(s: &Vec<char>, i: usize, kw: &Vec<char>) -> (r: Option<(String, usize)>)
    requires
        i <= s.len(),
        kw@ == returns_kw(),
    ensures
        match r {
            Some((t, e)) => returns_part(s@, i as int) == Some((t@, e as int)) && i < e <= s.len(),
            None => returns_part(s@, i as int) is None,
        },
{
    if occurs_at_exec(s, kw, i) {
        let j = skip_h_exec(s, i + 7);
        paren_type_exec(s, j)
    } else {
        None
    }
}

/// The route at `i`, without annotations.
fn parse_route_stmt(s: &Vec<char>, i: usize) -> (r: Option<(Route, usize)>)
    requires
        i <= s.len(),
    ensures
        match r {
            Some((rt, end)) => route(s@, i as int) == Some((rt@, end as int)) && i < end <= s.len(),
            None => route(s@, i as int) is None,
        },
{
    let kw = chars_of("returns");
    proof {
        reveal_strlit("returns");
        assert(kw@ == returns_kw());
    }
    match ident_exec(s, i) {
        None => None,
        Some(e) => {
            let j = skip_h_exec(s, e);
            if j > e && j < s.len() && s[j] == '/' {
                let p = word_tail_exec(s, j + 1);
                let (t1, after1) = match paren_type_exec(s, skip_h_exec(s, p)) {
                    Some((t, a)) => (Some(t), a),
                    None => (None, p),
                };
                let (t2, after2) = match returns_part_exec(s, skip_h_exec(s, after1), &kw) {
                    Some((t, a)) => (Some(t), a),
                    None => (None, after1),
                };
                let (request, response) = match t1 {
                    Some(a) => (Some(a), t2),
                    None => (t2, None),
                };
                let method = slice(s, i, e);
                let path = slice(s, j, p);
                let r = Route {
                    annotations: Vec::new(),
                    method: string_of(&method),
                    path: string_of(&path),
                    request,
                    response,
                };
                assert(anns_view(r.annotations@) == Seq::<AnnotationV>::empty());
                Some((r, after2))
            } else {
                None
            }
        },
    }
}

fn service_kw_exec() -> (v: Vec<char>)
    ensures
        v@ == service_kw(),
{
    let v = chars_of("service");
    proof {
        reveal_strlit("service");
    }
    v
}

fn starts_service_exec(s: &Vec<char>, i: usize, kw: &Vec<char>) -> (b: bool)
    requires
        i <= s.len(),
        kw@ == service_kw(),
    ensures
        b == starts_service(s@, i as int),
{
    occurs_at_exec(s, kw, i) && i + 7 < s.len() && is_hspace_exec(s[i + 7])
}

/// The service block at `i`, without annotations.
fn parse_service_block(s: &Vec<char>, i: usize) -> (r: Option<(Service, usize)>)
    requires
        i <= s.len(),
    ensures
        match r {
            Some((sv, end)) => service(s@, i as int) == Some((sv@, end as int)) && i < end
                <= s.len(),
            None => service(s@, i as int) is None,
        },
{
    let kw = service_kw_exec();
    if !starts_service_exec(s, i, &kw) {
        return None;
    }
    let j = skip_h_exec(s, i + 7);
    let e = match ident_exec(s, j) {
        Some(e) => e,
        None => {
            return None;
        },
    };
    let k = skip_exec(s, e);
    if !(k < s.len() && s[k] == '{') {
        return None;
    }
    let mut pending: Vec<Annotation> = Vec::new();
    let mut routes: Vec<Route> = Vec::new();
    let mut pos = k + 1;
    assert(anns_view(pending@) == Seq::<AnnotationV>::empty());
    assert(routes_view(routes@) == Seq::<RouteV>::empty());
    loop
        invariant
            k + 1 <= pos <= s.len(),
            starts_service(s@, i as int),
            j == skip_h(s@, i + 7),
            ident(s@, j as int) == Some(e as int),
            i + 7 <= j < e <= k,
            k == skip(s@, e as int),
            k < s.len(),
            s@[k as int] == '{',
            body_from(s@, k + 1, Seq::empty(), Seq::empty()) == body_from(
                s@,
                pos as int,
                anns_view(pending@),
                routes_view(routes@),
            ),
        decreases s.len() - pos,
    {
        let q = skip_exec(s, pos);
        if q >= s.len() {
            return None;
        }
        if s[q] == '}' {
            assert(body_from(s@, pos as int, anns_view(pending@), routes_view(routes@)) == Some(
                (routes_view(routes@), q + 1),
            ));
            let name = slice(s, j, e);
            let sv = Service { name: string_of(&name), annotations: Vec::new(), routes };
            assert(anns_view(sv.annotations@) == Seq::<AnnotationV>::empty());
            assert(sv@ == ServiceV {
                name: s@.subrange(j as int, e as int),
                annotations: Seq::empty(),
                routes: routes_view(routes@),
            });
            return Some((sv, q + 1));
        }
        if s[q] == '@' {
            match parse_annotation(s, q) {
                Some((a, end)) => {
                    let ghost p0 = pending@;
                    pending.push(a);
                    assert(anns_view(pending@) == anns_view(p0).push(a@));
                    pos = end;
                },
                None => {
                    return None;
                },
            }
        } else {
            match parse_route_stmt(s, q) {
                Some((rt, end)) => {
                    let mut rt = rt;
                    let ghost rv = rt@;
                    rt.annotations = pending;
                    pending = Vec::new();
                    let ghost r0 = routes@;
                    routes.push(rt);
                    assert(routes_view(routes@) == routes_view(r0).push(rt@));
                    assert(anns_view(pending@) == Seq::<AnnotationV>::empty());
                    pos = end;
                },
                None => {
                    return None;
                },
            }
        }
    }
}

/// Parses an API description.
pub fn parse(input: &str) -> (r: Result<Ast, ParseError>)
    ensures
        match r {
            Ok(ast) => parse_spec(input@) == Ok::<Seq<ItemV>, int>(items_view(ast.items@))
                && ast.source@ == input@,
            Err(e) => parse_spec(input@) == Err::<Seq<ItemV>, int>(e.offset as int),
        },
{
    let s = chars_of(input);
    let kw = service_kw_exec();
    let mut pending: Vec<Annotation> = Vec::new();
    let mut items: Vec<Item> = Vec::new();
    let mut pos: usize = 0;
    assert(anns_view(pending@) == Seq::<AnnotationV>::empty());
    assert(items_view(items@) == Seq::<ItemV>::empty());
    loop
        invariant
            s@ == input@,
            kw@ == service_kw(),
            pos <= s.len(),
            parse_spec(input@) == file_from(s@, pos as int, anns_view(pending@), items_view(items@)),
        decreases s.len() - pos,
    {
        let k = skip_exec(&s, pos);
        if k >= s.len() {
            return Ok(Ast { items, source: string_of(&s) });
        }
        if s[k] == '@' {
            match parse_annotation(&s, k) {
                Some((a, end)) => {
                    let ghost p0 = pending@;
                    pending.push(a);
                    assert(anns_view(pending@) == anns_view(p0).push(a@));
                    pos = end;
                },
                None => {
                    return Err(ParseError { offset: k });
                },
            }
        } else if starts_service_exec(&s, k, &kw) {
            match parse_service_block(&s, k) {
                Some((sv, end)) => {
                    let mut sv = sv;
                    sv.annotations = pending;
                    pending = Vec::new();
                    let ghost i0 = items@;
                    let it = Item::Service(sv);
                    items.push(it);
                    assert(items_view(items@) == items_view(i0).push(it@));
                    assert(anns_view(pending@) == Seq::<AnnotationV>::empty());
                    pos = end;
                },
                None => {
                    return Err(ParseError { offset: k });
                },
            }
        } else {
            match parse_route_stmt(&s, k) {
                Some((rt, end)) => {
                    let mut rt = rt;
                    rt.annotations = pending;
                    pending = Vec::new();
                    let ghost i0 = items@;
                    let it = Item::Route(rt);
                    items.push(it);
                    assert(items_view(items@) == items_view(i0).push(it@));
                    assert(anns_view(pending@) == Seq::<AnnotationV>::empty());
                    pos = end;
                },
                None => {
                    return Err(ParseError { offset: k });
                },
            }
        }
    }
}

} // verus!
