//! CORS policy (go-zero `WithCors` / `WithCorsHeaders`).
use vstd::prelude::*;
use http::header::{HeaderName, HeaderValue};

verus! {

/// A byte sequence `http::HeaderValue::from_str` accepts: every character is a
/// tab or at least a space and not DEL (non-ASCII characters encode to bytes >= 128).
pub open spec fn header_value_valid(s: Seq<char>) -> bool {
    forall|i: int|
        0 <= i < s.len() ==> (#[trigger] s[i] == '\t' || ((s[i] as u32) >= 32 && (s[i] as u32)
            != 127))
}

/// A character `http` accepts in a header name: a letter in either case, a digit,
/// or one of ``!"#$%&'*+-.^_`|~``.
pub open spec fn header_name_char(c: char) -> bool {
    ||| ('a' <= c && c <= 'z')
    ||| ('A' <= c && c <= 'Z')
    ||| ('0' <= c && c <= '9')
    ||| ('!' <= c && c <= '\'')
    ||| c == '*' || c == '+' || c == '-' || c == '.'
    ||| c == '^' || c == '_' || c == '`' || c == '|' || c == '~'
}

/// Whether `http::HeaderName::from_bytes` accepts the bytes of a text: between 1 and
/// 65535 bytes, each a header-name character (all of them ASCII, so bytes and
/// characters agree).
pub open spec fn header_name_valid(s: Seq<char>) -> bool {
    &&& 1 <= s.len() <= 65535
    &&& forall|i: int| 0 <= i < s.len() ==> header_name_char(#[trigger] s[i])
}

/// `http::HeaderValue::from_str(s).is_ok()`: every byte must be a tab, or in 32..=255 except 127.
#[verifier::external_body]
fn header_value_ok(s: &str) -> (b: bool)
    ensures
        b == header_value_valid(s@),
{
    HeaderValue::from_str(s).is_ok()
}

/// `http::HeaderName::from_bytes(s.as_bytes()).is_ok()`: the bytes are looked up in
/// the crate's table of header-name characters, and the length must be 1..=65535.
#[verifier::external_body]
fn header_name_ok(s: &str) -> (b: bool)
    ensures
        b == header_name_valid(s@),
{
    HeaderName::from_bytes(s.as_bytes()).is_ok()
}

/// Which origins may make cross-origin requests.
#[derive(Debug, Clone)]
pub enum AllowOrigin {
    /// Any origin.
    Any,
    /// Exactly these origins.
    List(Vec<String>),
}

/// A CORS policy: the allowed origins, and the allowed request headers when they are restricted.
#[derive(Debug, Clone)]
pub struct CorsPolicy {
    pub origins: AllowOrigin,
    pub allow_headers: Option<Vec<String>>,
}

/// The entries of `s` that pass `ok`, in order.
pub open spec fn keep(s: Seq<String>, ok: spec_fn(Seq<char>) -> bool) -> Seq<String>
    decreases s.len(),
{
    if s.len() == 0 {
        Seq::empty()
    } else if ok(s.last()@) {
        keep(s.drop_last(), ok).push(s.last())
    } else {
        keep(s.drop_last(), ok)
    }
}

/// The origins `layer(origins)` allows: any when none is given or none is a valid
/// header value, otherwise the valid ones.
pub open spec fn origins_spec(origins: Seq<String>) -> Option<Seq<String>> {
    let ok = keep(origins, |s: Seq<char>| header_value_valid(s));
    if ok.len() == 0 {
        None
    } else {
        Some(ok)
    }
}

pub open spec fn policy_origins(p: CorsPolicy) -> Option<Seq<String>> {
    match p.origins {
        AllowOrigin::Any => None,
        AllowOrigin::List(v) => Some(v@),
    }
}

fn keep_valid(items: &Vec<String>, names: bool) -> (r: Vec<String>)
    ensures
        names ==> r@ == keep(items@, |s: Seq<char>| header_name_valid(s)),
        !names ==> r@ == keep(items@, |s: Seq<char>| header_value_valid(s)),
{
    let mut r: Vec<String> = Vec::new();
    let mut i: usize = 0;
    while i < items.len()
        invariant
            i <= items.len(),
            names ==> r@ == keep(items@.subrange(0, i as int), |s: Seq<char>| header_name_valid(s)),
            !names ==> r@ == keep(
                items@.subrange(0, i as int),
                |s: Seq<char>| header_value_valid(s),
            ),
        decreases items.len() - i,
    {
        let ok = if names {
            header_name_ok(items[i].as_str())
        } else {
            header_value_ok(items[i].as_str())
        };
        assert(items@.subrange(0, i + 1).drop_last() == items@.subrange(0, i as int));
        if ok {
            r.push(items[i].clone());
        }
        i = i + 1;
    }
    assert(items@.subrange(0, items.len() as int) == items@);
    r
}

/// The CORS policy for `origins`: only the origins that are valid header values;
/// any origin when the list is empty or none is valid.
pub fn layer(origins: Vec<String>) -> (p: CorsPolicy)
    ensures
        policy_origins(p) == origins_spec(origins@),
        p.allow_headers is None,
{
    let allow = keep_valid(&origins, false);
    if allow.len() == 0 {
        CorsPolicy { origins: AllowOrigin::Any, allow_headers: None }
    } else {
        CorsPolicy { origins: AllowOrigin::List(allow), allow_headers: None }
    }
}

/// The headers whose flag is set, in order.
pub open spec fn kept_by(hs: Seq<String>, ok: Seq<bool>) -> Seq<String>
    decreases hs.len(),
{
    if hs.len() == 0 || ok.len() == 0 {
        Seq::empty()
    } else if ok.last() {
        kept_by(hs.drop_last(), ok.drop_last()).push(hs.last())
    } else {
        kept_by(hs.drop_last(), ok.drop_last())
    }
}

/// The allowed request headers given which of `headers` are valid header names:
/// the valid ones, or no restriction when none is.
pub fn allowed_headers(headers: &Vec<String>, valid: &Vec<bool>) -> (r: Option<Vec<String>>)
    requires
        headers.len() == valid.len(),
    ensures
        match r {
            None => kept_by(headers@, valid@).len() == 0,
            Some(v) => kept_by(headers@, valid@).len() > 0 && v@ == kept_by(headers@, valid@),
        },
{
    let mut r: Vec<String> = Vec::new();
    let mut i: usize = 0;
    while i < headers.len()
        invariant
            i <= headers.len(),
            headers.len() == valid.len(),
            r@ == kept_by(headers@.subrange(0, i as int), valid@.subrange(0, i as int)),
        decreases headers.len() - i,
    {
        assert(headers@.subrange(0, i + 1).drop_last() == headers@.subrange(0, i as int));
        assert(valid@.subrange(0, i + 1).drop_last() == valid@.subrange(0, i as int));
        if valid[i] {
            r.push(headers[i].clone());
        }
        i = i + 1;
    }
    assert(headers@.subrange(0, headers.len() as int) == headers@);
    assert(valid@.subrange(0, valid.len() as int) == valid@);
    if r.len() == 0 {
        None
    } else {
        Some(r)
    }
}

proof fn lemma_kept_by_names(hs: Seq<String>, ok: Seq<bool>)
    requires
        hs.len() == ok.len(),
        forall|i: int| 0 <= i < hs.len() ==> ok[i] == header_name_valid(#[trigger] hs[i]@),
    ensures
        kept_by(hs, ok) == keep(hs, |s: Seq<char>| header_name_valid(s)),
    decreases hs.len(),
{
    if hs.len() > 0 {
        assert(ok.last() == header_name_valid(hs[hs.len() - 1]@));
        lemma_kept_by_names(hs.drop_last(), ok.drop_last());
    }
}

/// Like `layer`, and the allowed request headers restricted to the valid header
/// names among `headers`, when there are any.
pub fn layer_allow_headers(origins: Vec<String>, headers: Vec<String>) -> (p: CorsPolicy)
    ensures
        policy_origins(p) == origins_spec(origins@),
        ({
            let names = keep(headers@, |s: Seq<char>| header_name_valid(s));
            match p.allow_headers {
                None => names.len() == 0,
                Some(v) => names.len() > 0 && v@ == names,
            }
        }),
{
    let policy = layer(origins);
    if headers.len() == 0 {
        assert(headers@ == Seq::<String>::empty());
        return policy;
    }
    let mut flags: Vec<bool> = Vec::new();
    let mut i: usize = 0;
    while i < headers.len()
        invariant
            i <= headers.len(),
            flags@.len() == i,
            forall|k: int| 0 <= k < i ==> flags@[k] == header_name_valid(#[trigger] headers@[k]@),
        decreases headers.len() - i,
    {
        flags.push(header_name_ok(headers[i].as_str()));
        i = i + 1;
    }
    proof {
        lemma_kept_by_names(headers@, flags@);
    }
    match allowed_headers(&headers, &flags) {
        None => policy,
        Some(allow) => CorsPolicy { origins: policy.origins, allow_headers: Some(allow) },
    }
}

} // verus!
