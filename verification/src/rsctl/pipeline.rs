//! The decisions of the `rsctl` pipeline: option checks, template sources,
//! service naming, framework choice and which files to write or clean up.
use vstd::prelude::*;
use crate::rsctl::spec::{self, opt_view};
use crate::sorted::SortedSet;
use crate::text::{
    chars_of, chars_of_string, digits, digits_exec, ends_with, ends_with_str, eq_chars, eq_str,
    extend, extend_str, slice, starts_with, starts_with_str, string_of, trim, trim_exec,
};

verus! {

// ---------------------------------------------------------------------------
// Command line
// ---------------------------------------------------------------------------

/// The index whose `-rs` follows `api` (among the first `len - 2` positions).
pub open spec fn legacy_index(a: Seq<Seq<char>>, i: int) -> Option<int>
    decreases a.len() - i,
{
    if i < 0 || i + 2 >= a.len() {
        None
    } else if a[i] == "api"@ && a[i + 1] == "-rs"@ {
        Some(i)
    } else {
        legacy_index(a, i + 1)
    }
}

pub open spec fn strings_view(v: Seq<String>) -> Seq<Seq<char>> {
    v.map_values(|s: String| s@)
}

/// What the argument rewrite yields: `api -rs` becomes `api rs` (first occurrence).
pub open spec fn legacy_argv_spec(a: Seq<Seq<char>>) -> Seq<Seq<char>> {
    match legacy_index(a, 0) {
        Some(i) => a.update(i + 1, "rs"@),
        None => a,
    }
}

/// Compatibility shim: `rsctl api -rs ...` is rewritten to `rsctl api rs ...`.
pub fn preprocess_argv_for_legacy_flags(argv: Vec<String>) -> (r: Vec<String>)
    ensures
        strings_view(r@) == legacy_argv_spec(strings_view(argv@)),
{
    let ghost a = strings_view(argv@);
    let mut args = argv;
    let n = args.len();
    let bound = if n >= 2 {
        n - 2
    } else {
        0
    };
    let mut i: usize = 0;
    let mut found = false;
    while i < bound
        invariant_except_break
            i <= bound,
            bound + 2 == n || (n < 2 && bound == 0),
            n == args.len(),
            a == strings_view(args@),
            legacy_index(a, 0) == legacy_index(a, i as int),
            !found,
        ensures
            a == strings_view(args@),
            n == args.len(),
            found ==> i + 2 < n && legacy_index(a, 0) == Some(i as int),
            !found ==> legacy_index(a, 0) is None,
        decreases bound - i,
    {
        let x = chars_of_string(&args[i]);
        let y = chars_of_string(&args[i + 1]);
        assert(a[i as int] == x@);
        assert(a[i + 1] == y@);
        if eq_str(&x, "api") && eq_str(&y, "-rs") {
            assert(legacy_index(a, i as int) == Some(i as int));
            found = true;
            break;
        }
        i = i + 1;
    }
    if found {
        args.set(i + 1, String::from_str("rs"));
        assert(strings_view(args@) =~= a.update(i + 1, "rs"@));
    }
    args
}

// ---------------------------------------------------------------------------
// Template sources
// ---------------------------------------------------------------------------

/// Whether a `--remote` value names a git or http repository.
pub open spec fn looks_like_url_spec(s: Seq<char>) -> bool {
    starts_with(s, "http://"@) || starts_with(s, "https://"@) || starts_with(s, "git@"@)
        || starts_with(s, "ssh://"@) || ends_with(s, ".git"@)
}

pub fn looks_like_url_or_git(s: &str) -> (b: bool)
    ensures
        b == looks_like_url_spec(s@),
{
    let v = chars_of(s);
    starts_with_str(&v, "http://") || starts_with_str(&v, "https://") || starts_with_str(&v, "git@")
        || starts_with_str(&v, "ssh://") || ends_with_str(&v, ".git")
}

/// Where templates come from.
#[derive(Debug)]
pub enum TemplateSource {
    /// No `--remote`: the default location.
    Default,
    /// A local directory.
    Local(String),
    /// A repository to clone (its `templates/` directory is preferred when present).
    Remote(String),
}

pub open spec fn template_source_spec(remote: Option<Seq<char>>) -> (Option<Seq<char>>, bool) {
    match remote {
        None => (None, false),
        Some(s) => if trim(s).len() == 0 {
            (None, false)
        } else {
            (Some(trim(s)), looks_like_url_spec(trim(s)))
        },
    }
}

pub open spec fn source_view(t: TemplateSource) -> (Option<Seq<char>>, bool) {
    match t {
        TemplateSource::Default => (None, false),
        TemplateSource::Local(s) => (Some(s@), false),
        TemplateSource::Remote(s) => (Some(s@), true),
    }
}

/// Resolves `--remote`: absent or blank means the default; a trimmed URL or git
/// address is cloned; anything else is a local directory.
pub fn resolve_template_root(remote: Option<&str>) -> (r: TemplateSource)
    ensures
        source_view(r) == template_source_spec(
            match remote {
                Some(s) => Some(s@),
                None => None,
            },
        ),
{
    match remote {
        None => TemplateSource::Default,
        Some(s) => {
            let v = chars_of(s);
            let t = trim_exec(&v);
            if t.len() == 0 {
                return TemplateSource::Default;
            }
            let ts = string_of(&t);
            if looks_like_url_or_git(ts.as_str()) {
                TemplateSource::Remote(ts)
            } else {
                TemplateSource::Local(ts)
            }
        },
    }
}

/// The template root a source resolves to, given what the file system gave: for
/// the default source, the default root found there (else `templates`); a local
/// path as given; for a repository, its clone `cloned`, or the clone's `templates/`
/// when that is a directory.
pub open spec fn root_spec(
    src: (Option<Seq<char>>, bool),
    default_root: Option<Seq<char>>,
    cloned: Option<Seq<char>>,
    clone_has_templates: bool,
) -> Seq<char> {
    match src.0 {
        None => match default_root {
            Some(d) => d,
            None => "templates"@,
        },
        Some(p) => if !src.1 {
            p
        } else {
            let c = match cloned {
                Some(c) => c,
                None => Seq::empty(),
            };
            if clone_has_templates {
                crate::rsctl::naming::path_join_spec(c, "templates"@)
            } else {
                c
            }
        },
    }
}

/// The template root of `src`: the default root found on disk (else `templates`),
/// the local path, or the clone of a repository (its `templates/` when present).
pub fn template_root_of(
    src: &TemplateSource,
    default_root: Option<String>,
    cloned: Option<String>,
    clone_has_templates: bool,
) -> (r: String)
    requires
        source_view(*src).1 ==> cloned is Some,
    ensures
        r@ == root_spec(source_view(*src), opt_view(default_root), opt_view(cloned), clone_has_templates),
{
    match src {
        TemplateSource::Default => match default_root {
            Some(d) => d,
            None => String::from_str("templates"),
        },
        TemplateSource::Local(p) => string_of(&chars_of_string(p)),
        TemplateSource::Remote(_) => {
            let c = match cloned {
                Some(c) => c,
                None => String::new(),
            };
            if clone_has_templates {
                string_of(&crate::rsctl::naming::path_join(&chars_of_string(&c), "templates"))
            } else {
                c
            }
        },
    }
}

/// `~/.rsctl`.
pub open spec fn rsctl_home_spec(home: Seq<char>) -> Seq<char> {
    crate::rsctl::naming::path_join_spec(home, ".rsctl"@)
}

/// `~/.rsctl/templates`.
pub open spec fn rsctl_templates_spec(home: Seq<char>) -> Seq<char> {
    crate::rsctl::naming::path_join_spec(rsctl_home_spec(home), "templates"@)
}

pub fn rsctl_home(home: &str) -> (r: String)
    ensures
        r@ == rsctl_home_spec(home@),
{
    let h = chars_of(home);
    string_of(&crate::rsctl::naming::path_join(&h, ".rsctl"))
}

pub fn rsctl_templates(home: &str) -> (r: String)
    ensures
        r@ == rsctl_templates_spec(home@),
{
    let h = chars_of(home);
    let a = crate::rsctl::naming::path_join(&h, ".rsctl");
    string_of(&crate::rsctl::naming::path_join(&a, "templates"))
}

/// `~/.rsctl/<version>`, where a template installation for a version lives.
pub open spec fn rsctl_version_dir_spec(home: Seq<char>, version: Seq<char>) -> Seq<char> {
    crate::rsctl::naming::path_join_spec(rsctl_home_spec(home), version)
}

pub fn rsctl_version_dir(home: &str, version: &str) -> (r: String)
    ensures
        r@ == rsctl_version_dir_spec(home@, version@),
{
    let h = chars_of(home);
    let a = crate::rsctl::naming::path_join(&h, ".rsctl");
    string_of(&crate::rsctl::naming::path_join(&a, version))
}

/// The default template root: the templates installed for the current version
/// (`~/.rsctl/<version>`) when that is a directory, else `~/.rsctl/templates` when
/// it is one, else `~/.rsctl` when it is one, else a `templates/` directory found
/// upwards from the current directory (`upwards`). Without a home directory only the
/// upward search is left.
pub fn default_template_root(
    home: Option<String>,
    version: &str,
    version_is_dir: bool,
    templates_is_dir: bool,
    rsctl_is_dir: bool,
    upwards: Option<String>,
) -> (r: Option<String>)
    ensures
        match home {
            None => opt_view(r) == opt_view(upwards),
            Some(h) => if version_is_dir {
                opt_view(r) == Some(rsctl_version_dir_spec(h@, version@))
            } else if templates_is_dir {
                opt_view(r) == Some(rsctl_templates_spec(h@))
            } else if rsctl_is_dir {
                opt_view(r) == Some(rsctl_home_spec(h@))
            } else {
                opt_view(r) == opt_view(upwards)
            },
        },
{
    let h = match home {
        Some(h) => h,
        None => return upwards,
    };
    if version_is_dir {
        Some(rsctl_version_dir(h.as_str(), version))
    } else if templates_is_dir {
        Some(rsctl_templates(h.as_str()))
    } else if rsctl_is_dir {
        Some(rsctl_home(h.as_str()))
    } else {
        upwards
    }
}

/// Where the home directory comes from.
#[derive(Debug)]
pub enum HomeDir {
    /// `HOME`, else `USERPROFILE`.
    Dir(String),
    /// `HOMEDRIVE` joined with `HOMEPATH`.
    DriveAndPath(String, String),
}

/// The home directory from the environment: a non-empty `HOME`, else a non-empty
/// `USERPROFILE`, else non-empty `HOMEDRIVE` and `HOMEPATH` together.
pub fn home_dir(
    home: Option<String>,
    user_profile: Option<String>,
    drive: Option<String>,
    path: Option<String>,
) -> (r: Option<HomeDir>)
    ensures
        match opt_view(home) {
            Some(h) if h.len() > 0 => r matches Some(HomeDir::Dir(d)) && d@ == h,
            _ => match opt_view(user_profile) {
                Some(u) if u.len() > 0 => r matches Some(HomeDir::Dir(d)) && d@ == u,
                _ => match (opt_view(drive), opt_view(path)) {
                    (Some(d), Some(p)) if d.len() > 0 && p.len() > 0 => r matches Some(
                        HomeDir::DriveAndPath(d2, p2),
                    ) && d2@ == d && p2@ == p,
                    _ => r is None,
                },
            },
        },
{
    match home {
        Some(h) => {
            if !h.as_str().is_empty() {
                return Some(HomeDir::Dir(h));
            }
        },
        None => {},
    }
    match user_profile {
        Some(u) => {
            if !u.as_str().is_empty() {
                return Some(HomeDir::Dir(u));
            }
        },
        None => {},
    }
    match (drive, path) {
        (Some(d), Some(p)) => {
            if !d.as_str().is_empty() && !p.as_str().is_empty() {
                Some(HomeDir::DriveAndPath(d, p))
            } else {
                None
            }
        },
        _ => None,
    }
}

/// The part after the last `/` or `:`.
pub open spec fn last_segment(s: Seq<char>) -> Seq<char>
    decreases s.len(),
{
    if s.len() == 0 {
        s
    } else if s.last() == '/' || s.last() == ':' {
        Seq::empty()
    } else {
        last_segment(s.drop_last()).push(s.last())
    }
}

/// The position of the last `.`.
pub open spec fn last_dot(s: Seq<char>) -> Option<int>
    decreases s.len(),
{
    if s.len() == 0 {
        None
    } else if s.last() == '.' {
        Some(s.len() - 1)
    } else {
        last_dot(s.drop_last())
    }
}

/// `Path::new(n).file_stem()` of a single path component, `n` itself when it has none.
pub open spec fn stem_spec(n: Seq<char>) -> Seq<char> {
    if n == "."@ || n == ".."@ {
        n
    } else {
        match last_dot(n) {
            Some(k) => if k == 0 {
                n
            } else {
                n.subrange(0, k)
            },
            None => n,
        }
    }
}

/// The repository name of a remote: its last path segment without extension.
pub open spec fn basename_spec(remote: Seq<char>) -> Option<Seq<char>> {
    let last = last_segment(remote);
    if last.len() == 0 {
        None
    } else {
        Some(stem_spec(last))
    }
}

fn last_segment_exec(v: &Vec<char>) -> (last: Vec<char>)
    ensures
        last@ == last_segment(v@),
{
    let mut k = v.len();
    let mut last: Vec<char> = Vec::new();
    let ghost full = v@;
    assert(full.subrange(0, v.len() as int) == full);
    assert(last_segment(full) + last@ =~= last_segment(full));
    while k > 0 && v[k - 1] != '/' && v[k - 1] != ':'
        invariant
            k <= v.len(),
            v@ == full,
            last_segment(full) == last_segment(full.subrange(0, k as int)) + last@,
        decreases k,
    {
        assert(full.subrange(0, k as int).drop_last() == full.subrange(0, k - 1));
        let ghost l0 = last@;
        last.insert(0, v[k - 1]);
        assert(last@ =~= seq![v@[k - 1]] + l0);
        assert(last_segment(full.subrange(0, k as int)) == last_segment(full.subrange(0, k - 1))
            .push(v@[k - 1]));
        assert(last_segment(full.subrange(0, k - 1)).push(v@[k - 1]) + l0 =~= last_segment(
            full.subrange(0, k - 1),
        ) + last@);
        k = k - 1;
    }
    assert(last_segment(full.subrange(0, k as int)) == Seq::<char>::empty());
    assert(last_segment(full) =~= last@);
    last
}

fn stem_exec(last: &Vec<char>) -> (r: Vec<char>)
    ensures
        r@ == stem_spec(last@),
{
    if eq_str(last, ".") || eq_str(last, "..") {
        return last.clone();
    }
    let mut d = last.len();
    assert(last@.subrange(0, last.len() as int) == last@);
    while d > 0 && last[d - 1] != '.'
        invariant
            d <= last.len(),
            last_dot(last@) == last_dot(last@.subrange(0, d as int)),
        decreases d,
    {
        assert(last@.subrange(0, d as int).drop_last() == last@.subrange(0, d - 1));
        d = d - 1;
    }
    if d <= 1 {
        if d == 1 {
            assert(last_dot(last@.subrange(0, 1)) == Some(0int));
        }
        return last.clone();
    }
    assert(last_dot(last@.subrange(0, d as int)) == Some(d - 1));
    slice(last, 0, d - 1)
}

pub fn remote_repo_basename(remote: &str) -> (r: Option<String>)
    ensures
        match r {
            Some(b) => basename_spec(remote@) == Some(b@),
            None => basename_spec(remote@) is None,
        },
{
    let v = chars_of(remote);
    let last = last_segment_exec(&v);
    if last.len() == 0 {
        return None;
    }
    Some(string_of(&stem_exec(&last)))
}

/// The name of the directory a remote is cloned into: `<repo>-<millis>`.
pub open spec fn clone_dir_spec(remote: Seq<char>, millis: nat) -> Seq<char> {
    let repo = match basename_spec(remote) {
        Some(b) => b,
        None => "templates"@,
    };
    repo + seq!['-'] + digits(millis)
}

pub fn clone_dir_name(remote: &str, millis: u64) -> (r: String)
    ensures
        r@ == clone_dir_spec(remote@, millis as nat),
{
    let mut v = match remote_repo_basename(remote) {
        Some(b) => chars_of_string(&b),
        None => chars_of("templates"),
    };
    v.push('-');
    let d = digits_exec(millis);
    extend(&mut v, &d);
    string_of(&v)
}

// ---------------------------------------------------------------------------
// Options and names
// ---------------------------------------------------------------------------

/// Why the pipeline stops.
#[derive(Debug)]
pub enum PipelineError {
    DirRequired,
    ApiRequired,
    /// Several services with different names (the distinct names, in order).
    MultipleServiceNames(Vec<String>),
    /// A `--web` other than `axum` or `actix`.
    UnsupportedWeb(String),
}

/// Both `--dir` and `--api` must be given.
pub fn check_required(out_dir: &str, api_file: &str) -> (r: Result<(), PipelineError>)
    ensures
        out_dir@.len() == 0 ==> r matches Err(PipelineError::DirRequired),
        out_dir@.len() > 0 && api_file@.len() == 0 ==> r matches Err(PipelineError::ApiRequired),
        out_dir@.len() > 0 && api_file@.len() > 0 ==> r is Ok,
{
    if out_dir.is_empty() {
        return Err(PipelineError::DirRequired);
    }
    if api_file.is_empty() {
        return Err(PipelineError::ApiRequired);
    }
    Ok(())
}

/// The distinct service names of a spec, in `String` order.
pub fn distinct_service_names(sp: &spec::Spec) -> (r: SortedSet)
    ensures
        r.wf(),
        forall|y: Seq<char>|
            r.elems().contains(y) <==> exists|i: int|
                0 <= i < sp.services@.len() && #[trigger] sp.services@[i].name@ == y,
{
    let mut names = SortedSet::new();
    let mut i: usize = 0;
    while i < sp.services.len()
        invariant
            i <= sp.services.len(),
            names.wf(),
            forall|y: Seq<char>|
                names.elems().contains(y) <==> exists|k: int|
                    0 <= k < i && #[trigger] sp.services@[k].name@ == y,
        decreases sp.services.len() - i,
    {
        let n = chars_of_string(&sp.services[i].name);
        names.insert(n);
        proof {
            assert forall|y: Seq<char>|
                names.elems().contains(y) <==> exists|k: int|
                    0 <= k < i + 1 && #[trigger] sp.services@[k].name@ == y by {
                if y == sp.services@[i as int].name@ {
                    assert(sp.services@[i as int].name@ == y);
                }
            }
        }
        i = i + 1;
    }
    names
}

/// `y` is the name of some service.
pub open spec fn is_service_name(sp: Seq<spec::ServiceV>) -> spec_fn(Seq<char>) -> bool {
    |y: Seq<char>| exists|i: int| 0 <= i < sp.len() && #[trigger] sp[i].name == y
}

/// All services must share one name: more than one distinct name is refused with
/// the distinct names in `String` order.
pub fn check_service_names(sp: &spec::Spec) -> (r: Result<(), PipelineError>)
    ensures
        r is Ok <==> forall|i: int, j: int|
            0 <= i < sp.services@.len() && 0 <= j < sp.services@.len() ==> (
            #[trigger] sp.services@[i]).name@ == (#[trigger] sp.services@[j]).name@,
        match r {
            Ok(()) => true,
            Err(PipelineError::MultipleServiceNames(ns)) => ns@.map_values(|s: String| s@)
                == crate::sorted::sorted_members(is_service_name(spec::services_view(sp.services@))),
            Err(_) => false,
        },
{
    let names = distinct_service_names(sp);
    if names.len() > 1 {
        let ghost e = names.elems();
        proof {
            names.lemma_distinct();
            assert(e.contains(e[0]));
            assert(e.contains(e[1]));
            crate::sorted::lemma_lex_irreflexive(e[0]);
            let a = choose|k: int| 0 <= k < sp.services@.len() && #[trigger] sp.services@[k].name@ == e[0];
            let b = choose|k: int| 0 <= k < sp.services@.len() && #[trigger] sp.services@[k].name@ == e[1];
            assert(sp.services@[a].name@ != sp.services@[b].name@);
        }
        proof {
            let ss = spec::services_view(sp.services@);
            assert forall|y: Seq<char>| names.elems().contains(y) <==> is_service_name(ss)(y) by {
                if names.elems().contains(y) {
                    let k = choose|k: int| 0 <= k < sp.services@.len() && #[trigger] sp.services@[k].name@ == y;
                    assert(ss[k] == sp.services@[k]@);
                    assert(ss[k].name == y);
                    assert(is_service_name(ss)(y));
                }
                if is_service_name(ss)(y) {
                    let k = choose|k: int| 0 <= k < ss.len() && #[trigger] ss[k].name == y;
                    assert(ss[k] == sp.services@[k]@);
                    assert(sp.services@[k].name@ == y);
                    assert(names.elems().contains(y));
                }
            }
            names.lemma_sorted();
            crate::sorted::lemma_sorted_members(names.elems(), is_service_name(ss));
        }
        return Err(PipelineError::MultipleServiceNames(names.to_strings()));
    }
    proof {
        assert forall|i: int, j: int|
            0 <= i < sp.services@.len() && 0 <= j < sp.services@.len() implies (
            #[trigger] sp.services@[i]).name@ == (#[trigger] sp.services@[j]).name@ by {
            let e = names.elems();
            assert(e.contains(sp.services@[i].name@));
            assert(e.contains(sp.services@[j].name@));
        }
    }
    Ok(())
}

/// The project name: the first service's name, else the API file's stem, else `api`.
pub open spec fn service_name_spec(sp: Seq<spec::ServiceV>, stem: Option<Seq<char>>) -> Seq<char> {
    if sp.len() > 0 {
        sp[0].name
    } else {
        match stem {
            Some(s) => s,
            None => "api"@,
        }
    }
}

pub fn choose_service_name(sp: &spec::Spec, file_stem: Option<String>) -> (r: String)
    ensures
        r@ == service_name_spec(spec::services_view(sp.services@), spec::opt_view(file_stem)),
{
    if sp.services.len() > 0 {
        sp.services[0].name.clone()
    } else {
        match file_stem {
            Some(s) => s,
            None => String::from_str("api"),
        }
    }
}

/// The web frameworks the generator targets.
#[derive(Debug, Clone, Copy, PartialEq, Eq, Structural)]
pub enum Framework {
    Axum,
    Actix,
}

impl Framework {
    pub open spec fn name_spec(self) -> Seq<char> {
        match self {
            Framework::Axum => "axum"@,
            Framework::Actix => "actix"@,
        }
    }

    pub fn name(&self) -> (s: &'static str)
        ensures
            s@ == self.name_spec(),
    {
        match self {
            Framework::Axum => "axum",
            Framework::Actix => "actix",
        }
    }
}

/// The framework a `--web` value names.
pub fn framework_of(web: &str) -> (r: Result<Framework, PipelineError>)
    ensures
        web@ == "axum"@ ==> r == Ok::<Framework, PipelineError>(Framework::Axum),
        web@ == "actix"@ ==> r == Ok::<Framework, PipelineError>(Framework::Actix),
        web@ != "axum"@ && web@ != "actix"@ ==> (r matches Err(PipelineError::UnsupportedWeb(w))
            && w@ == web@),
{
    let v = chars_of(web);
    proof {
        reveal_strlit("axum");
        reveal_strlit("actix");
        assert("actix"@.len() == 5 && "axum"@.len() == 4);
    }
    if eq_str(&v, "axum") {
        Ok(Framework::Axum)
    } else if eq_str(&v, "actix") {
        Ok(Framework::Actix)
    } else {
        Err(PipelineError::UnsupportedWeb(string_of(&v)))
    }
}

// ---------------------------------------------------------------------------
// Writing
// ---------------------------------------------------------------------------

/// Files that older generator versions wrote and that an overwriting run removes.
pub open spec fn legacy_files() -> Seq<Seq<char>> {
    seq!["middleware/jwt.rs"@, "handler/routes.rs"@, "server.rs"@]
}

/// What an overwriting run removes before writing (when present): a stale
/// `main.rs` when the entry file is another one, and the legacy files.
pub open spec fn cleanup_spec(overwrite: bool, rel_paths: Seq<Seq<char>>) -> Seq<Seq<char>> {
    if !overwrite {
        Seq::empty()
    } else if rel_paths.contains("main.rs"@) {
        legacy_files()
    } else {
        seq!["main.rs"@] + legacy_files()
    }
}

pub fn cleanup_paths(overwrite: bool, rel_paths: &Vec<String>) -> (r: Vec<String>)
    ensures
        strings_view(r@) == cleanup_spec(overwrite, strings_view(rel_paths@)),
{
    let mut r: Vec<String> = Vec::new();
    if !overwrite {
        assert(strings_view(r@) =~= Seq::<Seq<char>>::empty());
        return r;
    }
    let ghost rp = strings_view(rel_paths@);
    let mut has_main = false;
    let mut i: usize = 0;
    while i < rel_paths.len()
        invariant
            i <= rel_paths.len(),
            rp == strings_view(rel_paths@),
            has_main <==> exists|k: int| 0 <= k < i && rp[k] == "main.rs"@,
        decreases rel_paths.len() - i,
    {
        let p = chars_of_string(&rel_paths[i]);
        assert(rp[i as int] == p@);
        if eq_str(&p, "main.rs") {
            has_main = true;
        }
        i = i + 1;
    }
    assert(has_main == rp.contains("main.rs"@));
    if !has_main {
        r.push(String::from_str("main.rs"));
    }
    r.push(String::from_str("middleware/jwt.rs"));
    r.push(String::from_str("handler/routes.rs"));
    r.push(String::from_str("server.rs"));
    assert(strings_view(r@) =~= cleanup_spec(overwrite, rp));
    r
}

/// A file is written unless it exists and overwriting is off.
pub fn should_write(overwrite: bool, exists: bool) -> (b: bool)
    ensures
        b == (overwrite || !exists),
{
    overwrite || !exists
}

} // verus!
