//! The `api rs` pipeline: options, resolved configuration, and the steps from
//! an API description to the spec the generator takes.
use vstd::prelude::*;
use crate::rsctl::parse::{self, parse, parse_spec, ParseError};
use crate::rsctl::pipeline::{
    check_required, check_service_names, choose_service_name, framework_of, resolve_template_root,
    root_spec, service_name_spec, template_root_of, template_source_spec, Framework, PipelineError,
};
use crate::text::{chars_of_string, string_of};
use crate::rsctl::semantic::{items_conv, to_spec, SemanticError};
use crate::rsctl::spec::{self, opt_view};

verus! {

/// What `rsctl api rs` was asked for.
#[derive(Debug, Clone)]
pub struct Options {
    pub out_dir: String,
    pub api_file: String,
    pub style: Option<String>,
    /// `None`: the default templates; otherwise a local path or a git/http URL.
    pub remote: Option<String>,
    /// Merge handlers of the same group into one file.
    pub merge: bool,
    /// Whether existing files are overwritten.
    pub overwrite: bool,
    /// Target web framework name (`axum` or `actix`).
    pub web: String,
}

/// The resolved configuration of a run.
#[derive(Debug, Clone)]
pub struct Config {
    pub out_dir: String,
    pub api_file: String,
    pub style: Option<String>,
    /// The template root directory (expected to contain `api/rs/`).
    pub template_root: String,
    pub merge: bool,
    pub overwrite: bool,
    pub web: String,
}

/// The configuration of a run with web framework `web` and the resolved template root:
/// `--dir` and `--api` must be given.
pub fn config(opts: Options, web: &str, template_root: String) -> (r: Result<Config, PipelineError>)
    ensures
        opts.out_dir@.len() == 0 ==> r matches Err(PipelineError::DirRequired),
        opts.out_dir@.len() > 0 && opts.api_file@.len() == 0 ==> r matches Err(
            PipelineError::ApiRequired,
        ),
        opts.out_dir@.len() > 0 && opts.api_file@.len() > 0 ==> (r matches Ok(c) && c.out_dir@
            == opts.out_dir@ && c.api_file@ == opts.api_file@ && opt_view(c.style) == opt_view(
            opts.style,
        ) && c.template_root@ == template_root@ && c.merge == opts.merge && c.overwrite
            == opts.overwrite && c.web@ == web@),
{
    check_required(opts.out_dir.as_str(), opts.api_file.as_str())?;
    Ok(
        Config {
            out_dir: opts.out_dir,
            api_file: opts.api_file,
            style: opts.style,
            template_root,
            merge: opts.merge,
            overwrite: opts.overwrite,
            web: String::from_str(web),
        },
    )
}

/// The configuration of `run`: `--dir` and `--api` are checked, and the template
/// root is the one `--remote` resolves to (see `template_root_of`), given the
/// default root found on disk and, for a repository, its clone.
pub fn run_config(
    opts: Options,
    default_root: Option<String>,
    cloned: Option<String>,
    clone_has_templates: bool,
) -> (r: Result<Config, PipelineError>)
    requires
        template_source_spec(opt_view(opts.remote)).1 ==> cloned is Some,
    ensures
        opts.out_dir@.len() == 0 ==> r matches Err(PipelineError::DirRequired),
        opts.out_dir@.len() > 0 && opts.api_file@.len() == 0 ==> r matches Err(
            PipelineError::ApiRequired,
        ),
        opts.out_dir@.len() > 0 && opts.api_file@.len() > 0 ==> (r matches Ok(c) && c.out_dir@
            == opts.out_dir@ && c.api_file@ == opts.api_file@ && opt_view(c.style) == opt_view(
            opts.style,
        ) && c.template_root@ == root_spec(
            template_source_spec(opt_view(opts.remote)),
            opt_view(default_root),
            opt_view(cloned),
            clone_has_templates,
        ) && c.merge == opts.merge && c.overwrite == opts.overwrite && c.web@ == opts.web@),
{
    let src = match &opts.remote {
        Some(rm) => resolve_template_root(Some(rm.as_str())),
        None => resolve_template_root(None),
    };
    let root = template_root_of(&src, default_root, cloned, clone_has_templates);
    let web = string_of(&chars_of_string(&opts.web));
    config(opts, web.as_str(), root)
}

/// Why an API description did not reach the generator.
#[derive(Debug)]
pub enum ApiError {
    Parse(ParseError),
    Semantic(SemanticError),
    Pipeline(PipelineError),
}

/// An API description ready for the generator.
#[derive(Debug)]
pub struct Prepared {
    pub spec: spec::Spec,
    /// The project name: the first service's, else the file stem, else `api`.
    pub service_name: String,
    /// The naming style (`rust_zero` when none was given).
    pub style: String,
    pub framework: Framework,
}

/// All services share one name.
pub open spec fn one_service_name(ss: Seq<spec::ServiceV>) -> bool {
    forall|i: int, j: int| 0 <= i < ss.len() && 0 <= j < ss.len() ==> (#[trigger] ss[i]).name == (
    #[trigger] ss[j]).name
}

/// Parses and normalises `src` (the text of the API file), checks that the
/// services share one name and that `web` names a framework, and picks the
/// project name and the style, in that order.
pub fn prepare(src: &str, file_stem: Option<String>, style: Option<String>, web: &str) -> (r: Result<
    Prepared,
    ApiError,
>)
    ensures
        match parse_spec(src@) {
            Err(off) => r matches Err(ApiError::Parse(e)) && e.offset == off,
            Ok(items) => match items_conv(items) {
                Err(m) => r matches Err(ApiError::Semantic(SemanticError::UnsupportedMethod(t)))
                    && t@ == m,
                Ok((ss, rs)) => if !one_service_name(ss) {
                    r matches Err(ApiError::Pipeline(PipelineError::MultipleServiceNames(_)))
                } else if web@ != "axum"@ && web@ != "actix"@ {
                    r matches Err(ApiError::Pipeline(PipelineError::UnsupportedWeb(w))) && w@
                        == web@
                } else {
                    r matches Ok(p) && spec::services_view(p.spec.services@) == ss
                        && spec::routes_view(p.spec.routes@) == rs && p.spec.types@.len() == 0
                        && p.service_name@ == service_name_spec(ss, opt_view(file_stem))
                        && p.style@ == (match style {
                        Some(s) => s@,
                        None => "rust_zero"@,
                    }) && p.framework.name_spec() == web@
                },
            },
        },
{
    let ast = match parse(src) {
        Ok(a) => a,
        Err(e) => {
            return Err(ApiError::Parse(e));
        },
    };
    let sp = match to_spec(&ast) {
        Ok(s) => s,
        Err(e) => {
            return Err(ApiError::Semantic(e));
        },
    };
    proof {
        let ss = spec::services_view(sp.services@);
        assert forall|i: int, j: int|
            0 <= i < ss.len() && 0 <= j < ss.len() implies ((#[trigger] ss[i]).name == (
            #[trigger] ss[j]).name) == (sp.services@[i].name@ == sp.services@[j].name@) by {
            assert(ss[i] == sp.services@[i]@);
            assert(ss[j] == sp.services@[j]@);
        }
    }
    if sp.services.len() > 0 {
        match check_service_names(&sp) {
            Ok(()) => {},
            Err(e) => {
                proof {
                    let ss = spec::services_view(sp.services@);
                    let (i, j) = choose|i: int, j: int|
                        0 <= i < sp.services@.len() && 0 <= j < sp.services@.len() && !((
                        #[trigger] sp.services@[i]).name@ == (#[trigger] sp.services@[j]).name@);
                    assert(ss[i] == sp.services@[i]@);
                    assert(ss[j] == sp.services@[j]@);
                    assert(!one_service_name(ss));
                }
                return Err(ApiError::Pipeline(e));
            },
        }
    }
    let st = match style {
        Some(s) => s,
        None => String::from_str("rust_zero"),
    };
    let name = choose_service_name(&sp, file_stem);
    let fw = match framework_of(web) {
        Ok(f) => f,
        Err(e) => {
            return Err(ApiError::Pipeline(e));
        },
    };
    proof {
        reveal_strlit("axum");
        reveal_strlit("actix");
    }
    Ok(Prepared { spec: sp, service_name: name, style: st, framework: fw })
}

} // verus!
