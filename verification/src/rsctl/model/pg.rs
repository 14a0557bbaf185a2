//! The PostgreSQL model pipeline.
use vstd::prelude::*;
use crate::rsctl::pipeline::PipelineError;
use crate::rsctl::spec::opt_view;

verus! {

/// What `model pg` was asked for.
#[derive(Debug, Clone)]
pub struct Options {
    pub out_dir: String,
    pub cache: bool,
    pub style: Option<String>,
    /// `None`: the default templates; otherwise a local path or a git/http URL.
    pub remote: Option<String>,
}

/// The resolved configuration of a run.
#[derive(Debug, Clone)]
pub struct Config {
    pub out_dir: String,
    pub cache: bool,
    pub style: Option<String>,
    /// The template root directory (expected to contain `model/pg/`).
    pub template_root: String,
}

/// The configuration of a run with the resolved template root: `--dir` must be given.
pub fn run(opts: Options, template_root: String) -> (r: Result<Config, PipelineError>)
    ensures
        opts.out_dir@.len() == 0 ==> r matches Err(PipelineError::DirRequired),
        opts.out_dir@.len() > 0 ==> (r matches Ok(c) && c.out_dir@ == opts.out_dir@ && c.cache
            == opts.cache && opt_view(c.style) == opt_view(opts.style) && c.template_root@
            == template_root@),
{
    if opts.out_dir.as_str().is_empty() {
        return Err(PipelineError::DirRequired);
    }
    Ok(Config { out_dir: opts.out_dir, cache: opts.cache, style: opts.style, template_root })
}

} // verus!
