//! The arguments of `rsctl api`, as the command line hands them over.
use vstd::prelude::*;
use crate::rsctl::api;

verus! {

/// `rsctl api <lang>`.
#[derive(Debug)]
pub enum Api {
    /// Generate a Rust API scaffold.
    Rs(RsArgs),
}

/// The arguments of `rsctl api rs`.
#[derive(Debug, Clone)]
pub struct RsArgs {
    /// Output directory (`-d`, default `.`).
    pub dir: String,
    /// The API description file (`-a`).
    pub api: String,
    /// File naming style (`-s`, default `rust_zero`).
    pub style: Option<String>,
    /// Template source (`-r`): a local directory or a git/http URL.
    pub remote: Option<String>,
    /// Merge the handlers of a group into one file (`-m`, default `true`).
    pub merge: bool,
    /// Overwrite existing files (`-o`).
    pub overwrite: bool,
    /// Target framework (`-w`, default `axum`).
    pub web: String,
}

impl RsArgs {
    /// The pipeline options these arguments ask for.
    pub fn options(self) -> (o: api::Options)
        ensures
            o.out_dir@ == self.dir@,
            o.api_file@ == self.api@,
            crate::rsctl::spec::opt_view(o.style) == crate::rsctl::spec::opt_view(self.style),
            crate::rsctl::spec::opt_view(o.remote) == crate::rsctl::spec::opt_view(self.remote),
            o.merge == self.merge,
            o.overwrite == self.overwrite,
            o.web@ == self.web@,
    {
        api::Options {
            out_dir: self.dir,
            api_file: self.api,
            style: self.style,
            remote: self.remote,
            merge: self.merge,
            overwrite: self.overwrite,
            web: self.web,
        }
    }
}

} // verus!
