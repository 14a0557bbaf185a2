//! The arguments of the standalone command line (`api` and `model` subcommands).
use vstd::prelude::*;
use crate::rsctl::model::{mysql, pg};
use crate::rsctl::spec::opt_view;

verus! {

/// `api <lang>`.
#[derive(Debug)]
pub enum Api {
    /// Generate a Rust API scaffold.
    Rs(RsArgs),
}

/// The arguments of `api rs`.
#[derive(Debug, Clone)]
pub struct RsArgs {
    /// Output directory (`--dir`).
    pub dir: String,
    /// The API description file (`--api`).
    pub api: String,
    /// File naming style (`--style`).
    pub style: Option<String>,
    /// Template source (`--remote`).
    pub remote: Option<String>,
}

/// `model <driver>`.
#[derive(Debug)]
pub enum Model {
    /// Generate model code for MySQL.
    Mysql(MysqlArgs),
    /// Generate model code for PostgreSQL.
    Pg(PgArgs),
}

/// The arguments of `model mysql`.
#[derive(Debug, Clone)]
pub struct MysqlArgs {
    /// Generate code with cache (`-c`).
    pub cache: bool,
    /// The target directory (`-d`).
    pub dir: String,
    /// Template source (`--remote`).
    pub remote: Option<String>,
    /// File naming style (`--style`).
    pub style: Option<String>,
}

/// The arguments of `model pg`.
#[derive(Debug, Clone)]
pub struct PgArgs {
    /// Generate code with cache (`-c`).
    pub cache: bool,
    /// The target directory (`-d`).
    pub dir: String,
    /// Template source (`--remote`).
    pub remote: Option<String>,
    /// File naming style (`--style`).
    pub style: Option<String>,
}

impl MysqlArgs {
    /// The pipeline options these arguments ask for.
    pub fn options(self) -> (o: mysql::Options)
        ensures
            o.out_dir@ == self.dir@,
            o.cache == self.cache,
            opt_view(o.style) == opt_view(self.style),
            opt_view(o.remote) == opt_view(self.remote),
    {
        mysql::Options { out_dir: self.dir, cache: self.cache, style: self.style, remote: self.remote }
    }
}

impl PgArgs {
    /// The pipeline options these arguments ask for.
    pub fn options(self) -> (o: pg::Options)
        ensures
            o.out_dir@ == self.dir@,
            o.cache == self.cache,
            opt_view(o.style) == opt_view(self.style),
            opt_view(o.remote) == opt_view(self.remote),
    {
        pg::Options { out_dir: self.dir, cache: self.cache, style: self.style, remote: self.remote }
    }
}

} // verus!
