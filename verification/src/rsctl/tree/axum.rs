//! The axum entry point of the generator.
use vstd::prelude::*;
use crate::rsctl::spec;
use crate::rsctl::tree::{
    gen_result_view, generate_by_framework, tree_spec, Artifacts, GenEnv, GenError, Options,
};

verus! {

/// Generates the project tree for axum.
pub fn generate(spec: &spec::Spec, opts: &Options, env: &GenEnv) -> (r: Result<Artifacts, GenError>)
    ensures
        gen_result_view(r) == tree_spec(
            "axum"@,
            spec::services_view(spec.services@),
            spec::types_view(spec.types@),
            opts.service_name@,
            opts.style@,
            env.templates@,
            env.version@,
            env.rust_zero_rel@,
            opts.merge,
        ),
{
    generate_by_framework("axum", spec, opts, env)
}

} // verus!
