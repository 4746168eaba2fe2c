//! The server's command line: `herald [--multi-tenant | --single-tenant] [CONFIG]`.
use vstd::prelude::*;
use vstd::string::*;
use crate::text::{copy_str, str_eq, starts_with_str};

verus! {

broadcast use vstd::string::group_string_axioms;

/// What the command line asks for.
pub struct ServerArgs {
    pub multi_tenant: bool,
    pub single_tenant: bool,
    /// The configuration file (`herald.toml` unless one is named).
    pub config_path: String,
}

/// `flag` is one of the arguments.
pub open spec fn has_arg(args: Seq<String>, flag: Seq<char>) -> bool {
    exists|i: int| 0 <= i < args.len() && args[i]@ == flag
}

/// The argument at `i` names the configuration file: it is no option and not the
/// program's own name.
pub open spec fn is_path_arg(args: Seq<String>, i: int) -> bool {
    !"--"@.is_prefix_of(args[i]@) && args[i]@ != args[0]@
}

/// Reads the command line (`args[0]` is the program): multi-tenant only when asked,
/// single-tenant when asked or otherwise.
pub fn parse_args(args: &Vec<String>) -> (r: ServerArgs)
    ensures
        r.multi_tenant == has_arg(args@, "--multi-tenant"@),
        r.single_tenant == (has_arg(args@, "--single-tenant"@) || !r.multi_tenant),
        match first_path(args@) {
            Some(i) => r.config_path@ == args@[i]@,
            None => r.config_path@ == "herald.toml"@,
        },
{
    let multi = has_flag(args, "--multi-tenant");
    let single = has_flag(args, "--single-tenant") || !multi;
    let mut i: usize = 0;
    while i < args.len()
        invariant
            i <= args@.len(),
            multi == has_arg(args@, "--multi-tenant"@),
            single == (has_arg(args@, "--single-tenant"@) || !multi),
            forall|j: int| 0 <= j < i ==> !is_path_arg(args@, j),
        decreases args@.len() - i,
    {
        if !starts_with_str(args[i].as_str(), "--") && !str_eq(args[i].as_str(), args[0].as_str()) {
            proof {
                lemma_first_path(args@, i as int);
            }
            return ServerArgs {
                multi_tenant: multi,
                single_tenant: single,
                config_path: copy_str(args[i].as_str()),
            };
        }
        i += 1;
    }
    proof {
        lemma_no_path(args@);
    }
    ServerArgs { multi_tenant: multi, single_tenant: single, config_path: String::from_str("herald.toml") }
}

/// The index of the first argument that `is_path_arg`, if any.
pub open spec fn first_path(args: Seq<String>) -> Option<int> {
    if exists|i: int| 0 <= i < args.len() && is_path_arg(args, i) && forall|j: int|
        0 <= j < i ==> !is_path_arg(args, j) {
        Some(
            choose|i: int|
                0 <= i < args.len() && is_path_arg(args, i) && forall|j: int|
                    0 <= j < i ==> !is_path_arg(args, j),
        )
    } else {
        None
    }
}

proof fn lemma_first_path(args: Seq<String>, i: int)
    requires
        0 <= i < args.len(),
        is_path_arg(args, i),
        forall|j: int| 0 <= j < i ==> !is_path_arg(args, j),
    ensures
        first_path(args) == Some(i),
{
    let k = choose|k: int|
        0 <= k < args.len() && is_path_arg(args, k) && forall|j: int| 0 <= j < k ==> !is_path_arg(args, j);
    if k < i {
        assert(!is_path_arg(args, k));
    }
    if i < k {
        assert(!is_path_arg(args, i));
    }
}

proof fn lemma_no_path(args: Seq<String>)
    requires
        forall|j: int| 0 <= j < args.len() ==> !is_path_arg(args, j),
    ensures
        first_path(args) is None,
{
}

/// Whether `flag` is one of the arguments.
fn has_flag(args: &Vec<String>, flag: &str) -> (r: bool)
    ensures
        r == has_arg(args@, flag@),
{
    let mut i: usize = 0;
    while i < args.len()
        invariant
            i <= args@.len(),
            forall|j: int| 0 <= j < i ==> args@[j]@ != flag@,
        decreases args@.len() - i,
    {
        if str_eq(args[i].as_str(), flag) {
            return true;
        }
        i += 1;
    }
    false
}

/// The check made before serving in multi-tenant mode: a super-admin token must be
/// configured.
pub fn check_tenant_mode(single_tenant: bool, has_super_admin_token: bool) -> (r: Result<(), String>)
    ensures
        (r is Err) == (!single_tenant && !has_super_admin_token),
        r matches Err(m) ==> m@ == "auth.super_admin_token is required in multi-tenant mode"@,
{
    if !single_tenant && !has_super_admin_token {
        return Err(String::from_str("auth.super_admin_token is required in multi-tenant mode"));
    }
    Ok(())
}

} // verus!
