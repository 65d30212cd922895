//! The policy that a commit is held to.
use vstd::prelude::*;
use crate::casing::Casing;

verus! {

/// Limits on the type.
#[derive(Clone, Debug)]
pub struct TypeConf {
    /// The allowed types; a `*` among them allows any.
    pub types: Vec<String>,
    pub min_length: usize,
    pub max_length: usize,
    pub case: Casing,
}

/// Limits on the scope.
#[derive(Clone, Debug)]
pub struct ScopeConf {
    /// Whether a commit must name a scope.
    pub required: bool,
    /// The allowed scopes; a `*` among them allows any.
    pub scopes: Vec<String>,
    pub min_length: usize,
    pub max_length: usize,
    pub case: Casing,
}

/// The whole policy.
#[derive(Clone, Debug)]
pub struct Conf {
    pub commit_type: TypeConf,
    pub commit_scope: ScopeConf,
}

/// The entry that allows any value.
pub open spec fn wildcard() -> Seq<char> {
    seq!['*']
}

/// The default upper length bound, `u32::MAX`.
pub const DEFAULT_MAX_LENGTH: usize = 4294967295;

fn wildcard_list() -> (r: Vec<String>)
    ensures
        r@.len() == 1,
        r@[0]@ == wildcard(),
{
    let star = crate::text::string_of(&['*']);
    proof {
        assert(['*']@ =~= seq!['*']);
    }
    vec![star]
}

impl Default for TypeConf {
    /// Any type, of any length below `u32::MAX`, in kebab-case.
    fn default() -> (r: Self)
        ensures
            r.types@.len() == 1,
            r.types@[0]@ == wildcard(),
            r.min_length == 0,
            r.max_length == DEFAULT_MAX_LENGTH,
            r.case == Casing::Kebab,
    {
        TypeConf {
            types: wildcard_list(),
            min_length: 0,
            max_length: DEFAULT_MAX_LENGTH,
            case: Casing::Kebab,
        }
    }
}

impl Default for ScopeConf {
    /// No scope required; any scope, of any length below `u32::MAX`, in kebab-case.
    fn default() -> (r: Self)
        ensures
            !r.required,
            r.scopes@.len() == 1,
            r.scopes@[0]@ == wildcard(),
            r.min_length == 0,
            r.max_length == DEFAULT_MAX_LENGTH,
            r.case == Casing::Kebab,
    {
        ScopeConf {
            required: false,
            scopes: wildcard_list(),
            min_length: 0,
            max_length: DEFAULT_MAX_LENGTH,
            case: Casing::Kebab,
        }
    }
}

impl Default for Conf {
    fn default() -> (r: Self)
        ensures
            r.commit_type.types@.len() == 1,
            r.commit_type.types@[0]@ == wildcard(),
            r.commit_type.min_length == 0,
            r.commit_type.max_length == DEFAULT_MAX_LENGTH,
            r.commit_type.case == Casing::Kebab,
            !r.commit_scope.required,
            r.commit_scope.scopes@.len() == 1,
            r.commit_scope.scopes@[0]@ == wildcard(),
            r.commit_scope.min_length == 0,
            r.commit_scope.max_length == DEFAULT_MAX_LENGTH,
            r.commit_scope.case == Casing::Kebab,
    {
        Conf { commit_type: TypeConf::default(), commit_scope: ScopeConf::default() }
    }
}

} // verus!
