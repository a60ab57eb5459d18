//! What the adapters need to know of an operation.

use vstd::prelude::*;

verus! {

/// How an operation answers.
#[derive(Clone, Copy, Debug, PartialEq, Eq, Structural)]
pub enum OpKind {
    /// One request, one answer.
    Unary,
}

/// What a request must bring to be let through.
#[derive(Clone, Copy, Debug, PartialEq, Eq, Structural)]
pub enum AuthPolicy {
    /// Nothing.
    Public,
    /// The header `x-rein-action: 1`, for operations that change something.
    MutationMarker,
    /// The read token, for operations that show raw transcripts.
    ReadToken,
}

/// The name of a policy.
pub open spec fn policy_name(p: AuthPolicy) -> Seq<char> {
    match p {
        AuthPolicy::Public => "public"@,
        AuthPolicy::MutationMarker => "mutation_marker"@,
        AuthPolicy::ReadToken => "read_token"@,
    }
}

impl AuthPolicy {
    /// The name of the policy.
    pub fn as_str(&self) -> (r: &'static str)
        ensures
            r@ == policy_name(*self),
    {
        match self {
            AuthPolicy::Public => "public",
            AuthPolicy::MutationMarker => "mutation_marker",
            AuthPolicy::ReadToken => "read_token",
        }
    }
}

/// One segment of the path template of an operation. The path
/// `/api/memories/{id}` is `Literal("api")`, `Literal("memories")`,
/// `Param("id")`.
#[derive(Clone, Copy, Debug, PartialEq, Eq)]
pub enum PathSegment {
    /// A fixed component.
    Literal(&'static str),
    /// A named parameter.
    Param(&'static str),
}

} // verus!
