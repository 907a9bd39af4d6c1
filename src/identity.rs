use vstd::prelude::*;
use vstd::string::StrSliceExecFns;

use crate::error::ProofError;
use crate::record::{owner_view, Owner};
use crate::text::after_prefix;

verus! {

/// The owner that a credential resolves to. An absent or empty credential is anonymous.
/// A non-empty one names the login that validating it produced, or is `Unauthorized`
/// when validation produced none.
pub open spec fn resolution(credential: Option<Seq<char>>, login: Option<Seq<char>>) -> Result<
    Option<Seq<char>>,
    ProofError,
> {
    match credential {
        None => Ok(None),
        Some(c) => if c.len() == 0 {
            Ok(None)
        } else {
            match login {
                Some(l) => Ok(Some(l)),
                None => Err(ProofError::Unauthorized),
            }
        },
    }
}

/// Resolves a submission's owner from its credential and the login that validating the
/// credential yielded (`None` when validation failed).
pub fn resolve_owner(credential: Option<String>, login: Option<String>) -> (r: Result<
    Owner,
    ProofError,
>)
    ensures
        r is Ok <==> resolution(
            match credential {
                Some(c) => Some(c@),
                None => None,
            },
            match login {
                Some(l) => Some(l@),
                None => None,
            },
        ) is Ok,
        r is Ok ==> Ok::<Option<Seq<char>>, ProofError>(owner_view(&r->Ok_0)) == resolution(
            match credential {
                Some(c) => Some(c@),
                None => None,
            },
            match login {
                Some(l) => Some(l@),
                None => None,
            },
        ),
        r is Err ==> r->Err_0 == ProofError::Unauthorized,
{
    match credential {
        None => Ok(Owner::Anonymous),
        Some(c) => {
            if c.unicode_len() == 0 {
                Ok(Owner::Anonymous)
            } else {
                match login {
                    Some(l) => Ok(Owner::Identified { login: l }),
                    None => Err(ProofError::Unauthorized),
                }
            }
        },
    }
}

/// The token of an `Authorization` header of the form `Bearer <token>`.
pub fn bearer_token(header: &str) -> (r: Option<String>)
    ensures
        r is Some <==> (header@.len() >= 7 && header@.subrange(0, 7) == "Bearer "@),
        r is Some ==> r->0@ == header@.subrange(7, header@.len() as int),
{
    proof {
        reveal_strlit("Bearer ");
    }
    after_prefix(header, "Bearer ")
}

} // verus!
