//! Ownership lookup decisions.  The network call itself belongs to the
//! registry-API collaborator; this module decides whether a lookup
//! applies, what to do with each authentication outcome, and how an owner
//! is displayed.  Missing credentials mean "no owner list", never an
//! error.

use vstd::prelude::*;
use vstd::string::StringExecFns;

use crate::source::SourceId;

verus! {

/// One crate owner as the registry API reports it.
pub struct Owner {
    pub login: String,
    pub name: Option<String>,
}

/// What the credential provider produced.
pub enum TokenOutcome {
    /// A token was found.
    Granted { token: String },
    /// No credentials are stored; the user is simply not logged in.
    Missing,
    /// Looking the token up failed for a real reason.
    Failed { message: String },
}

/// What to do about the owner listing.
pub enum OwnerPlan {
    /// Report no owner list; not an error.
    Skip,
    /// Query the ownership API at the given host with the given token.
    Query { api: String, token: String },
    /// Surface the authentication failure.
    Fail { message: String },
}

/// Only a remote registry offers an ownership API; anything else skips
/// the lookup outright, before registry configuration or credentials are
/// touched.
pub fn should_list_owners(original: &SourceId) -> (r: bool)
    ensures
        r == original.spec_is_remote_registry(),
{
    original.is_remote_registry()
}

/// Decides the owner lookup from the registry's API host (absent when the
/// registry has no API) and the credential outcome: no API or no stored
/// credentials mean skip; a genuine credential failure surfaces; otherwise
/// the query proceeds.
pub fn owner_plan(api: Option<String>, token: TokenOutcome) -> (r: OwnerPlan)
    ensures
        ({
            match (api, token) {
                (Option::None, _) => r is Skip,
                (Option::Some(a), TokenOutcome::Missing) => r is Skip,
                (Option::Some(a), TokenOutcome::Failed { message }) => r == (OwnerPlan::Fail {
                    message,
                }),
                (Option::Some(a), TokenOutcome::Granted { token: t }) => r == (OwnerPlan::Query {
                    api: a,
                    token: t,
                }),
            }
        }),
{
    match (api, token) {
        (None, _) => OwnerPlan::Skip,
        (Some(_), TokenOutcome::Missing) => OwnerPlan::Skip,
        (Some(_), TokenOutcome::Failed { message }) => OwnerPlan::Fail { message },
        (Some(a), TokenOutcome::Granted { token }) => OwnerPlan::Query { api: a, token },
    }
}

/// The display text of one owner: the login, and the display name in
/// parentheses when there is one.
pub open spec fn spec_username(u: Owner) -> Seq<char> {
    u.login@ + (if u.name is Some {
        " ("@ + u.name->0@ + ")"@
    } else {
        Seq::<char>::empty()
    })
}

pub fn get_username(u: &Owner) -> (r: String)
    ensures
        r@ == spec_username(*u),
{
    let mut s = u.login.clone();
    if let Some(n) = &u.name {
        s.append(" (");
        s.append(n.as_str());
        s.append(")");
    }
    proof {
        assert(s@ =~= spec_username(*u));
    }
    s
}

/// The display texts of an owner list, in the order the API returned
/// them.
pub fn format_owners(owners: &Vec<Owner>) -> (r: Vec<String>)
    ensures
        r@.len() == owners@.len(),
        forall|i: int| 0 <= i < owners@.len() ==> (#[trigger] r@[i])@ == spec_username(owners@[i]),
{
    let n = owners.len();
    let mut out: Vec<String> = Vec::new();
    let mut i: usize = 0;
    while i < n
        invariant
            n == owners@.len(),
            i <= n,
            out@.len() == i,
            forall|t: int| 0 <= t < i ==> (#[trigger] out@[t])@ == spec_username(owners@[t]),
        decreases n - i,
    {
        let s = get_username(&owners[i]);
        out.push(s);
        i += 1;
    }
    out
}

} // verus!
