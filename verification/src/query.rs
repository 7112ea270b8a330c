//! The decision spine of one invocation: validate the request, resolve
//! the source, settle whether the workspace pin is in force, and fix the
//! toolchain version the compatibility check runs against.  The caller
//! performs the surrounding work (lock acquisition, fetching, printing)
//! and feeds the results back in as plain values.

use vstd::prelude::*;

use crate::errors::{InfoError, UsageKind};
use crate::package::PackageId;
use crate::resolver::{SourceResolution, resolve_source, spec_original, spec_use_pin};
use crate::source::{ReplacementTable, SourceId, spec_replacement};
use crate::version::{Version, spec_triple_eq, strip_prerelease};

verus! {

/// The locked and frozen flags are meaningful only when the query is
/// anchored in a workspace; outside one, either flag is a usage error
/// before any network access, the locked flag reported first.
pub fn validate_locked_and_frozen_options(in_workspace: bool, locked: bool, frozen: bool) -> (r:
    Result<(), InfoError>)
    ensures
        ({
            match r {
                Ok(()) => in_workspace || (!locked && !frozen),
                Err(e) => {
                    &&& !in_workspace
                    &&& (locked || frozen)
                    &&& e == (InfoError::Usage {
                        kind: if locked {
                            UsageKind::LockedOutsideWorkspace
                        } else {
                            UsageKind::FrozenOutsideWorkspace
                        },
                    })
                },
            }
        }),
{
    if !in_workspace {
        if locked {
            return Err(InfoError::Usage { kind: UsageKind::LockedOutsideWorkspace });
        }
        if frozen {
            return Err(InfoError::Usage { kind: UsageKind::FrozenOutsideWorkspace });
        }
    }
    Ok(())
}

/// The toolchain version a compatibility check runs against, or nothing
/// when the check is switched off: the nearest manifest's declared
/// minimum wins, then the workspace's, then the running toolchain with
/// its pre-release tag stripped so a nightly or beta compares by its
/// numeric triple.
pub fn effective_toolchain(
    ignore_rust_version: bool,
    manifest_msrv: Option<Version>,
    workspace_msrv: Option<Version>,
    rustc: &Version,
) -> (r: Option<Version>)
    ensures
        ignore_rust_version ==> r is None,
        !ignore_rust_version ==> r is Some,
        !ignore_rust_version && manifest_msrv is Some ==> r == manifest_msrv,
        !ignore_rust_version && manifest_msrv is None && workspace_msrv is Some ==> r
            == workspace_msrv,
        !ignore_rust_version && manifest_msrv is None && workspace_msrv is None ==> {
            &&& spec_triple_eq(r->0, *rustc)
            &&& r->0.spec_is_release()
        },
{
    if ignore_rust_version {
        None
    } else if let Some(m) = manifest_msrv {
        Some(m)
    } else if let Some(w) = workspace_msrv {
        Some(w)
    } else {
        Some(strip_prerelease(rustc))
    }
}

/// A dependency-tree hint helps only when the package was found in the
/// workspace and is not itself a member: a member's inverted tree would
/// print nothing but the package itself.
pub fn suggest_cargo_tree(pin_in_force: bool, is_member: bool) -> (r: bool)
    ensures
        r == (pin_in_force && !is_member),
{
    pin_in_force && !is_member
}

/// Everything later stages need from the up-front decisions: the resolved
/// source identities, and the pin if it stays in force.
#[derive(Clone, Debug)]
pub struct QueryPlan {
    pub resolution: SourceResolution,
    /// The pinned package, kept only while the pin is in force.
    pub pin: Option<PackageId>,
}

/// Runs the up-front decisions of one invocation in order: source
/// resolution with the replacement-safety check, then the locked/frozen
/// validation against whether the pin stays in force.  No fetching has
/// happened yet when this fails.
pub fn plan_query(
    explicit: &Option<SourceId>,
    pin: Option<PackageId>,
    default_registry: &SourceId,
    builtin: &ReplacementTable,
    configured: &ReplacementTable,
    locked: bool,
    frozen: bool,
) -> (r: Result<QueryPlan, InfoError>)
    ensures
        ({
            let pin_src = match pin {
                Option::Some(p) => Option::Some(p.source),
                Option::None => Option::None,
            };
            let in_force = spec_use_pin(*explicit, pin_src, configured.entries@);
            let orig = spec_original(*explicit, pin_src, *default_registry, configured.entries@);
            let b = spec_replacement(builtin.entries@, orig);
            let c = spec_replacement(configured.entries@, orig);
            match r {
                Ok(plan) => {
                    &&& plan.resolution.use_pin == in_force
                    &&& plan.resolution.original == orig
                    &&& plan.resolution.replacement == b
                    &&& (explicit is Some || c.key() == b.key())
                    &&& plan.pin == (if in_force {
                        pin
                    } else {
                        Option::None
                    })
                    &&& (in_force || (!locked && !frozen))
                    &&& (in_force ==> pin is Some)
                },
                Err(e) => {
                    if explicit is None && c.key() != b.key() {
                        e == (InfoError::AmbiguousSource { configured: c })
                    } else {
                        &&& !in_force
                        &&& (locked || frozen)
                        &&& e == (InfoError::Usage {
                            kind: if locked {
                                UsageKind::LockedOutsideWorkspace
                            } else {
                                UsageKind::FrozenOutsideWorkspace
                            },
                        })
                    }
                },
            }
        }),
{
    let pin_source: Option<SourceId> = match &pin {
        Some(p) => Some(p.source.duplicate()),
        None => None,
    };
    let resolution = match resolve_source(explicit, &pin_source, default_registry, builtin,
        configured) {
        Ok(res) => res,
        Err(e) => {
            return Err(e);
        },
    };
    let pin_kept: Option<PackageId> = if resolution.use_pin {
        pin
    } else {
        None
    };
    match validate_locked_and_frozen_options(pin_kept.is_some(), locked, frozen) {
        Ok(()) => Ok(QueryPlan { resolution, pin: pin_kept }),
        Err(e) => Err(e),
    }
}

} // verus!
