//! Version selection: picks one concrete package version from the
//! candidate set, honoring the workspace pin and the toolchain
//! compatibility policy.

use vstd::prelude::*;

use crate::errors::InfoError;
use crate::package::{PackageId, PackageSpec, Summary, spec_matches};
use crate::source::SourceId;
use crate::version::{
    Version, msrv_admits, spec_msrv_admits, spec_version_le, spec_version_lt, version_le,
};

verus! {

/// Whether a candidate is admissible for the query: it must match the
/// specifier, and when a toolchain compatibility check is requested its
/// declared minimum toolchain version must admit the target.  A candidate
/// that declares no minimum is treated as compatible.
pub open spec fn spec_candidate_ok(s: PackageSpec, toolchain: Option<Version>, c: Summary) -> bool {
    &&& spec_matches(s, c.id)
    &&& ((toolchain is Some && c.msrv is Some) ==> spec_msrv_admits(c.msrv->0, toolchain->0))
}

/// The selected position: admissible, of maximal version rank among the
/// admissible candidates, and the last such position.
pub open spec fn spec_selected_at(
    s: PackageSpec,
    toolchain: Option<Version>,
    cands: Seq<Summary>,
    i: int,
) -> bool {
    &&& 0 <= i < cands.len()
    &&& spec_candidate_ok(s, toolchain, cands[i])
    &&& forall|j: int|
        0 <= j < cands.len() && spec_candidate_ok(s, toolchain, #[trigger] cands[j])
            ==> spec_version_le(cands[j].id.version, cands[i].id.version)
    &&& forall|j: int|
        i < j < cands.len() && spec_candidate_ok(s, toolchain, #[trigger] cands[j])
            ==> spec_version_lt(cands[j].id.version, cands[i].id.version)
}

fn candidate_ok(s: &PackageSpec, toolchain: &Option<Version>, c: &Summary) -> (r: bool)
    ensures
        r == spec_candidate_ok(*s, *toolchain, *c),
{
    if !s.matches(&c.id) {
        return false;
    }
    match (toolchain, &c.msrv) {
        (Some(t), Some(m)) => msrv_admits(m, t),
        _ => true,
    }
}

/// Picks the package version to report.
///
/// With the pin in force the pinned identity is returned as it stands;
/// the candidate set is never consulted, so a workspace-anchored result
/// stays stable whatever the registry index holds.  Otherwise the
/// admissible candidates are those matching the specifier (and, when a
/// toolchain version is given, those compatible with it); the one of
/// maximal version rank wins, the last such candidate on a tie of rank.
/// When nothing is admissible the result names the specifier and the
/// resolved source.
pub fn select_version(
    s: &PackageSpec,
    use_pin: bool,
    pin: &Option<PackageId>,
    candidates: &Vec<Summary>,
    toolchain: &Option<Version>,
    source: &SourceId,
) -> (r: Result<PackageId, InfoError>)
    requires
        use_pin ==> pin is Some,
    ensures
        ({
            match r {
                Ok(id) => {
                    if use_pin {
                        id == pin->0
                    } else {
                        exists|i: int|
                            spec_selected_at(*s, *toolchain, candidates@, i) && id
                                == candidates@[i].id
                    }
                },
                Err(e) => {
                    &&& !use_pin
                    &&& forall|j: int|
                        0 <= j < candidates@.len() ==> !spec_candidate_ok(
                            *s,
                            *toolchain,
                            #[trigger] candidates@[j],
                        )
                    &&& e matches InfoError::NotFound { name, req, source: src } && name@
                        == s.name@ && req == s.req && src == *source
                },
            }
        }),
{
    if use_pin {
        if let Some(p) = pin {
            return Ok(p.duplicate());
        }
    }
    let n = candidates.len();
    let mut best: usize = 0;
    let mut found = false;
    let mut j: usize = 0;
    while j < n
        invariant
            n == candidates@.len(),
            j <= n,
            found ==> spec_selected_at(*s, *toolchain, candidates@.take(j as int), best as int),
            found ==> best < j,
            !found ==> forall|t: int|
                0 <= t < j ==> !spec_candidate_ok(*s, *toolchain, #[trigger] candidates@[t]),
        decreases n - j,
    {
        proof {
            assert(forall|t: int|
                0 <= t < j ==> candidates@.take(j as int)[t] == #[trigger] candidates@[t]);
            assert(forall|t: int|
                0 <= t < j + 1 ==> candidates@.take(j + 1)[t] == #[trigger] candidates@[t]);
        }
        let c = &candidates[j];
        if candidate_ok(s, toolchain, c) {
            if !found {
                best = j;
                found = true;
            } else if version_le(&candidates[best].id.version, &c.id.version) {
                best = j;
            }
        }
        j += 1;
    }
    proof {
        assert(candidates@.take(n as int) =~= candidates@);
    }
    if found {
        Ok(candidates[best].id.duplicate())
    } else {
        let req = match &s.req {
            Some(r) => Some(r.duplicate()),
            None => None,
        };
        Err(InfoError::NotFound { name: s.name.clone(), req, source: source.duplicate() })
    }
}

/// Selection is deterministic: at most one position satisfies the
/// selection characterization, so any two successful selections over the
/// same inputs return the same candidate.
pub proof fn lemma_selection_deterministic(
    s: PackageSpec,
    toolchain: Option<Version>,
    cands: Seq<Summary>,
    i1: int,
    i2: int,
)
    requires
        spec_selected_at(s, toolchain, cands, i1),
        spec_selected_at(s, toolchain, cands, i2),
    ensures
        i1 == i2,
{
    if i1 < i2 {
        assert(spec_version_lt(cands[i2].id.version, cands[i1].id.version));
        assert(spec_version_le(cands[i1].id.version, cands[i2].id.version));
    }
    if i2 < i1 {
        assert(spec_version_lt(cands[i1].id.version, cands[i2].id.version));
        assert(spec_version_le(cands[i2].id.version, cands[i1].id.version));
    }
}

/// The workspace-pinned package for a specifier: among the identities the
/// workspace resolves, the one matching the specifier with maximal
/// version rank, the last such on a tie of rank.
pub open spec fn spec_pin_at(s: PackageSpec, ids: Seq<PackageId>, i: int) -> bool {
    &&& 0 <= i < ids.len()
    &&& spec_matches(s, ids[i])
    &&& forall|j: int|
        0 <= j < ids.len() && spec_matches(s, #[trigger] ids[j]) ==> spec_version_le(
            ids[j].version,
            ids[i].version,
        )
    &&& forall|j: int|
        i < j < ids.len() && spec_matches(s, #[trigger] ids[j]) ==> spec_version_lt(
            ids[j].version,
            ids[i].version,
        )
}

/// Finds the workspace-pinned package for the specifier among the
/// identities the workspace resolves, if any matches.
pub fn pick_pin(s: &PackageSpec, ids: &Vec<PackageId>) -> (r: Option<PackageId>)
    ensures
        ({
            match r {
                Some(id) => exists|i: int| spec_pin_at(*s, ids@, i) && id == ids@[i],
                None => forall|j: int|
                    0 <= j < ids@.len() ==> !spec_matches(*s, #[trigger] ids@[j]),
            }
        }),
{
    let n = ids.len();
    let mut best: usize = 0;
    let mut found = false;
    let mut j: usize = 0;
    while j < n
        invariant
            n == ids@.len(),
            j <= n,
            found ==> spec_pin_at(*s, ids@.take(j as int), best as int),
            found ==> best < j,
            !found ==> forall|t: int| 0 <= t < j ==> !spec_matches(*s, #[trigger] ids@[t]),
        decreases n - j,
    {
        proof {
            assert(forall|t: int| 0 <= t < j ==> ids@.take(j as int)[t] == #[trigger] ids@[t]);
            assert(forall|t: int| 0 <= t < j + 1 ==> ids@.take(j + 1)[t] == #[trigger] ids@[t]);
        }
        let c = &ids[j];
        if s.matches(c) {
            if !found {
                best = j;
                found = true;
            } else if version_le(&ids[best].version, &c.version) {
                best = j;
            }
        }
        j += 1;
    }
    proof {
        assert(ids@.take(n as int) =~= ids@);
    }
    if found {
        Some(ids[best].duplicate())
    } else {
        None
    }
}

} // verus!
