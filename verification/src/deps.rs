//! Dependency classification: a mandatory dependency counts as enabled by
//! the user; an optional one is enabled exactly when some feature that is
//! not disabled records an activation event for it; the rest stay
//! disabled.  Development dependencies are excluded from classification.

use vstd::prelude::*;

use crate::features::{FeatureGraph, FeatureStatus, RawFeature, dep_events, name_views};
use crate::package::{DepKind, Dependency};

verus! {

/// Whether some feature that ended other than disabled activates the
/// dependency of this name, directly or through a weak reference.
pub open spec fn spec_dep_activated(
    g: FeatureGraph,
    st: Seq<FeatureStatus>,
    dep: Seq<char>,
) -> bool {
    exists|i: int, k: int|
        {
            &&& 0 <= i < st.len()
            &&& st[i] != FeatureStatus::Disabled
            &&& 0 <= k < g.dep_ref_view()[i].len()
            &&& #[trigger] g.dep_ref_view()[i][k] == dep
        }
}

/// The display status of one dependency.
pub open spec fn spec_dep_status(
    d: Dependency,
    g: FeatureGraph,
    st: Seq<FeatureStatus>,
) -> FeatureStatus {
    if !d.optional {
        FeatureStatus::EnabledByUser
    } else if spec_dep_activated(g, st, d.name@) {
        FeatureStatus::Enabled
    } else {
        FeatureStatus::Disabled
    }
}

pub fn dep_status(d: &Dependency, g: &FeatureGraph, st: &Vec<FeatureStatus>) -> (r: FeatureStatus)
    requires
        g.wf(),
        st@.len() == g.feature_count(),
    ensures
        r == spec_dep_status(*d, *g, st@),
{
    if !d.optional {
        return FeatureStatus::EnabledByUser;
    }
    let n = st.len();
    let mut i: usize = 0;
    while i < n
        invariant
            g.wf(),
            d.optional,
            st@.len() == g.feature_count(),
            n == st@.len(),
            i <= n,
            forall|t: int, k: int|
                0 <= t < i && st@[t] != FeatureStatus::Disabled && 0 <= k
                    < g.dep_ref_view()[t].len() ==> #[trigger] g.dep_ref_view()[t][k] != d.name@,
        decreases n - i,
    {
        if !st[i].is_disabled() {
            let refs = &g.dep_refs[i];
            let m = refs.len();
            let mut k: usize = 0;
            while k < m
                invariant
                    g.wf(),
                    d.optional,
                    st@.len() == g.feature_count(),
                    n == st@.len(),
                    i < n,
                    refs@ == g.dep_refs@[i as int]@,
                    m == refs@.len(),
                    k <= m,
                    st@[i as int] != FeatureStatus::Disabled,
                    forall|t: int| 0 <= t < k ==> #[trigger] g.dep_ref_view()[i as int][t]
                        != d.name@,
                decreases m - k,
            {
                proof {
                    assert(g.dep_ref_view()[i as int][k as int] == refs@[k as int]@);
                }
                if refs[k] == d.name {
                    proof {
                        assert(g.dep_ref_view()[i as int] == name_views(g.dep_refs@[i as int]@));
                        assert(g.dep_ref_view()[i as int].len() == refs@.len());
                        assert(g.dep_ref_view()[i as int][k as int] == d.name@);
                        assert(spec_dep_activated(*g, st@, d.name@));
                    }
                    return FeatureStatus::Enabled;
                }
                k += 1;
            }
        }
        i += 1;
    }
    FeatureStatus::Disabled
}

/// The display statuses of a dependency list, in list order.
pub fn classify_deps(deps: &Vec<Dependency>, g: &FeatureGraph, st: &Vec<FeatureStatus>) -> (r: Vec<
    FeatureStatus,
>)
    requires
        g.wf(),
        st@.len() == g.feature_count(),
    ensures
        r@.len() == deps@.len(),
        forall|i: int| 0 <= i < deps@.len() ==> (#[trigger] r@[i]) == spec_dep_status(
            deps@[i],
            *g,
            st@,
        ),
{
    let n = deps.len();
    let mut out: Vec<FeatureStatus> = Vec::new();
    let mut i: usize = 0;
    while i < n
        invariant
            g.wf(),
            st@.len() == g.feature_count(),
            n == deps@.len(),
            i <= n,
            out@.len() == i,
            forall|t: int| 0 <= t < i ==> (#[trigger] out@[t]) == spec_dep_status(
                deps@[t],
                *g,
                st@,
            ),
        decreases n - i,
    {
        let s = dep_status(&deps[i], g, st);
        out.push(s);
        i += 1;
    }
    out
}

/// Whether some feature ending other than disabled activates the
/// dependency of this name, stated over the declared map itself.
pub open spec fn spec_dep_activated_in(
    features: Seq<RawFeature>,
    st: Seq<FeatureStatus>,
    dep: Seq<char>,
) -> bool {
    exists|i: int, k: int|
        {
            &&& 0 <= i < st.len()
            &&& st[i] != FeatureStatus::Disabled
            &&& 0 <= k < dep_events(features[i].tokens@).len()
            &&& #[trigger] dep_events(features[i].tokens@)[k] == dep
        }
}

/// The display status of one dependency, stated over the declared map.
pub open spec fn spec_dep_status_in(
    features: Seq<RawFeature>,
    st: Seq<FeatureStatus>,
    d: Dependency,
) -> FeatureStatus {
    if !d.optional {
        FeatureStatus::EnabledByUser
    } else if spec_dep_activated_in(features, st, d.name@) {
        FeatureStatus::Enabled
    } else {
        FeatureStatus::Disabled
    }
}

/// The display statuses of a dependency list under the declared map.
pub open spec fn spec_dep_statuses(
    deps: Seq<Dependency>,
    features: Seq<RawFeature>,
    st: Seq<FeatureStatus>,
) -> Seq<FeatureStatus> {
    Seq::new(deps.len(), |i: int| spec_dep_status_in(features, st, deps[i]))
}

/// Classification through the interned graph agrees with classification
/// stated over the declared map.
pub proof fn lemma_classification_agrees(
    g: FeatureGraph,
    features: Seq<RawFeature>,
    st: Seq<FeatureStatus>,
    d: Dependency,
)
    requires
        g.dep_ref_view().len() == features.len(),
        st.len() == features.len(),
        forall|i: int| 0 <= i < features.len() ==> g.dep_ref_view()[i] == dep_events(
            (#[trigger] features[i]).tokens@,
        ),
    ensures
        spec_dep_status(d, g, st) == spec_dep_status_in(features, st, d),
{
    if d.optional {
        if spec_dep_activated(g, st, d.name@) {
            let (i, k) = choose|i: int, k: int|
                {
                    &&& 0 <= i < st.len()
                    &&& st[i] != FeatureStatus::Disabled
                    &&& 0 <= k < g.dep_ref_view()[i].len()
                    &&& #[trigger] g.dep_ref_view()[i][k] == d.name@
                };
            assert(dep_events(features[i].tokens@)[k] == d.name@);
            assert(spec_dep_activated_in(features, st, d.name@));
        }
        if spec_dep_activated_in(features, st, d.name@) {
            let (i, k) = choose|i: int, k: int|
                {
                    &&& 0 <= i < st.len()
                    &&& st[i] != FeatureStatus::Disabled
                    &&& 0 <= k < dep_events(features[i].tokens@).len()
                    &&& #[trigger] dep_events(features[i].tokens@)[k] == d.name@
                };
            assert(g.dep_ref_view()[i][k] == d.name@);
            assert(spec_dep_activated(g, st, d.name@));
        }
    }
}

/// The positions of the dependencies of one kind, in declaration order.
pub open spec fn spec_kind_positions(deps: Seq<Dependency>, kind: DepKind) -> Seq<usize>
    decreases deps.len(),
{
    if deps.len() == 0 {
        Seq::empty()
    } else {
        let rest = spec_kind_positions(deps.drop_last(), kind);
        if deps.last().kind == kind {
            rest.push((deps.len() - 1) as usize)
        } else {
            rest
        }
    }
}

/// The positions of one kind are in bounds and strictly increasing, so
/// they are distinct.
pub proof fn lemma_kind_positions_increasing(deps: Seq<Dependency>, kind: DepKind)
    requires
        deps.len() <= usize::MAX,
    ensures
        forall|t: int|
            0 <= t < spec_kind_positions(deps, kind).len() ==> (#[trigger] spec_kind_positions(
                deps,
                kind,
            )[t]) < deps.len(),
        forall|t1: int, t2: int|
            0 <= t1 < t2 < spec_kind_positions(deps, kind).len() ==> spec_kind_positions(
                deps,
                kind,
            )[t1] < spec_kind_positions(deps, kind)[t2],
    decreases deps.len(),
{
    if deps.len() > 0 {
        lemma_kind_positions_increasing(deps.drop_last(), kind);
        let rest = spec_kind_positions(deps.drop_last(), kind);
        let full = spec_kind_positions(deps, kind);
        if deps.last().kind == kind {
            assert(full == rest.push((deps.len() - 1) as usize));
            assert forall|t: int| 0 <= t < full.len() implies (#[trigger] full[t])
                < deps.len() by {
                if t < rest.len() {
                    assert(full[t] == rest[t]);
                    assert(rest[t] < deps.drop_last().len());
                }
            }
            assert forall|t1: int, t2: int| 0 <= t1 < t2 < full.len() implies full[t1]
                < full[t2] by {
                assert(full[t1] == rest[t1]);
                if t2 < rest.len() {
                    assert(full[t2] == rest[t2]);
                } else {
                    assert(rest[t1] < deps.drop_last().len());
                }
            }
        } else {
            assert(full == rest);
            assert forall|t: int| 0 <= t < full.len() implies (#[trigger] full[t])
                < deps.len() by {
                assert(rest[t] < deps.drop_last().len());
            }
        }
    }
}

pub fn positions_of_kind(deps: &Vec<Dependency>, kind: DepKind) -> (r: Vec<usize>)
    ensures
        r@ == spec_kind_positions(deps@, kind),
        forall|t: int| 0 <= t < r@.len() ==> (#[trigger] r@[t]) < deps@.len(),
{
    let n = deps.len();
    let mut out: Vec<usize> = Vec::new();
    let mut i: usize = 0;
    while i < n
        invariant
            n == deps@.len(),
            i <= n,
            out@ == spec_kind_positions(deps@.take(i as int), kind),
            forall|t: int| 0 <= t < out@.len() ==> (#[trigger] out@[t]) < i,
        decreases n - i,
    {
        proof {
            assert(deps@.take(i + 1).drop_last() =~= deps@.take(i as int));
            assert(deps@.take(i + 1).last() == deps@[i as int]);
        }
        let d = &deps[i];
        if d.kind == kind {
            out.push(i);
        }
        i += 1;
    }
    proof {
        assert(deps@.take(n as int) =~= deps@);
    }
    out
}

} // verus!
