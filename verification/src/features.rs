//! Feature activation.  A package declares a map from feature names to
//! lists of activation tokens; activating a root set of features enables
//! every feature reachable through same-package feature tokens.  Dependency
//! tokens are not traversed as graph nodes: they are recorded as activation
//! events and consumed by the dependency classification.
//!
//! Feature names are interned into indices once, and the traversal works an
//! explicit worklist over an adjacency list, so that no feature is ever
//! revisited and the work is bounded by features plus edges even on cyclic
//! maps.

use vstd::prelude::*;
use vstd::string::StringExecFns;

verus! {

/// Activation status of a feature or a dependency, in display order:
/// root-activated or mandatory first, transitively reached second,
/// unreached last.
#[derive(Clone, Copy, Debug, PartialEq, Eq, Structural)]
pub enum FeatureStatus {
    EnabledByUser,
    Enabled,
    Disabled,
}

impl FeatureStatus {
    pub open spec fn spec_is_disabled(self) -> bool {
        self is Disabled
    }

    pub fn is_disabled(&self) -> (r: bool)
        ensures
            r == self.spec_is_disabled(),
    {
        *self == FeatureStatus::Disabled
    }

    /// Position of the status in the display order.
    pub open spec fn spec_rank(self) -> u8 {
        match self {
            FeatureStatus::EnabledByUser => 0,
            FeatureStatus::Enabled => 1,
            FeatureStatus::Disabled => 2,
        }
    }

    pub fn rank(&self) -> (r: u8)
        ensures
            r == self.spec_rank(),
    {
        match self {
            FeatureStatus::EnabledByUser => 0,
            FeatureStatus::Enabled => 1,
            FeatureStatus::Disabled => 2,
        }
    }
}

/// One entry of a feature's activation list.
#[derive(Clone, Debug)]
pub enum ActivationToken {
    /// Another feature of the same package.
    Feature { name: String },
    /// Unconditional activation of an optional dependency.
    Dependency { dep: String },
    /// A feature of a dependency.  When `weak`, the token activates the
    /// dependency's feature only if the dependency is already enabled by
    /// some other means, and does not itself turn the dependency on.
    DepFeature { dep: String, feature: String, weak: bool },
}

/// A declared feature: its name and its activation list, in declaration
/// order.
#[derive(Clone, Debug)]
pub struct RawFeature {
    pub name: String,
    pub tokens: Vec<ActivationToken>,
}

/// The views of a list of interned names.
pub open spec fn name_views(names: Seq<String>) -> Seq<Seq<char>> {
    names.map_values(|s: String| s@)
}

/// Index of the first occurrence of `name` in `names`, or -1 when absent.
pub open spec fn first_index_of(names: Seq<Seq<char>>, name: Seq<char>) -> int
    decreases names.len(),
{
    if names.len() == 0 {
        -1
    } else if names[0] == name {
        0
    } else {
        let r = first_index_of(names.drop_first(), name);
        if r == -1 {
            -1
        } else {
            r + 1
        }
    }
}

pub proof fn lemma_first_index_of(names: Seq<Seq<char>>, name: Seq<char>)
    ensures
        first_index_of(names, name) == -1 ==> forall|j: int|
            0 <= j < names.len() ==> names[j] != name,
        first_index_of(names, name) != -1 ==> {
            let r = first_index_of(names, name);
            &&& 0 <= r < names.len()
            &&& names[r] == name
            &&& forall|j: int| 0 <= j < r ==> names[j] != name
        },
    decreases names.len(),
{
    if names.len() != 0 && names[0] != name {
        let r = first_index_of(names, name);
        let rest = names.drop_first();
        let rr = first_index_of(rest, name);
        lemma_first_index_of(rest, name);
        if rr == -1 {
            assert forall|j: int| 0 <= j < names.len() implies names[j] != name by {
                if j > 0 {
                    assert(rest[j - 1] == names[j]);
                }
            }
        } else {
            assert(names[rr + 1] == rest[rr]);
            assert forall|j: int| 0 <= j < r implies names[j] != name by {
                if j > 0 {
                    assert(rest[j - 1] == names[j]);
                }
            }
        }
    }
}

/// The feature-to-feature edges induced by an activation list: each token
/// that names a declared feature of the same package contributes the index
/// of that feature, in token order; other tokens contribute nothing.
pub open spec fn feature_edges(names: Seq<Seq<char>>, tokens: Seq<ActivationToken>) -> Seq<usize>
    decreases tokens.len(),
{
    if tokens.len() == 0 {
        Seq::empty()
    } else {
        let rest = feature_edges(names, tokens.drop_last());
        match tokens.last() {
            ActivationToken::Feature { name } => {
                let r = first_index_of(names, name@);
                if r == -1 {
                    rest
                } else {
                    rest.push(r as usize)
                }
            },
            _ => rest,
        }
    }
}

/// The dependency-activation events of an activation list: the dependency
/// names the list reports as activated, in token order.  An unconditional
/// dependency token and a weak dependency-feature token each record their
/// dependency; a plain dependency-feature token records nothing here.
pub open spec fn dep_events(tokens: Seq<ActivationToken>) -> Seq<Seq<char>>
    decreases tokens.len(),
{
    if tokens.len() == 0 {
        Seq::empty()
    } else {
        let rest = dep_events(tokens.drop_last());
        match tokens.last() {
            ActivationToken::Dependency { dep } => rest.push(dep@),
            ActivationToken::DepFeature { dep, feature, weak } => {
                if weak {
                    rest.push(dep@)
                } else {
                    rest
                }
            },
            ActivationToken::Feature { name } => rest,
        }
    }
}

/// The feature activation graph of one package: feature names interned to
/// indices, same-package activation edges as an adjacency list, and the
/// dependency names each feature activates.
pub struct FeatureGraph {
    pub names: Vec<String>,
    pub edges: Vec<Vec<usize>>,
    pub dep_refs: Vec<Vec<String>>,
}

impl FeatureGraph {
    pub open spec fn wf(self) -> bool {
        &&& self.edges@.len() == self.names@.len()
        &&& self.dep_refs@.len() == self.names@.len()
        &&& forall|i: int, k: int|
            0 <= i < self.edges@.len() && 0 <= k < self.edges@[i]@.len()
                ==> (#[trigger] self.edges@[i]@[k]) < self.names@.len()
    }

    pub open spec fn feature_count(self) -> nat {
        self.names@.len()
    }

    pub open spec fn edge_view(self) -> Seq<Seq<usize>> {
        self.edges@.map_values(|v: Vec<usize>| v@)
    }

    pub open spec fn dep_ref_view(self) -> Seq<Seq<Seq<char>>> {
        self.dep_refs@.map_values(|v: Vec<String>| name_views(v@))
    }
}

fn find_name(names: &Vec<String>, target: &String) -> (r: Option<usize>)
    ensures
        ({
            let idx = first_index_of(name_views(names@), target@);
            match r {
                Some(i) => idx == i,
                None => idx == -1,
            }
        }),
{
    let n = names.len();
    let mut j: usize = 0;
    while j < n
        invariant
            n == names@.len(),
            j <= n,
            forall|t: int| 0 <= t < j ==> name_views(names@)[t] != target@,
        decreases n - j,
    {
        if names[j] == *target {
            proof {
                lemma_first_index_of(name_views(names@), target@);
                assert(name_views(names@)[j as int] == names@[j as int]@);
            }
            return Some(j);
        }
        j += 1;
    }
    proof {
        lemma_first_index_of(name_views(names@), target@);
    }
    None
}

impl FeatureGraph {
    /// Interns a declared feature map.  The graph keeps the declaration
    /// order: feature `i` of the result is declaration `i` of the input.
    pub fn new(features: &Vec<RawFeature>) -> (g: FeatureGraph)
        ensures
            g.wf(),
            g.names@.len() == features@.len(),
            forall|i: int| 0 <= i < features@.len()
                ==> name_views(g.names@)[i] == (#[trigger] features@[i]).name@,
            forall|i: int| 0 <= i < features@.len()
                ==> g.edge_view()[i] == feature_edges(
                    name_views(g.names@),
                    (#[trigger] features@[i]).tokens@,
                ),
            forall|i: int| 0 <= i < features@.len()
                ==> g.dep_ref_view()[i] == dep_events((#[trigger] features@[i]).tokens@),
    {
        let n = features.len();
        let mut names: Vec<String> = Vec::new();
        let mut i: usize = 0;
        while i < n
            invariant
                n == features@.len(),
                i <= n,
                names@.len() == i,
                forall|t: int| 0 <= t < i
                    ==> name_views(names@)[t] == (#[trigger] features@[t]).name@,
            decreases n - i,
        {
            names.push(features[i].name.clone());
            i += 1;
        }

        let mut edges: Vec<Vec<usize>> = Vec::new();
        let mut dep_refs: Vec<Vec<String>> = Vec::new();
        let mut i: usize = 0;
        while i < n
            invariant
                n == features@.len(),
                i <= n,
                names@.len() == n,
                forall|t: int| 0 <= t < n
                    ==> name_views(names@)[t] == (#[trigger] features@[t]).name@,
                edges@.len() == i,
                dep_refs@.len() == i,
                forall|t: int, k: int|
                    0 <= t < i && 0 <= k < edges@[t]@.len()
                        ==> (#[trigger] edges@[t]@[k]) < n,
                forall|t: int| 0 <= t < i
                    ==> (#[trigger] edges@[t])@ == feature_edges(
                        name_views(names@),
                        features@[t].tokens@,
                    ),
                forall|t: int| 0 <= t < i
                    ==> name_views((#[trigger] dep_refs@[t])@) == dep_events(features@[t].tokens@),
            decreases n - i,
        {
            let toks = &features[i].tokens;
            let m = toks.len();
            let mut row: Vec<usize> = Vec::new();
            let mut refs: Vec<String> = Vec::new();
            let mut k: usize = 0;
            while k < m
                invariant
                    n == features@.len(),
                    i < n,
                    names@.len() == n,
                    m == toks@.len(),
                    toks@ == features@[i as int].tokens@,
                    k <= m,
                    forall|q: int| 0 <= q < row@.len() ==> (#[trigger] row@[q]) < n,
                    row@ == feature_edges(name_views(names@), toks@.take(k as int)),
                    name_views(refs@) == dep_events(toks@.take(k as int)),
                decreases m - k,
            {
                proof {
                    assert(toks@.take(k + 1).drop_last() =~= toks@.take(k as int));
                    assert(toks@.take(k + 1).last() == toks@[k as int]);
                }
                match &toks[k] {
                    ActivationToken::Feature { name } => {
                        proof {
                            lemma_first_index_of(name_views(names@), name@);
                        }
                        if let Some(j) = find_name(&names, name) {
                            row.push(j);
                        }
                    },
                    ActivationToken::Dependency { dep } => {
                        refs.push(dep.clone());
                        proof {
                            assert(name_views(refs@) =~= name_views(refs@.drop_last()).push(
                                dep@,
                            ));
                        }
                    },
                    ActivationToken::DepFeature { dep, feature, weak } => {
                        if *weak {
                            refs.push(dep.clone());
                            proof {
                                assert(name_views(refs@) =~= name_views(refs@.drop_last()).push(
                                    dep@,
                                ));
                            }
                        }
                    },
                }
                k += 1;
            }
            proof {
                assert(toks@.take(m as int) =~= toks@);
            }
            edges.push(row);
            dep_refs.push(refs);
            i += 1;
        }
        let g = FeatureGraph { names, edges, dep_refs };
        proof {
            assert forall|i: int| 0 <= i < features@.len() implies g.edge_view()[i]
                == feature_edges(name_views(g.names@), (#[trigger] features@[i]).tokens@) by {
                assert(g.edge_view()[i] == g.edges@[i]@);
            }
            assert forall|i: int| 0 <= i < features@.len() implies g.dep_ref_view()[i]
                == dep_events((#[trigger] features@[i]).tokens@) by {
                assert(g.dep_ref_view()[i] == name_views(g.dep_refs@[i]@));
            }
        }
        g
    }
}

/// A walk through the activation edges: every step follows an edge of the
/// adjacency list, and every node is in bounds.
pub open spec fn path_ok(edges: Seq<Seq<usize>>, p: Seq<usize>) -> bool {
    &&& forall|k: int| 0 <= k < p.len() ==> (#[trigger] p[k]) < edges.len()
    &&& forall|k: int| 0 <= k < p.len() - 1 ==> edges[(#[trigger] p[k]) as int].contains(p[k + 1])
}

/// Whether feature `i` is activated from the root set: some walk starts at
/// a root and ends at `i`.
pub open spec fn reaches(edges: Seq<Seq<usize>>, roots: Seq<usize>, i: usize) -> bool {
    exists|p: Seq<usize>|
        {
            &&& p.len() > 0
            &&& roots.contains(p[0])
            &&& #[trigger] path_ok(edges, p)
            &&& p.last() == i
        }
}

/// The activation status every feature must end with: a root is enabled by
/// the user, anything else reached from a root is enabled, the rest stays
/// disabled.
pub open spec fn spec_status(edges: Seq<Seq<usize>>, roots: Seq<usize>, i: usize) -> FeatureStatus {
    if roots.contains(i) {
        FeatureStatus::EnabledByUser
    } else if reaches(edges, roots, i) {
        FeatureStatus::Enabled
    } else {
        FeatureStatus::Disabled
    }
}

proof fn lemma_reach_root(edges: Seq<Seq<usize>>, roots: Seq<usize>, i: usize)
    requires
        roots.contains(i),
        i < edges.len(),
    ensures
        reaches(edges, roots, i),
{
    let p = seq![i];
    assert(path_ok(edges, p));
    assert(p.last() == i);
}

proof fn lemma_reach_step(edges: Seq<Seq<usize>>, roots: Seq<usize>, u: usize, v: usize)
    requires
        reaches(edges, roots, u),
        u < edges.len(),
        v < edges.len(),
        edges[u as int].contains(v),
    ensures
        reaches(edges, roots, v),
{
    let p = choose|p: Seq<usize>|
        {
            &&& p.len() > 0
            &&& roots.contains(p[0])
            &&& #[trigger] path_ok(edges, p)
            &&& p.last() == u
        };
    let q = p.push(v);
    assert forall|k: int| 0 <= k < q.len() - 1 implies edges[(#[trigger] q[k]) as int].contains(
        q[k + 1],
    ) by {
        if k < p.len() - 1 {
            assert(q[k] == p[k]);
            assert(q[k + 1] == p[k + 1]);
        } else {
            assert(q[k] == p.last());
            assert(q[k + 1] == v);
        }
    }
    assert(path_ok(edges, q));
    assert(q[0] == p[0]);
    assert(q.last() == v);
}

/// Any status assignment that covers the roots and is closed under the
/// activation edges covers everything a walk from the roots can end at.
proof fn lemma_closed_covers(
    edges: Seq<Seq<usize>>,
    roots: Seq<usize>,
    st: Seq<FeatureStatus>,
    p: Seq<usize>,
)
    requires
        st.len() == edges.len(),
        forall|r: usize| roots.contains(r) && r < edges.len() ==> st[r as int]
            != FeatureStatus::Disabled,
        forall|i: int, k: int|
            0 <= i < edges.len() && st[i] != FeatureStatus::Disabled && 0 <= k < edges[i].len()
                ==> st[(#[trigger] edges[i][k]) as int] != FeatureStatus::Disabled,
        p.len() > 0,
        roots.contains(p[0]),
        path_ok(edges, p),
    ensures
        st[p.last() as int] != FeatureStatus::Disabled,
    decreases p.len(),
{
    if p.len() == 1 {
        assert(p.last() == p[0]);
    } else {
        let q = p.drop_last();
        assert(q[0] == p[0]);
        assert forall|k: int| 0 <= k < q.len() implies (#[trigger] q[k]) < edges.len() by {
            assert(q[k] == p[k]);
        }
        assert forall|k: int| 0 <= k < q.len() - 1 implies edges[(#[trigger] q[k]) as int].contains(
            q[k + 1],
        ) by {
            assert(q[k] == p[k]);
            assert(q[k + 1] == p[k + 1]);
        }
        lemma_closed_covers(edges, roots, st, q);
        let u = p[p.len() - 2];
        let v = p.last();
        assert(q.last() == u);
        assert(edges[u as int].contains(v));
        let k = choose|k: int| 0 <= k < edges[u as int].len() && edges[u as int][k] == v;
        assert(st[(edges[u as int][k]) as int] != FeatureStatus::Disabled);
    }
}

/// Number of entries still disabled; the traversal's termination measure.
pub open spec fn count_disabled(st: Seq<FeatureStatus>) -> nat
    decreases st.len(),
{
    if st.len() == 0 {
        0
    } else {
        count_disabled(st.drop_last()) + if st.last() is Disabled {
            1nat
        } else {
            0nat
        }
    }
}

pub proof fn lemma_count_disabled_le_len(st: Seq<FeatureStatus>)
    ensures
        count_disabled(st) <= st.len(),
    decreases st.len(),
{
    if st.len() > 0 {
        lemma_count_disabled_le_len(st.drop_last());
    }
}

/// Counts the disabled entries of a status list.
pub fn count_disabled_exec(st: &Vec<FeatureStatus>) -> (r: usize)
    ensures
        r == count_disabled(st@),
{
    proof {
        lemma_count_disabled_le_len(st@);
    }
    let n = st.len();
    let mut r: usize = 0;
    let mut i: usize = 0;
    while i < n
        invariant
            n == st@.len(),
            i <= n,
            r == count_disabled(st@.take(i as int)),
            r <= i,
        decreases n - i,
    {
        proof {
            assert(st@.take(i + 1).drop_last() =~= st@.take(i as int));
            assert(st@.take(i + 1).last() == st@[i as int]);
        }
        if st[i].is_disabled() {
            r += 1;
        }
        i += 1;
    }
    proof {
        assert(st@.take(n as int) =~= st@);
    }
    r
}

proof fn lemma_count_disabled_set(st: Seq<FeatureStatus>, i: int, v: FeatureStatus)
    requires
        0 <= i < st.len(),
        st[i] is Disabled,
        !(v is Disabled),
    ensures
        count_disabled(st.update(i, v)) + 1 == count_disabled(st),
    decreases st.len(),
{
    let upd = st.update(i, v);
    if i == st.len() - 1 {
        assert(upd.drop_last() =~= st.drop_last());
        assert(upd.last() == v);
    } else {
        assert(upd.drop_last() =~= st.drop_last().update(i, v));
        assert(upd.last() == st.last());
        lemma_count_disabled_set(st.drop_last(), i, v);
    }
}

impl FeatureGraph {
    /// Computes the activation status of every feature from the given root
    /// set.  The worklist never revisits a feature: an index enters the
    /// list only on its single move out of `Disabled`, so the loop does at
    /// most one unit of work per feature plus one per edge, cycles or not.
    pub fn resolve(&self, roots: &Vec<usize>) -> (st: Vec<FeatureStatus>)
        requires
            self.wf(),
            forall|k: int| 0 <= k < roots@.len() ==> (#[trigger] roots@[k]) < self.feature_count(),
        ensures
            st@.len() == self.feature_count(),
            forall|i: int| 0 <= i < st@.len() ==> (#[trigger] st@[i]) == spec_status(
                self.edge_view(),
                roots@,
                i as usize,
            ),
    {
        let ghost edges = self.edge_view();
        let ghost rootsv = roots@;
        let n = self.names.len();
        let mut st: Vec<FeatureStatus> = Vec::new();
        while st.len() < n
            invariant
                st@.len() <= n,
                forall|i: int| 0 <= i < st@.len() ==> (#[trigger] st@[i]) is Disabled,
            decreases n - st@.len(),
        {
            st.push(FeatureStatus::Disabled);
        }

        let mut queue: Vec<usize> = Vec::new();
        let mut ri: usize = 0;
        while ri < roots.len()
            invariant
                self.wf(),
                edges == self.edge_view(),
                rootsv == roots@,
                n == self.feature_count(),
                forall|k: int| 0 <= k < rootsv.len() ==> (#[trigger] rootsv[k]) < n,
                ri <= rootsv.len(),
                st@.len() == n,
                queue@ == rootsv.take(ri as int),
                forall|i: int|
                    0 <= i < n ==> ((#[trigger] st@[i]) == FeatureStatus::EnabledByUser
                        <==> rootsv.take(ri as int).contains(i as usize)),
                forall|i: int|
                    0 <= i < n ==> st@[i] == FeatureStatus::EnabledByUser || (#[trigger] st@[i])
                        is Disabled,
            decreases rootsv.len() - ri,
        {
            let r = roots[ri];
            st.set(r, FeatureStatus::EnabledByUser);
            queue.push(r);
            proof {
                assert(rootsv.take(ri + 1).drop_last() =~= rootsv.take(ri as int));
                assert(rootsv.take(ri + 1).last() == rootsv[ri as int]);
                assert forall|i: int|
                    0 <= i < n && (#[trigger] st@[i]) == FeatureStatus::EnabledByUser implies rootsv
                    .take(ri + 1).contains(i as usize) by {
                    if i == r {
                        assert(rootsv.take(ri + 1)[ri as int] == r);
                    } else {
                        assert(rootsv.take(ri as int).contains(i as usize));
                        let w = choose|w: int|
                            0 <= w < ri && rootsv.take(ri as int)[w] == i as usize;
                        assert(rootsv.take(ri + 1)[w] == i as usize);
                    }
                }
            }
            ri += 1;
        }

        proof {
            assert(rootsv.take(rootsv.len() as int) =~= rootsv);
            assert(edges.len() == n);
            assert forall|i: int|
                0 <= i < n && (#[trigger] st@[i]) != FeatureStatus::Disabled implies reaches(
                edges,
                rootsv,
                i as usize,
            ) by {
                lemma_reach_root(edges, rootsv, i as usize);
            }
        }

        while queue.len() > 0
            invariant
                self.wf(),
                edges == self.edge_view(),
                rootsv == roots@,
                n == self.feature_count(),
                forall|k: int| 0 <= k < rootsv.len() ==> (#[trigger] rootsv[k]) < n,
                st@.len() == n,
                forall|i: int|
                    0 <= i < n ==> ((#[trigger] st@[i]) == FeatureStatus::EnabledByUser
                        <==> rootsv.contains(i as usize)),
                forall|i: int|
                    0 <= i < n && (#[trigger] st@[i]) != FeatureStatus::Disabled ==> reaches(
                        edges,
                        rootsv,
                        i as usize,
                    ),
                forall|k: int|
                    0 <= k < queue@.len() ==> (#[trigger] queue@[k]) < n && st@[queue@[k] as int]
                        != FeatureStatus::Disabled,
                forall|i: int, k: int|
                    0 <= i < n && st@[i] != FeatureStatus::Disabled && !queue@.contains(i as usize)
                        && 0 <= k < edges[i].len() ==> st@[(#[trigger] edges[i][k]) as int]
                        != FeatureStatus::Disabled,
            decreases count_disabled(st@) + queue@.len(),
        {
            let ghost st_at_pop = st@;
            let ghost queue_at_pop = queue@;
            if let Some(u) = queue.pop() {
                let ghost phi0 = count_disabled(st@) + queue@.len();
                proof {
                    assert forall|i: int, t: int|
                        0 <= i < n && st@[i] != FeatureStatus::Disabled && i != u as int
                            && !queue@.contains(i as usize) && 0 <= t < edges[i].len() implies st@[(
                    #[trigger] edges[i][t]) as int] != FeatureStatus::Disabled by {
                        assert(!queue_at_pop.contains(i as usize)) by {
                            if queue_at_pop.contains(i as usize) {
                                let w = choose|w: int|
                                    0 <= w < queue_at_pop.len() && queue_at_pop[w] == i as usize;
                                if w < queue_at_pop.len() - 1 {
                                    assert(queue@[w] == i as usize);
                                }
                            }
                        };
                    }
                }
                let row = &self.edges[u];
                let m = row.len();
                let mut k: usize = 0;
                while k < m
                    invariant
                        self.wf(),
                        edges == self.edge_view(),
                        rootsv == roots@,
                        n == self.feature_count(),
                        forall|t: int| 0 <= t < rootsv.len() ==> (#[trigger] rootsv[t]) < n,
                        u < n,
                        row@ == edges[u as int],
                        m == row@.len(),
                        k <= m,
                        st@.len() == n,
                        count_disabled(st@) + queue@.len() <= phi0,
                        st@[u as int] != FeatureStatus::Disabled,
                        forall|i: int|
                            0 <= i < n ==> ((#[trigger] st@[i]) == FeatureStatus::EnabledByUser
                                <==> rootsv.contains(i as usize)),
                        forall|i: int|
                            0 <= i < n && (#[trigger] st@[i]) != FeatureStatus::Disabled
                                ==> reaches(edges, rootsv, i as usize),
                        reaches(edges, rootsv, u),
                        forall|t: int|
                            0 <= t < queue@.len() ==> (#[trigger] queue@[t]) < n
                                && st@[queue@[t] as int] != FeatureStatus::Disabled,
                        forall|t: int| 0 <= t < k ==> st@[(#[trigger] row@[t]) as int]
                            != FeatureStatus::Disabled,
                        forall|i: int, t: int|
                            0 <= i < n && st@[i] != FeatureStatus::Disabled && i != u as int
                                && !queue@.contains(i as usize) && 0 <= t < edges[i].len()
                                ==> st@[(#[trigger] edges[i][t]) as int] != FeatureStatus::Disabled,
                    decreases m - k,
                {
                    let v = row[k];
                    proof {
                        assert(edges[u as int][k as int] == v);
                        assert(v < n);
                    }
                    if st[v].is_disabled() {
                        let ghost st_old = st@;
                        let ghost q_old = queue@;
                        st.set(v, FeatureStatus::Enabled);
                        queue.push(v);
                        proof {
                            lemma_count_disabled_set(st_old, v as int, FeatureStatus::Enabled);
                            lemma_reach_step(edges, rootsv, u, v);
                            assert(queue@[queue@.len() - 1] == v);
                            assert(queue@.contains(v));
                            assert forall|x: usize| q_old.contains(x) implies queue@.contains(
                                x,
                            ) by {
                                let w = choose|w: int| 0 <= w < q_old.len() && q_old[w] == x;
                                assert(queue@[w] == x);
                            }
                        }
                    }
                    k += 1;
                }
            }
        }

        proof {
            assert forall|i: int| 0 <= i < st@.len() implies (#[trigger] st@[i]) == spec_status(
                edges,
                rootsv,
                i as usize,
            ) by {
                if rootsv.contains(i as usize) {
                    assert(st@[i] == FeatureStatus::EnabledByUser);
                } else if reaches(edges, rootsv, i as usize) {
                    let p = choose|p: Seq<usize>|
                        {
                            &&& p.len() > 0
                            &&& rootsv.contains(p[0])
                            &&& #[trigger] path_ok(edges, p)
                            &&& p.last() == i as usize
                        };
                    lemma_closed_covers(edges, rootsv, st@, p);
                    assert(st@[i] != FeatureStatus::Disabled);
                    assert(st@[i] == FeatureStatus::Enabled);
                } else {
                    assert(st@[i] != FeatureStatus::EnabledByUser);
                    assert(st@[i] != FeatureStatus::Enabled);
                }
            }
        }
        st
    }

    /// The root activation set of a declared feature map: the single
    /// feature named `default` when one is declared, else empty.
    pub fn default_root(&self) -> (r: Vec<usize>)
        ensures
            ({
                let idx = first_index_of(name_views(self.names@), "default"@);
                if idx >= 0 {
                    r@ == seq![idx as usize]
                } else {
                    r@ == Seq::<usize>::empty()
                }
            }),
            forall|k: int| 0 <= k < r@.len() ==> (#[trigger] r@[k]) < self.feature_count(),
    {
        let target = String::from_str("default");
        proof {
            lemma_first_index_of(name_views(self.names@), "default"@);
        }
        match find_name(&self.names, &target) {
            Some(i) => {
                let mut v: Vec<usize> = Vec::new();
                v.push(i);
                proof {
                    assert(v@ =~= seq![i]);
                }
                v
            },
            None => Vec::new(),
        }
    }
}

/// The name texts of a declared feature map, in declaration order.
pub open spec fn spec_names_of(features: Seq<RawFeature>) -> Seq<Seq<char>> {
    features.map_values(|f: RawFeature| f.name@)
}

/// The activation edges of a declared feature map.
pub open spec fn spec_edges_of(features: Seq<RawFeature>) -> Seq<Seq<usize>> {
    Seq::new(features.len(), |i: int| feature_edges(spec_names_of(features), features[i].tokens@))
}

/// The default root set of a declared feature map.
pub open spec fn spec_roots_of(features: Seq<RawFeature>) -> Seq<usize> {
    let idx = first_index_of(spec_names_of(features), "default"@);
    if idx >= 0 {
        seq![idx as usize]
    } else {
        Seq::empty()
    }
}

/// The activation status every feature of a declared map ends with when
/// the default root set is activated.
pub open spec fn spec_feature_statuses(features: Seq<RawFeature>) -> Seq<FeatureStatus> {
    Seq::new(
        features.len(),
        |i: int| spec_status(spec_edges_of(features), spec_roots_of(features), i as usize),
    )
}

/// Resolves a declared feature map from its default root set: interns the
/// names, then traverses the activation edges.
pub fn resolve_features(features: &Vec<RawFeature>) -> (st: Vec<FeatureStatus>)
    ensures
        st@.len() == features@.len(),
        st@ == spec_feature_statuses(features@),
{
    let g = FeatureGraph::new(features);
    proof {
        assert(name_views(g.names@) =~= spec_names_of(features@));
        assert(g.edge_view() =~= spec_edges_of(features@));
    }
    let roots = g.default_root();
    let st = g.resolve(&roots);
    proof {
        assert(roots@ == spec_roots_of(features@));
        assert(st@ =~= spec_feature_statuses(features@));
    }
    st
}

/// Determinism of feature resolution: the final status assignment is a
/// function of the graph and the root set alone, so any two assignments
/// that both meet the resolution contract agree everywhere.
pub proof fn lemma_resolve_deterministic(
    g: FeatureGraph,
    roots: Seq<usize>,
    st1: Seq<FeatureStatus>,
    st2: Seq<FeatureStatus>,
)
    requires
        st1.len() == g.feature_count(),
        st2.len() == g.feature_count(),
        forall|i: int| 0 <= i < st1.len() ==> (#[trigger] st1[i]) == spec_status(
            g.edge_view(),
            roots,
            i as usize,
        ),
        forall|i: int| 0 <= i < st2.len() ==> (#[trigger] st2[i]) == spec_status(
            g.edge_view(),
            roots,
            i as usize,
        ),
    ensures
        st1 == st2,
{
    assert(st1 =~= st2);
}

/// A cycle does not starve the traversal: when one feature of a mutually
/// activating pair is reached from the roots, both end activated.
pub proof fn lemma_cycle_both_activated(g: FeatureGraph, roots: Seq<usize>, a: usize, b: usize)
    requires
        g.wf(),
        a < g.feature_count(),
        b < g.feature_count(),
        g.edge_view()[a as int].contains(b),
        g.edge_view()[b as int].contains(a),
        reaches(g.edge_view(), roots, a),
    ensures
        spec_status(g.edge_view(), roots, a) != FeatureStatus::Disabled,
        spec_status(g.edge_view(), roots, b) != FeatureStatus::Disabled,
{
    lemma_reach_step(g.edge_view(), roots, a, b);
}

} // verus!
