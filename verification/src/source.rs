//! Identity of the places packages come from.  Two sources are the same
//! place exactly when kind and locator agree; replacement tables map a
//! source to the source transparently substituted for it (protocol
//! mirrors, user-configured alternates).

use vstd::prelude::*;

verus! {

/// The kind of place a package comes from.
#[derive(Clone, Copy, Debug, PartialEq, Eq, Structural)]
pub enum SourceKind {
    /// The default remote registry.
    CratesIo,
    /// Any other remote registry, named in configuration or given by index
    /// URL.
    Registry,
    /// A local path.
    Path,
    /// A git repository.
    Git,
}

/// Canonical identity of a package source: its kind and its locator (an
/// index URL, a path, or a repository URL, as display-ready text).
#[derive(Clone, Debug, PartialEq, Eq)]
pub struct SourceId {
    pub kind: SourceKind,
    pub locator: String,
}

impl SourceId {
    /// The logical identity: two sources denote the same location exactly
    /// when their keys agree.
    pub open spec fn key(self) -> (SourceKind, Seq<char>) {
        (self.kind, self.locator@)
    }

    pub fn same(&self, other: &SourceId) -> (r: bool)
        ensures
            r == (self.key() == other.key()),
    {
        self.kind == other.kind && self.locator == other.locator
    }

    pub fn duplicate(&self) -> (r: SourceId)
        ensures
            r == *self,
    {
        SourceId { kind: self.kind, locator: self.locator.clone() }
    }

    /// Whether the source is a registry at all (as opposed to a path or a
    /// git repository); registry dependencies display a version
    /// requirement, others display their location.
    pub open spec fn spec_is_registry(self) -> bool {
        self.kind == SourceKind::CratesIo || self.kind == SourceKind::Registry
    }

    pub fn is_registry(&self) -> (r: bool)
        ensures
            r == self.spec_is_registry(),
    {
        self.kind == SourceKind::CratesIo || self.kind == SourceKind::Registry
    }

    /// Whether the source is a remote registry; only those offer an
    /// ownership API.
    pub open spec fn spec_is_remote_registry(self) -> bool {
        self.spec_is_registry()
    }

    pub fn is_remote_registry(&self) -> (r: bool)
        ensures
            r == self.spec_is_remote_registry(),
    {
        self.is_registry()
    }

    pub open spec fn spec_is_crates_io(self) -> bool {
        self.kind == SourceKind::CratesIo
    }

    pub fn is_crates_io(&self) -> (r: bool)
        ensures
            r == self.spec_is_crates_io(),
    {
        self.kind == SourceKind::CratesIo
    }
}

/// What a replacement table answers for a source: the value of the first
/// entry whose key is the source, or the source itself when no entry
/// matches.
pub open spec fn spec_replacement(entries: Seq<(SourceId, SourceId)>, s: SourceId) -> SourceId
    decreases entries.len(),
{
    if entries.len() == 0 {
        s
    } else if entries[0].0.key() == s.key() {
        entries[0].1
    } else {
        spec_replacement(entries.drop_first(), s)
    }
}

/// A source replacement lookup: an ordered list of (original, substitute)
/// pairs.  A source not listed replaces to itself.
pub struct ReplacementTable {
    pub entries: Vec<(SourceId, SourceId)>,
}

impl ReplacementTable {
    pub open spec fn spec_lookup(self, s: SourceId) -> SourceId {
        spec_replacement(self.entries@, s)
    }

    pub fn lookup(&self, s: &SourceId) -> (r: SourceId)
        ensures
            r == self.spec_lookup(*s),
    {
        let n = self.entries.len();
        let mut j: usize = 0;
        proof {
            assert(self.entries@.skip(0) =~= self.entries@);
        }
        while j < n
            invariant
                n == self.entries@.len(),
                j <= n,
                spec_replacement(self.entries@, *s) == spec_replacement(
                    self.entries@.skip(j as int),
                    *s,
                ),
            decreases n - j,
        {
            proof {
                assert(self.entries@.skip(j as int)[0] == self.entries@[j as int]);
                assert(self.entries@.skip(j as int).drop_first() =~= self.entries@.skip(j + 1));
            }
            let e = &self.entries[j];
            if e.0.same(s) {
                return e.1.duplicate();
            }
            j += 1;
        }
        s.duplicate()
    }
}

} // verus!
