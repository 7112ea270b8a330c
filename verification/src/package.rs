//! The package-level data the decision core works on: parsed specifiers,
//! concrete package identities, per-version summaries, dependencies, and
//! the resolved package with its manifest metadata.

use vstd::prelude::*;
use vstd::string::StrSliceExecFns;

use crate::errors::{InfoError, UsageKind};
use crate::features::RawFeature;
use crate::source::SourceId;
use crate::version::{PartialVersion, Version};

verus! {

/// A parsed package specifier: the name the user wrote, the version
/// requirement if any, and the source qualifier if the specifier embedded
/// one.  A specifier with an empty name never reaches the decisions; see
/// [`PackageSpec::validated`].
#[derive(Clone, Debug)]
pub struct PackageSpec {
    pub name: String,
    pub req: Option<PartialVersion>,
    pub source: Option<SourceId>,
}

/// Identity of one concrete package version at one source.
#[derive(Clone, Debug, PartialEq, Eq)]
pub struct PackageId {
    pub name: String,
    pub version: Version,
    pub source: SourceId,
}

impl PackageId {
    pub fn duplicate(&self) -> (r: PackageId)
        ensures
            r == *self,
    {
        PackageId {
            name: self.name.clone(),
            version: self.version.duplicate(),
            source: self.source.duplicate(),
        }
    }
}

/// Whether a specifier admits a concrete package identity.
pub open spec fn spec_matches(s: PackageSpec, id: PackageId) -> bool {
    &&& id.name@ == s.name@
    &&& (s.req is Some ==> s.req->0.spec_admits(id.version))
    &&& (s.source is Some ==> id.source.key() == s.source->0.key())
}

impl PackageSpec {
    pub open spec fn spec_wf(self) -> bool {
        self.name@.len() > 0
    }

    /// Checks the one validity rule a parsed specifier must meet before
    /// any further work: its name must not be empty.  The check runs
    /// before any source is resolved or any candidate is fetched.
    pub fn validated(name: String, req: Option<PartialVersion>, source: Option<SourceId>) -> (r:
        Result<PackageSpec, InfoError>)
        ensures
            ({
                match r {
                    Ok(s) => name@.len() > 0 && s.name == name && s.req == req && s.source == source
                        && s.spec_wf(),
                    Err(e) => name@.len() == 0 && e == (InfoError::Usage {
                        kind: UsageKind::EmptySpecName,
                    }),
                }
            }),
    {
        if name.as_str().unicode_len() == 0 {
            Err(InfoError::Usage { kind: UsageKind::EmptySpecName })
        } else {
            Ok(PackageSpec { name, req, source })
        }
    }

    pub fn matches(&self, id: &PackageId) -> (r: bool)
        ensures
            r == spec_matches(*self, *id),
    {
        if !(self.name == id.name) {
            return false;
        }
        if let Some(req) = &self.req {
            if !req.admits(&id.version) {
                return false;
            }
        }
        if let Some(src) = &self.source {
            if !src.same(&id.source) {
                return false;
            }
        }
        true
    }
}

/// The kind of a declared dependency.
#[derive(Clone, Copy, Debug, PartialEq, Eq, Structural)]
pub enum DepKind {
    Normal,
    Build,
    Dev,
}

/// One declared dependency, as the display classification reads it.
#[derive(Clone, Debug)]
pub struct Dependency {
    /// The name the dependent's manifest uses for it, which is the name
    /// feature tokens refer to.
    pub name: String,
    pub kind: DepKind,
    pub optional: bool,
    pub source: SourceId,
    /// The version requirement as rendered text, e.g. `^1.2.3`.
    pub req_text: String,
    /// Whether the requirement is a single comparator; only then may a
    /// leading caret be stripped for display.
    pub req_single_comparator: bool,
}

/// One per-version descriptor from the registry index: the package
/// identity plus the declared minimum toolchain version, if any.
#[derive(Clone, Debug)]
pub struct Summary {
    pub id: PackageId,
    pub msrv: Option<Version>,
}

/// Manifest metadata of the resolved package that the report displays.
/// Every field is optional; display substitutes an explicit placeholder
/// rather than failing on absence.
#[derive(Clone, Debug)]
pub struct PackageMetadata {
    pub description: Option<String>,
    pub license: Option<String>,
    pub rust_version: Option<Version>,
    pub documentation: Option<String>,
    pub homepage: Option<String>,
    pub repository: Option<String>,
    pub keywords: Vec<String>,
}

/// The one concrete package chosen by version selection, with its full
/// manifest; read-only once built.
#[derive(Clone, Debug)]
pub struct ResolvedPackage {
    pub id: PackageId,
    pub metadata: PackageMetadata,
    pub features: Vec<RawFeature>,
    pub deps: Vec<Dependency>,
}

} // verus!
