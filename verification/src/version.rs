//! Semantic versions, as far as the decision core reads them: the numeric
//! triple, plus the pre-release tag kept as plain text.  Ordering is by the
//! triple, with a pre-release ranking below the release of the same triple.
//! Toolchain (MSRV) compatibility is the compatible-range ("caret") check on
//! the numeric triple.

use vstd::prelude::*;
use vstd::string::StrSliceExecFns;

verus! {

/// A semantic version: numeric triple plus the pre-release tag as text.
/// An empty `pre` means a release.  Build metadata plays no part in any
/// decision this core makes, so it is not carried.
#[derive(Clone, Debug, PartialEq, Eq)]
pub struct Version {
    pub major: u64,
    pub minor: u64,
    pub patch: u64,
    pub pre: String,
}

impl Version {
    /// Logical identity of a version: the triple and the pre-release text.
    pub open spec fn key(self) -> (u64, u64, u64, Seq<char>) {
        (self.major, self.minor, self.patch, self.pre@)
    }

    pub open spec fn spec_is_release(self) -> bool {
        self.pre@.len() == 0
    }

    pub fn is_release(&self) -> (r: bool)
        ensures
            r == self.spec_is_release(),
    {
        self.pre.as_str().unicode_len() == 0
    }

    pub fn duplicate(&self) -> (r: Version)
        ensures
            r == *self,
    {
        Version { major: self.major, minor: self.minor, patch: self.patch, pre: self.pre.clone() }
    }
}

/// Whether two versions are the same version.
pub fn same_version(a: &Version, b: &Version) -> (r: bool)
    ensures
        r == (a.key() == b.key()),
{
    a.major == b.major && a.minor == b.minor && a.patch == b.patch && a.pre == b.pre
}

/// Strict ordering of the numeric triples alone.
pub open spec fn spec_triple_lt(a: Version, b: Version) -> bool {
    ||| a.major < b.major
    ||| (a.major == b.major && a.minor < b.minor)
    ||| (a.major == b.major && a.minor == b.minor && a.patch < b.patch)
}

pub open spec fn spec_triple_eq(a: Version, b: Version) -> bool {
    a.major == b.major && a.minor == b.minor && a.patch == b.patch
}

/// Ranking of versions used for selection: ordered by the numeric triple,
/// and a pre-release ranks strictly below the release of the same triple.
/// Two pre-releases of one triple rank equal; selection breaks such ties
/// by candidate position.
pub open spec fn spec_version_lt(a: Version, b: Version) -> bool {
    ||| spec_triple_lt(a, b)
    ||| (spec_triple_eq(a, b) && !a.spec_is_release() && b.spec_is_release())
}

/// Non-strict companion of [`spec_version_lt`]: `a` ranks no higher than `b`.
pub open spec fn spec_version_le(a: Version, b: Version) -> bool {
    ||| spec_version_lt(a, b)
    ||| (spec_triple_eq(a, b) && a.spec_is_release() == b.spec_is_release())
}

pub fn version_lt(a: &Version, b: &Version) -> (r: bool)
    ensures
        r == spec_version_lt(*a, *b),
{
    if a.major != b.major {
        a.major < b.major
    } else if a.minor != b.minor {
        a.minor < b.minor
    } else if a.patch != b.patch {
        a.patch < b.patch
    } else {
        !a.is_release() && b.is_release()
    }
}

pub fn version_le(a: &Version, b: &Version) -> (r: bool)
    ensures
        r == spec_version_le(*a, *b),
{
    if a.major != b.major {
        a.major < b.major
    } else if a.minor != b.minor {
        a.minor < b.minor
    } else if a.patch != b.patch {
        a.patch < b.patch
    } else {
        a.is_release() == b.is_release() || b.is_release()
    }
}

/// The compatible-range check a declared minimum toolchain version makes
/// against a target toolchain: the caret range from `msrv` must admit
/// `toolchain`.  Pre-release tags play no part here; the caller strips them
/// from the toolchain first (see [`strip_prerelease`]), and a declared
/// minimum has none.
pub open spec fn spec_msrv_admits(msrv: Version, toolchain: Version) -> bool {
    if msrv.major > 0 {
        &&& toolchain.major == msrv.major
        &&& (toolchain.minor > msrv.minor || (toolchain.minor == msrv.minor
            && toolchain.patch >= msrv.patch))
    } else if msrv.minor > 0 {
        &&& toolchain.major == 0
        &&& toolchain.minor == msrv.minor
        &&& toolchain.patch >= msrv.patch
    } else {
        &&& toolchain.major == 0
        &&& toolchain.minor == 0
        &&& toolchain.patch == msrv.patch
    }
}

pub fn msrv_admits(msrv: &Version, toolchain: &Version) -> (r: bool)
    ensures
        r == spec_msrv_admits(*msrv, *toolchain),
{
    if msrv.major > 0 {
        toolchain.major == msrv.major && (toolchain.minor > msrv.minor
            || (toolchain.minor == msrv.minor && toolchain.patch >= msrv.patch))
    } else if msrv.minor > 0 {
        toolchain.major == 0 && toolchain.minor == msrv.minor && toolchain.patch >= msrv.patch
    } else {
        toolchain.major == 0 && toolchain.minor == 0 && toolchain.patch == msrv.patch
    }
}

/// Drops the pre-release tag, keeping the numeric triple.  The target
/// toolchain version goes through this before any compatibility check, so
/// that a nightly or beta toolchain compares by its triple alone.
pub fn strip_prerelease(v: &Version) -> (r: Version)
    ensures
        spec_triple_eq(r, *v),
        r.spec_is_release(),
{
    Version { major: v.major, minor: v.minor, patch: v.patch, pre: String::new() }
}

/// An optional-precision version requirement, as a parsed package specifier
/// carries it: the major number is always given, the rest only when the
/// user wrote it.  `foo@1.2` constrains major and minor and admits any
/// patch level; a pre-release must be named exactly to be admitted.
#[derive(Clone, Debug, PartialEq, Eq)]
pub struct PartialVersion {
    pub major: u64,
    pub minor: Option<u64>,
    pub patch: Option<u64>,
    pub pre: String,
}

impl PartialVersion {
    pub fn duplicate(&self) -> (r: PartialVersion)
        ensures
            r == *self,
    {
        PartialVersion {
            major: self.major,
            minor: self.minor,
            patch: self.patch,
            pre: self.pre.clone(),
        }
    }

    pub open spec fn spec_admits(self, v: Version) -> bool {
        &&& v.major == self.major
        &&& (self.minor is Some ==> v.minor == self.minor->0)
        &&& (self.patch is Some ==> v.patch == self.patch->0)
        &&& v.pre@ == self.pre@
    }

    pub fn admits(&self, v: &Version) -> (r: bool)
        ensures
            r == self.spec_admits(*v),
    {
        if v.major != self.major {
            return false;
        }
        if let Some(m) = self.minor {
            if v.minor != m {
                return false;
            }
        }
        if let Some(p) = self.patch {
            if v.patch != p {
                return false;
            }
        }
        self.pre == v.pre
    }
}

} // verus!
