//! Canonical-source resolution with replacement safety.  Decides which
//! source identity anchors the query, whether the workspace pin stays in
//! force, and which replacement source is used for registry interaction;
//! refuses to proceed when a user-configured replacement silently diverges
//! from the builtin one.

use vstd::prelude::*;

use crate::errors::InfoError;
use crate::source::{ReplacementTable, SourceId, spec_replacement};

verus! {

/// The outcome of source resolution.
#[derive(Clone, Debug)]
pub struct SourceResolution {
    /// Whether the workspace pin stays in force for version selection.
    pub use_pin: bool,
    /// The canonical source of the query; auth tokens and lock-file
    /// writes key off this identity.
    pub original: SourceId,
    /// The source actually interacted with: the builtin replacement of
    /// `original` (protocol-level mirrors only, never user-configured
    /// substitutions).
    pub replacement: SourceId,
}

/// Whether the pin stays in force: it does when no explicit source was
/// chosen, or when the explicit source is the pin's own source, or when
/// the explicit source is exactly the configured replacement the user
/// already set up for the pin's source.
pub open spec fn spec_use_pin(
    explicit: Option<SourceId>,
    pin_source: Option<SourceId>,
    configured: Seq<(SourceId, SourceId)>,
) -> bool {
    match (explicit, pin_source) {
        (Option::None, Option::Some(p)) => true,
        (Option::None, Option::None) => false,
        (Option::Some(o), Option::None) => false,
        (Option::Some(o), Option::Some(p)) => o.key() == p.key() || spec_replacement(
            configured,
            p,
        ).key() == o.key(),
    }
}

/// The canonical source the query is anchored to.
pub open spec fn spec_original(
    explicit: Option<SourceId>,
    pin_source: Option<SourceId>,
    default_registry: SourceId,
    configured: Seq<(SourceId, SourceId)>,
) -> SourceId {
    match (explicit, pin_source) {
        (Option::None, Option::Some(p)) => p,
        (Option::None, Option::None) => default_registry,
        (Option::Some(o), Option::None) => o,
        (Option::Some(o), Option::Some(p)) => if o.key() == p.key() {
            o
        } else if spec_replacement(configured, p).key() == o.key() {
            p
        } else {
            o
        },
    }
}

/// Resolves the canonical and effective source identities for a query.
///
/// `explicit` is the source the user chose on the command line, if any;
/// `pin_source` is the source of the workspace-pinned package, if one was
/// found; `default_registry` is the default remote registry; `builtin`
/// holds the replacements applied unconditionally, `configured` those
/// including user-defined substitutions.
///
/// Fails exactly when no explicit source was chosen and the configured
/// replacement of the chosen source disagrees with the builtin one; the
/// error names the configured replacement.
pub fn resolve_source(
    explicit: &Option<SourceId>,
    pin_source: &Option<SourceId>,
    default_registry: &SourceId,
    builtin: &ReplacementTable,
    configured: &ReplacementTable,
) -> (r: Result<SourceResolution, InfoError>)
    ensures
        ({
            let orig = spec_original(*explicit, *pin_source, *default_registry, configured.entries@);
            let b = spec_replacement(builtin.entries@, orig);
            let c = spec_replacement(configured.entries@, orig);
            match r {
                Ok(res) => {
                    &&& (explicit is Some || c.key() == b.key())
                    &&& res.use_pin == spec_use_pin(*explicit, *pin_source, configured.entries@)
                    &&& res.original == orig
                    &&& res.replacement == b
                },
                Err(e) => {
                    &&& explicit is None
                    &&& c.key() != b.key()
                    &&& e == (InfoError::AmbiguousSource { configured: c })
                },
            }
        }),
{
    let (use_pin, original): (bool, SourceId) = match (explicit, pin_source) {
        (None, Some(p)) => (true, p.duplicate()),
        (None, None) => (false, default_registry.duplicate()),
        (Some(o), None) => (false, o.duplicate()),
        (Some(o), Some(p)) => {
            if o.same(p) {
                (true, o.duplicate())
            } else {
                let p_replaced = configured.lookup(p);
                if p_replaced.same(o) {
                    (true, p.duplicate())
                } else {
                    (false, o.duplicate())
                }
            }
        },
    };
    let builtin_replacement = builtin.lookup(&original);
    let configured_replacement = configured.lookup(&original);
    if explicit.is_none() && !configured_replacement.same(&builtin_replacement) {
        Err(InfoError::AmbiguousSource { configured: configured_replacement })
    } else {
        Ok(SourceResolution { use_pin, original, replacement: builtin_replacement })
    }
}

} // verus!
