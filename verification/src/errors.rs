//! The error taxonomy of the decision core.  Every failure is a typed
//! value returned to the caller; nothing is retried here.  Transport and
//! authentication failures originate in the collaborators and pass
//! through unchanged.

use vstd::prelude::*;
use vstd::string::{StrSliceExecFns, StringExecFns};

use crate::render::{dec_chars, u64_text};
use crate::source::SourceId;
use crate::version::PartialVersion;

verus! {

/// The ways a request can be invalid before any work is done.
#[derive(Clone, Copy, Debug, PartialEq, Eq, Structural)]
pub enum UsageKind {
    /// The package specifier has an empty name.
    EmptySpecName,
    /// The locked flag was given outside a workspace.
    LockedOutsideWorkspace,
    /// The frozen flag was given outside a workspace.
    FrozenOutsideWorkspace,
}

/// A typed failure of the decision core.
#[derive(Clone, Debug)]
pub enum InfoError {
    /// The request is invalid; fails before any network access.
    Usage { kind: UsageKind },
    /// A user-configured source replacement disagrees with the builtin
    /// one and no explicit source was chosen; the configured replacement
    /// is named rather than silently used.
    AmbiguousSource { configured: SourceId },
    /// No candidate version matches the specifier under the resolved
    /// source.
    NotFound { name: String, req: Option<PartialVersion>, source: SourceId },
    /// A transport failure, passed through from the collaborator that
    /// performs network work.
    Transport { message: String },
    /// An authentication failure other than missing credentials; missing
    /// credentials are absorbed into an empty owner lookup instead.
    Auth { message: String },
}

/// The display text of an optional-precision version requirement, as a
/// specifier writes it.
pub open spec fn spec_partial_chars(r: PartialVersion) -> Seq<char> {
    dec_chars(r.major as int) + (if r.minor is Some {
        "."@ + dec_chars(r.minor->0 as int) + (if r.patch is Some {
            "."@ + dec_chars(r.patch->0 as int)
        } else {
            Seq::<char>::empty()
        })
    } else {
        Seq::<char>::empty()
    }) + (if r.pre@.len() > 0 {
        "-"@ + r.pre@
    } else {
        Seq::<char>::empty()
    })
}

/// The display text of a specifier: the name, and the version requirement
/// after an at sign when one was given.
pub open spec fn spec_spec_chars(name: Seq<char>, req: Option<PartialVersion>) -> Seq<char> {
    name + (match req {
        Option::Some(r) => "@"@ + spec_partial_chars(r),
        Option::None => Seq::<char>::empty(),
    })
}

/// The display text of an error.
pub open spec fn spec_error_message(e: InfoError) -> Seq<char> {
    match e {
        InfoError::Usage { kind } => match kind {
            UsageKind::EmptySpecName => "package ID specification must have a name"@,
            UsageKind::LockedOutsideWorkspace => "the option `--locked` can only be used within a workspace"@,
            UsageKind::FrozenOutsideWorkspace => "the option `--frozen` can only be used within a workspace"@,
        },
        InfoError::AmbiguousSource { configured } => {
            if configured.spec_is_remote_registry() {
                "crates-io is replaced with remote registry "@ + configured.locator@
                    + "; include `--registry "@ + configured.locator@
                    + "` or `--registry crates-io`"@
            } else {
                "crates-io is replaced with non-remote-registry source "@ + configured.locator@
                    + "; include `--registry crates-io` to use crates.io"@
            }
        },
        InfoError::NotFound { name, req, source } => "could not find `"@ + spec_spec_chars(
            name@,
            req,
        ) + "` in registry `"@ + source.locator@ + "`"@,
        InfoError::Transport { message } => message@,
        InfoError::Auth { message } => message@,
    }
}

impl InfoError {
    pub fn message(&self) -> (r: String)
        ensures
            r@ == spec_error_message(*self),
    {
        match self {
            InfoError::Usage { kind } => match kind {
                UsageKind::EmptySpecName => String::from_str(
                    "package ID specification must have a name",
                ),
                UsageKind::LockedOutsideWorkspace => String::from_str(
                    "the option `--locked` can only be used within a workspace",
                ),
                UsageKind::FrozenOutsideWorkspace => String::from_str(
                    "the option `--frozen` can only be used within a workspace",
                ),
            },
            InfoError::AmbiguousSource { configured } => {
                if configured.is_remote_registry() {
                    let mut s = String::from_str("crates-io is replaced with remote registry ");
                    s.append(configured.locator.as_str());
                    s.append("; include `--registry ");
                    s.append(configured.locator.as_str());
                    s.append("` or `--registry crates-io`");
                    proof {
                        assert(s@ =~= spec_error_message(*self));
                    }
                    s
                } else {
                    let mut s = String::from_str(
                        "crates-io is replaced with non-remote-registry source ",
                    );
                    s.append(configured.locator.as_str());
                    s.append("; include `--registry crates-io` to use crates.io");
                    proof {
                        assert(s@ =~= spec_error_message(*self));
                    }
                    s
                }
            },
            InfoError::NotFound { name, req, source } => {
                let mut s = String::from_str("could not find `");
                s.append(name.as_str());
                if let Some(r) = req {
                    s.append("@");
                    let major = u64_text(r.major);
                    s.append(major.as_str());
                    if let Some(minor) = r.minor {
                        s.append(".");
                        let minor_text = u64_text(minor);
                        s.append(minor_text.as_str());
                        if let Some(patch) = r.patch {
                            s.append(".");
                            let patch_text = u64_text(patch);
                            s.append(patch_text.as_str());
                        }
                    }
                    if r.pre.as_str().unicode_len() > 0 {
                        s.append("-");
                        s.append(r.pre.as_str());
                    }
                }
                s.append("` in registry `");
                s.append(source.locator.as_str());
                s.append("`");
                proof {
                    assert(s@ =~= spec_error_message(*self));
                }
                s
            },
            InfoError::Transport { message } => message.clone(),
            InfoError::Auth { message } => message.clone(),
        }
    }
}

} // verus!
