//! Snapshot plugins: libraries that capture extra state for animation
//! snapshots.
use vstd::prelude::*;
use crate::error::HookError;

verus! {

/// State a plugin captured; only the plugin knows its layout.
pub struct FrameCaptureState {
    private: [u8; 0],
}

/// An error reported by a plugin.
#[derive(Debug)]
pub enum PluginError {
    FailedToCaptureState(String),
    FailedToProcessState(String),
}

/// How `{:?}` prints a string: quoted, with special characters escaped.
pub uninterp spec fn str_debug(s: Seq<char>) -> Seq<char>;

/// `format!("{:?}", s)` for a string.
#[verifier::external_body]
pub(crate) fn debug_text(s: &str) -> (r: String)
    ensures
        r@ == str_debug(s@),
{
    format!("{:?}", s)
}

/// How `{:?}` prints a plugin error: the variant's name and its message in
/// parentheses.
pub open spec fn plugin_error_text(e: PluginError) -> Seq<char> {
    match e {
        PluginError::FailedToCaptureState(m) => "FailedToCaptureState("@ + str_debug(m@) + ")"@,
        PluginError::FailedToProcessState(m) => "FailedToProcessState("@ + str_debug(m@) + ")"@,
    }
}

impl PluginError {
    /// The hook error that reports this plugin error.
    pub fn into_hook_error(self) -> (r: HookError)
        ensures
            match r {
                HookError::SnapshotPluginError(m) => m@ == plugin_error_text(self),
                _ => false,
            },
    {
        let (name, m) = match &self {
            PluginError::FailedToCaptureState(m) => ("FailedToCaptureState(", m),
            PluginError::FailedToProcessState(m) => ("FailedToProcessState(", m),
        };
        proof {
            reveal_strlit("FailedToCaptureState(");
            reveal_strlit("FailedToProcessState(");
        }
        let mut text = String::from_str(name);
        let d = debug_text(m.as_str());
        text.append(d.as_str());
        text.append(")");
        HookError::SnapshotPluginError(text)
    }
}

} // verus!
