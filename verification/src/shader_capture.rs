//! Shader capture during snapshots.
use vstd::prelude::*;
use crate::error::HookError;
use crate::text::{hex_upper, u32_to_hex_upper};

verus! {

/// Shader capture is always available.
pub fn is_enabled() -> (r: bool)
    ensures
        r,
{
    true
}

/// The message of a failed capture step: the step, then the result code in
/// upper-case hexadecimal (as its 32 bits).
pub open spec fn failed_hr_text(context: Seq<char>, hr: i32) -> Seq<char> {
    context + ": failed HR: "@ + hex_upper((hr as u32) as nat)
}

/// `Ok` for a zero result code; otherwise the capture failed.
pub fn check_hr(hr: i32, context: &str) -> (r: Result<(), HookError>)
    ensures
        hr == 0 ==> r is Ok,
        hr != 0 ==> match r {
            Err(HookError::CaptureFailed(m)) => m@ == failed_hr_text(context@, hr),
            _ => false,
        },
{
    if hr != 0 {
        let mut m = String::from_str(context);
        m.append(": failed HR: ");
        let h = u32_to_hex_upper(hr as u32);
        m.append(h.as_str());
        return Err(HookError::CaptureFailed(m));
    }
    Ok(())
}

} // verus!
