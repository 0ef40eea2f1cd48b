//! The sign-in request and the answer it gets before any code is sent.

use vstd::prelude::*;

verus! {

/// A request for a one-time sign-in code.
pub struct LoginRequest {
    pub phone: String,
}

/// The answer to a sign-in request.
pub struct LoginResponse {
    pub success: bool,
    pub message: String,
    /// How long the code stays valid, in seconds; 0 when none was sent.
    pub validity_seconds: u32,
}

/// The refusal owed to a request without a phone number; `None` when the
/// request may go on to the code provider.
pub fn reject_empty_phone(request: &LoginRequest) -> (r: Option<LoginResponse>)
    ensures
        r is Some <==> request.phone@.len() == 0,
        r matches Some(resp) ==> !resp.success && resp.message@ == "Phone number is required"@
            && resp.validity_seconds == 0,
{
    if request.phone.as_str().unicode_len() == 0 {
        Some(
            LoginResponse {
                success: false,
                message: String::from_str("Phone number is required"),
                validity_seconds: 0,
            },
        )
    } else {
        None
    }
}

} // verus!
