use vstd::prelude::*;

verus! {

/// The body of a sign-in request.
pub struct PinAuthenticationBody {
    pub email: String,
    pub pin: String,
}

} // verus!
