//! Authentication payloads: PAP and MS-CHAP v1/v2.
pub mod pap;
pub mod mschap;

use vstd::prelude::*;
use vstd::string::StringSliceAdditionalSpecFns;
use crate::constants::AuthMethod;
use crate::error::ProtoError;
use crate::auth::mschap::{do_mschap_v1, do_mschap_v2, mschap_v1_response, mschap_v2_response};
use crate::auth::pap::build_pap_request_data;
use crate::ppp_control::pap_payload;

verus! {

/// Dispatch authentication on the negotiated method: the PAP request payload, or
/// the MS-CHAP response value for the challenge.
pub fn authenticate(method: AuthMethod, username: &str, password: &str, challenge: &[u8]) -> (r: Result<Vec<u8>, ProtoError>)
    requires
        method == AuthMethod::MsChapV2 ==> challenge@.len() >= 16,
    ensures
        r matches Ok(v) && match method {
            AuthMethod::Pap => v@ == pap_payload(username.spec_bytes(), password.spec_bytes()),
            AuthMethod::MsChapV1 => v@ == mschap_v1_response(password.spec_bytes(), challenge@),
            AuthMethod::MsChapV2 => v@.len() == 49 && v@ == mschap_v2_response(username.spec_bytes(), password.spec_bytes(), challenge@, v@.take(16)),
        },
{
    match method {
        // PAP has no challenge: the payload is the PAP request.
        AuthMethod::Pap => Ok(build_pap_request_data(username, password)),
        AuthMethod::MsChapV1 => Ok(do_mschap_v1(password.as_bytes(), challenge)),
        AuthMethod::MsChapV2 => Ok(do_mschap_v2(username.as_bytes(), password.as_bytes(), challenge)),
    }
}

} // verus!
