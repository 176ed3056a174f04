//! PAP (Password Authentication Protocol) request payload.
use vstd::prelude::*;
use vstd::string::StringSliceAdditionalSpecFns;
use crate::ppp_control::{build_pap_payload, pap_payload};

verus! {

/// Build a PAP request payload: user name length, user name, password length, password.
pub fn build_pap_request_data(username: &str, password: &str) -> (r: Vec<u8>)
    ensures
        r@ == pap_payload(username.spec_bytes(), password.spec_bytes()),
{
    build_pap_payload(username, password)
}

} // verus!
