//! Routing decisions of the proxy attestation service.
//!
//! The HTTP surface has one attestation endpoint per platform family; the
//! decision of what to do with a request — forward it to the token
//! handler, refuse an unknown operation, refuse a disabled platform — is
//! made here, away from the HTTP framing.

use vstd::prelude::*;

verus! {

/// What the service does with an attestation request.
#[derive(Clone, Copy, Debug, PartialEq, Eq, Structural)]
pub enum RouteOutcome {
    /// Hand the evidence to the platform's attestation-token handler.
    AttestationToken,
    /// The operation name is not recognized.
    Unsupported,
    /// The platform is disabled in this build.
    Unimplemented,
}

/// Route a PSA-flavoured request (the Linux and IceCap platforms).
///
/// A disabled platform refuses everything; an enabled one recognizes only
/// the attestation-token operation.
pub fn psa_route(op: &str, platform_enabled: bool) -> (r: RouteOutcome)
    ensures
        !platform_enabled ==> r == RouteOutcome::Unimplemented,
        platform_enabled && op@ == "AttestationToken"@ ==> r == RouteOutcome::AttestationToken,
        platform_enabled && op@ != "AttestationToken"@ ==> r == RouteOutcome::Unsupported,
{
    if !platform_enabled {
        return RouteOutcome::Unimplemented;
    }
    let known = <String as vstd::string::StringExecFns>::from_str("AttestationToken");
    if op.to_owned() == known {
        RouteOutcome::AttestationToken
    } else {
        RouteOutcome::Unsupported
    }
}

/// Route a Nitro-flavoured request; the same decision rule as the PSA
/// endpoint, for the Nitro platform.
pub fn nitro_route(op: &str, platform_enabled: bool) -> (r: RouteOutcome)
    ensures
        !platform_enabled ==> r == RouteOutcome::Unimplemented,
        platform_enabled && op@ == "AttestationToken"@ ==> r == RouteOutcome::AttestationToken,
        platform_enabled && op@ != "AttestationToken"@ ==> r == RouteOutcome::Unsupported,
{
    psa_route(op, platform_enabled)
}

} // verus!
