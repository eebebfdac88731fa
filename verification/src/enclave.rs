//! The root-enclave attestation state machine.
//!
//! A root enclave moves from unprovisioned to ready through four
//! transitions: native attestation, the proxy challenge, proxy attestation
//! bound to that challenge, and certificate-chain installation.  Any
//! message out of order is answered with a failure status and changes
//! nothing, and a challenge id is consumed exactly once — replaying it
//! fails.  What only the platform can compute (the attestation token, the
//! CSR, fresh nonces and ids, the signed chain) is handed in by the
//! caller; the machine decides and records.

use vstd::prelude::*;

use crate::error::Status;
use crate::messages::NitroRootEnclaveMessage;

verus! {

/// Where a root enclave stands in its provisioning life.
#[derive(Clone, Copy, Debug, PartialEq, Eq, Structural)]
pub enum RootEnclavePhase {
    /// Fresh: no attestation has happened.
    Unprovisioned,
    /// Native attestation evidence has been produced.
    Attested,
    /// A proxy challenge has been issued and awaits its evidence.
    Challenged,
    /// Proxy attestation succeeded; the chain may be installed.
    Certified,
    /// The certificate chain is installed; sessions may be served.
    Ready,
}

/// The per-enclave state: its phase, firmware version, the device id the
/// proxy assigned, and the table of outstanding challenges.
pub struct RootEnclave {
    pub phase: RootEnclavePhase,
    pub firmware_version: String,
    pub device_id: i32,
    pub challenges: Vec<(i32, Vec<u8>)>,
    pub cert_chain: Option<(Vec<u8>, Vec<u8>)>,
}

impl RootEnclave {
    /// Is a challenge with this id outstanding?
    pub open spec fn spec_has_challenge(self, id: i32) -> bool {
        exists|k: int| 0 <= k < self.challenges@.len() && (#[trigger] self.challenges@[k]).0 == id
    }

    /// Outstanding challenge ids are unique.
    pub open spec fn wf(self) -> bool {
        forall|k1: int, k2: int|
            0 <= k1 < k2 < self.challenges@.len() ==> (#[trigger] self.challenges@[k1]).0 != (
            #[trigger] self.challenges@[k2]).0
    }

    /// A fresh enclave: unprovisioned, no device id, no challenges.
    pub fn new(firmware_version: String) -> (r: RootEnclave)
        ensures
            r.phase == RootEnclavePhase::Unprovisioned,
            r.firmware_version == firmware_version,
            r.device_id == 0,
            r.challenges@.len() == 0,
            r.cert_chain is None,
            r.wf(),
    {
        RootEnclave {
            phase: RootEnclavePhase::Unprovisioned,
            firmware_version,
            device_id: 0,
            challenges: Vec::new(),
            cert_chain: None,
        }
    }

    /// Answer a firmware-version query; legal in every phase and changes
    /// nothing.
    pub fn handle_fetch_firmware_version(&self) -> (r: NitroRootEnclaveMessage)
        ensures
            r matches NitroRootEnclaveMessage::FirmwareVersion(v) && v@ == self.firmware_version@,
    {
        NitroRootEnclaveMessage::FirmwareVersion(
            <String as vstd::string::StringExecFns>::from_str(self.firmware_version.as_str()),
        )
    }

    /// Begin native attestation.  Legal only while unprovisioned; the
    /// platform's token and CSR are handed in and echoed as `TokenData`.
    pub fn handle_native_attestation(
        &mut self,
        device_id: i32,
        token: Vec<u8>,
        csr: Vec<u8>,
    ) -> (r: NitroRootEnclaveMessage)
        ensures
            final(self).firmware_version == old(self).firmware_version,
            final(self).challenges == old(self).challenges,
            final(self).cert_chain == old(self).cert_chain,
            old(self).phase == RootEnclavePhase::Unprovisioned ==> {
                &&& (r matches NitroRootEnclaveMessage::TokenData(t, c) && t@ == token@ && c@
                    == csr@)
                &&& final(self).phase == RootEnclavePhase::Attested
                &&& final(self).device_id == device_id
            },
            old(self).phase != RootEnclavePhase::Unprovisioned ==> r
                == NitroRootEnclaveMessage::Status(Status::Fail) && *final(self) == *old(self),
    {
        if self.phase != RootEnclavePhase::Unprovisioned {
            return NitroRootEnclaveMessage::Status(Status::Fail);
        }
        self.phase = RootEnclavePhase::Attested;
        self.device_id = device_id;
        NitroRootEnclaveMessage::TokenData(token, csr)
    }

    /// Begin the proxy flow: issue a fresh challenge.  Legal only once
    /// attested, and only with an id not already outstanding.  The caller
    /// must draw the nonce from a cryptographic RNG and never reuse one;
    /// the machine guards only the id.
    pub fn handle_start_proxy(&mut self, nonce: Vec<u8>, challenge_id: i32) -> (r:
        NitroRootEnclaveMessage)
        requires
            old(self).wf(),
        ensures
            final(self).wf(),
            final(self).firmware_version == old(self).firmware_version,
            final(self).device_id == old(self).device_id,
            final(self).cert_chain == old(self).cert_chain,
            (old(self).phase == RootEnclavePhase::Attested && !old(self).spec_has_challenge(
                challenge_id,
            )) ==> {
                &&& (r matches NitroRootEnclaveMessage::ChallengeData(n, id) && n@ == nonce@ && id
                    == challenge_id)
                &&& final(self).phase == RootEnclavePhase::Challenged
                &&& final(self).spec_has_challenge(challenge_id)
                &&& final(self).challenges@.len() == old(self).challenges@.len() + 1
            },
            !(old(self).phase == RootEnclavePhase::Attested && !old(self).spec_has_challenge(
                challenge_id,
            )) ==> r == NitroRootEnclaveMessage::Status(Status::Fail) && *final(self) == *old(
                self,
            ),
    {
        if self.phase != RootEnclavePhase::Attested {
            return NitroRootEnclaveMessage::Status(Status::Fail);
        }
        if self.has_challenge(challenge_id) {
            return NitroRootEnclaveMessage::Status(Status::Fail);
        }
        let reply_nonce = vstd::slice::slice_to_vec(nonce.as_slice());
        self.challenges.push((challenge_id, nonce));
        self.phase = RootEnclavePhase::Challenged;
        proof {
            assert(self.challenges@[self.challenges@.len() - 1].0 == challenge_id);
        }
        NitroRootEnclaveMessage::ChallengeData(reply_nonce, challenge_id)
    }

    /// Is a challenge with this id outstanding?
    pub fn has_challenge(&self, id: i32) -> (r: bool)
        ensures
            r == self.spec_has_challenge(id),
    {
        let mut k: usize = 0;
        while k < self.challenges.len()
            invariant
                k <= self.challenges@.len(),
                forall|j: int| 0 <= j < k ==> (#[trigger] self.challenges@[j]).0 != id,
            decreases self.challenges@.len() - k,
        {
            if self.challenges[k].0 == id {
                return true;
            }
            k = k + 1;
        }
        false
    }

    /// Answer proxy-attestation evidence.  Legal only while challenged and
    /// only for an outstanding challenge id, which this consumes: replaying
    /// the same id fails.  The signed chain is handed in and echoed as
    /// `CertChain`.
    pub fn handle_proxy_attestation(&mut self, challenge_id: i32, chain: Vec<Vec<u8>>) -> (r:
        NitroRootEnclaveMessage)
        requires
            old(self).wf(),
        ensures
            final(self).wf(),
            final(self).firmware_version == old(self).firmware_version,
            final(self).device_id == old(self).device_id,
            final(self).cert_chain == old(self).cert_chain,
            (old(self).phase == RootEnclavePhase::Challenged && old(self).spec_has_challenge(
                challenge_id,
            )) ==> {
                &&& (r matches NitroRootEnclaveMessage::CertChain(c) && c.deep_view()
                    == chain.deep_view())
                &&& final(self).phase == RootEnclavePhase::Certified
                &&& !final(self).spec_has_challenge(challenge_id)
                &&& final(self).challenges@.len() == old(self).challenges@.len() - 1
            },
            !(old(self).phase == RootEnclavePhase::Challenged && old(self).spec_has_challenge(
                challenge_id,
            )) ==> r == NitroRootEnclaveMessage::Status(Status::Fail) && *final(self) == *old(
                self,
            ),
    {
        if self.phase != RootEnclavePhase::Challenged {
            return NitroRootEnclaveMessage::Status(Status::Fail);
        }
        let mut k: usize = 0;
        let mut found: bool = false;
        let mut idx: usize = 0;
        while k < self.challenges.len()
            invariant
                k <= self.challenges@.len(),
                !found ==> forall|j: int| 0 <= j < k ==> (#[trigger] self.challenges@[j]).0 != challenge_id,
                found ==> idx < self.challenges@.len() && self.challenges@[idx as int].0
                    == challenge_id,
            decreases self.challenges@.len() - k,
        {
            if !found && self.challenges[k].0 == challenge_id {
                found = true;
                idx = k;
            }
            k = k + 1;
        }
        if !found {
            return NitroRootEnclaveMessage::Status(Status::Fail);
        }
        self.challenges.remove(idx);
        self.phase = RootEnclavePhase::Certified;
        proof {
            assert forall|j: int| 0 <= j < self.challenges@.len() implies (
            #[trigger] self.challenges@[j]).0 != challenge_id by {
                if j < idx {
                    assert(self.challenges@[j] == old(self).challenges@[j]);
                } else {
                    assert(self.challenges@[j] == old(self).challenges@[j + 1]);
                }
            }
        }
        NitroRootEnclaveMessage::CertChain(chain)
    }

    /// Install the issued certificate chain.  Legal only once certified;
    /// this completes provisioning.
    pub fn handle_set_cert_chain(&mut self, root_cert: Vec<u8>, ca_cert: Vec<u8>) -> (r:
        NitroRootEnclaveMessage)
        ensures
            final(self).firmware_version == old(self).firmware_version,
            final(self).device_id == old(self).device_id,
            final(self).challenges == old(self).challenges,
            old(self).phase == RootEnclavePhase::Certified ==> {
                &&& r == NitroRootEnclaveMessage::Success
                &&& final(self).phase == RootEnclavePhase::Ready
                &&& (final(self).cert_chain matches Some((rc, cc)) && rc@ == root_cert@ && cc@
                    == ca_cert@)
            },
            old(self).phase != RootEnclavePhase::Certified ==> r
                == NitroRootEnclaveMessage::Status(Status::Fail) && *final(self) == *old(self),
    {
        if self.phase != RootEnclavePhase::Certified {
            return NitroRootEnclaveMessage::Status(Status::Fail);
        }
        self.phase = RootEnclavePhase::Ready;
        self.cert_chain = Some((root_cert, ca_cert));
        NitroRootEnclaveMessage::Success
    }
}

} // verus!
