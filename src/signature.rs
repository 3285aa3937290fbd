//! The packed form of an authentication-layer signature, and how a verifier's
//! finding becomes the status that admission reads.
use vstd::prelude::*;

use crate::validator::SignatureStatus;

verus! {

/// Bytes of a packed authentication-layer signature: `r`, `s` and the recovery byte.
pub const PACKED_ETH_SIGNATURE_LEN: usize = 65;

/// A syntactically well-formed authentication-layer signature.
pub struct PackedEthSignature {
    bytes: Vec<u8>,
}

impl PackedEthSignature {
    pub closed spec fn view(&self) -> Seq<u8> {
        self.bytes@
    }

    pub open spec fn wf(&self) -> bool {
        self@.len() == PACKED_ETH_SIGNATURE_LEN
    }

    /// The signature whose packed form is `bytes`; `None` unless there are
    /// exactly 65 of them.
    pub fn deserialize_packed(bytes: &[u8]) -> (r: Option<PackedEthSignature>)
        ensures
            r is Some <==> bytes@.len() == PACKED_ETH_SIGNATURE_LEN,
            r matches Some(sig) ==> sig@ == bytes@ && sig.wf(),
    {
        if bytes.len() != PACKED_ETH_SIGNATURE_LEN {
            return None;
        }
        let mut out: Vec<u8> = Vec::new();
        let mut i: usize = 0;
        while i < bytes.len()
            invariant
                i <= bytes@.len(),
                out@ == bytes@.subrange(0, i as int),
            decreases bytes@.len() - i,
        {
            out.push(bytes[i]);
            i = i + 1;
        }
        assert(out@ =~= bytes@);
        Some(PackedEthSignature { bytes: out })
    }

    /// The 65 bytes of the packed form.
    pub fn serialize_packed(&self) -> (r: &Vec<u8>)
        requires
            self.wf(),
        ensures
            r@ == self@,
            r@.len() == PACKED_ETH_SIGNATURE_LEN,
    {
        &self.bytes
    }
}

/// The status of one signature layer: absent where nothing was submitted,
/// else valid exactly where the verifier accepted it.
pub fn signature_status<T>(signature: &Option<T>, verifies: bool) -> (r: SignatureStatus)
    ensures
        r == (match signature {
            None => SignatureStatus::Absent,
            Some(_) => if verifies {
                SignatureStatus::Valid
            } else {
                SignatureStatus::Invalid
            },
        }),
{
    match signature {
        None => SignatureStatus::Absent,
        Some(_) => if verifies {
            SignatureStatus::Valid
        } else {
            SignatureStatus::Invalid
        },
    }
}

} // verus!
