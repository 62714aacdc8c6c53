//! Text encodings of digests.

use fastcrypto::encoding::{Base58, Encoding};
use vstd::prelude::*;

verus! {

/// The Base58 text of a sequence of bytes, as `fastcrypto` writes it.
pub uninterp spec fn base58_text(bytes: Seq<u8>) -> Seq<char>;

/// Calls `fastcrypto::encoding::Base58::encode`, which hands the bytes to
/// `bs58::encode(..).into_string()`. The result is taken to depend on the
/// bytes alone; nothing else is claimed of it.
#[verifier::external_body]
pub(crate) fn base58_encode(bytes: &[u8; 32]) -> (text: String)
    ensures
        text@ == base58_text(bytes@),
{
    Base58::encode(bytes)
}

} // verus!
