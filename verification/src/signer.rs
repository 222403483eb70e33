//! Client-side permit signing and hex helpers.
//!
//! A client builds a permit envelope, encodes it canonically, and signs
//! the bytes with an ed25519 key.  The canonical bytes are produced by the
//! verified encoder, so two signers over the same envelope sign identical
//! payloads; the signature itself comes from the ed25519 library and is
//! opaque to the proofs.

use vstd::prelude::*;

use crate::permit::PermitEnvelopeV1;
use crate::permit_codec::spec_enc_envelope;

verus! {

/// The ed25519 keypair type of the signing library, opaque to the
/// proofs.
#[verifier::external_type_specification]
#[verifier::external_body]
pub struct ExKeypair(ed25519_dalek::Keypair);

/// A canonically encoded permit envelope together with its ed25519
/// signature over exactly those bytes.
#[derive(Debug, Clone, PartialEq, Eq)]
pub struct SignedPermit {
    /// The canonical envelope bytes that were signed.
    pub bytes: Vec<u8>,
    /// The 64-byte ed25519 signature.
    pub signature: [u8; 64],
}

impl SignedPermit {
    /// Split into the signed bytes and the signature.
    pub fn into_parts(self) -> (r: (Vec<u8>, [u8; 64]))
        ensures
            r.0 == self.bytes,
            r.1 == self.signature,
    {
        (self.bytes, self.signature)
    }
}

/// Relies on `ed25519_dalek::Keypair::sign` through the `Signer` trait:
/// a 64-byte ed25519 signature over the message.  Which bytes come back
/// depends on the secret key, so nothing more is promised of the value.
#[verifier::external_body]
fn ed25519_sign(keypair: &ed25519_dalek::Keypair, message: &Vec<u8>) -> (r: [u8; 64])
    ensures
        r@.len() == 64,
{
    ed25519_dalek::Signer::sign(keypair, message.as_slice()).to_bytes()
}

/// Canonically encode `envelope` and sign the bytes with `keypair`.  The
/// signed bytes are exactly the canonical encoding of the envelope.
pub fn sign_permit_ed25519(envelope: &PermitEnvelopeV1, keypair: &ed25519_dalek::Keypair) -> (r:
    SignedPermit)
    ensures
        r.bytes@ == spec_enc_envelope(*envelope),
{
    let bytes = crate::permit_codec::encode_envelope(envelope);
    let signature = ed25519_sign(keypair, &bytes);
    SignedPermit { bytes, signature }
}

/// The value of a hexadecimal digit, or a negative marker for any other
/// character.
pub open spec fn spec_hex_val(c: char) -> int {
    if '0' <= c <= '9' {
        c as int - '0' as int
    } else if 'a' <= c <= 'f' {
        10 + (c as int - 'a' as int)
    } else if 'A' <= c <= 'F' {
        10 + (c as int - 'A' as int)
    } else {
        -1
    }
}

/// Whether `s` is a well-formed hexadecimal string: even length, every
/// character a hex digit.
pub open spec fn spec_is_hex(s: Seq<char>) -> bool {
    s.len() % 2 == 0 && forall|i: int| 0 <= i < s.len() ==> spec_hex_val(#[trigger] s[i]) >= 0
}

/// The bytes a well-formed hexadecimal string denotes.
pub open spec fn spec_hex_decode(s: Seq<char>) -> Seq<u8> {
    Seq::new((s.len() / 2) as nat, |i: int| (spec_hex_val(s[2 * i]) * 16 + spec_hex_val(s[2 * i + 1])) as u8)
}

/// The lowercase hexadecimal digit for a value below sixteen.
pub open spec fn spec_hex_digit(n: int) -> char {
    if n == 0 {
        '0'
    } else if n == 1 {
        '1'
    } else if n == 2 {
        '2'
    } else if n == 3 {
        '3'
    } else if n == 4 {
        '4'
    } else if n == 5 {
        '5'
    } else if n == 6 {
        '6'
    } else if n == 7 {
        '7'
    } else if n == 8 {
        '8'
    } else if n == 9 {
        '9'
    } else if n == 10 {
        'a'
    } else if n == 11 {
        'b'
    } else if n == 12 {
        'c'
    } else if n == 13 {
        'd'
    } else if n == 14 {
        'e'
    } else {
        'f'
    }
}

/// The lowercase hexadecimal rendering of a byte sequence: two digits
/// per byte, high digit first.
pub open spec fn spec_hex_encode(b: Seq<u8>) -> Seq<char> {
    Seq::new((b.len() * 2) as nat, |i: int| if i % 2 == 0 {
        spec_hex_digit(b[i / 2] as int / 16)
    } else {
        spec_hex_digit(b[i / 2] as int % 16)
    })
}

/// Relies on `hex::encode`: the lowercase hexadecimal rendering of the
/// bytes, two digits per byte, high digit first.
#[verifier::external_body]
pub fn bytes_to_hex(bytes: &Vec<u8>) -> (r: String)
    ensures
        r@ == spec_hex_encode(bytes@),
{
    hex::encode(bytes.as_slice())
}

/// Relies on `hex::decode`: the bytes a hexadecimal string denotes,
/// accepting either letter case, and an error exactly on an odd length
/// or a non-hex character.
#[verifier::external_body]
pub fn hex_to_bytes(hex_str: &str) -> (r: Result<Vec<u8>, hex::FromHexError>)
    ensures
        match r {
            Ok(v) => spec_is_hex(hex_str@) && v@ == spec_hex_decode(hex_str@),
            Err(_) => !spec_is_hex(hex_str@),
        },
{
    hex::decode(hex_str)
}

/// The hex error type of the hex library, opaque to the proofs.
#[verifier::external_type_specification]
#[verifier::external_body]
pub struct ExFromHexError(hex::FromHexError);

/// Law: hex encoding round-trips.  Decoding the hexadecimal rendering of
/// any byte sequence yields the bytes back.
pub proof fn lemma_hex_round_trip(b: Seq<u8>)
    ensures
        spec_is_hex(spec_hex_encode(b)),
        spec_hex_decode(spec_hex_encode(b)) == b,
{
    let s = spec_hex_encode(b);
    assert forall|i: int| 0 <= i < s.len() implies spec_hex_val(#[trigger] s[i]) >= 0 by {
        if i % 2 == 0 {
            assert(0 <= b[i / 2] as int / 16 < 16);
        } else {
            assert(0 <= b[i / 2] as int % 16 < 16);
        }
    }
    assert forall|i: int| 0 <= i < b.len() implies spec_hex_decode(s)[i] == b[i] by {
        assert((2 * i) % 2 == 0);
        assert((2 * i + 1) % 2 == 1);
        assert((2 * i) / 2 == i);
        assert((2 * i + 1) / 2 == i);
        assert(s[2 * i] == spec_hex_digit(b[i] as int / 16));
        assert(s[2 * i + 1] == spec_hex_digit(b[i] as int % 16));
        assert(spec_hex_val(spec_hex_digit(b[i] as int / 16)) == b[i] as int / 16);
        assert(spec_hex_val(spec_hex_digit(b[i] as int % 16)) == b[i] as int % 16);
        assert((b[i] as int / 16) * 16 + b[i] as int % 16 == b[i]) by {
            vstd::arithmetic::div_mod::lemma_fundamental_div_mod(b[i] as int, 16);
        };
    }
    assert(spec_hex_decode(s) =~= b);
}

} // verus!
