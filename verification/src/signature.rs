//! Whether a message was signed by the account that it names.

use ed25519_dalek::{Signature, Verifier, VerifyingKey};
use stellar_strkey::ed25519::PublicKey;
use vstd::prelude::*;
use vstd::string::*;
use vstd::utf8::encode_utf8;

verus! {

/// The thirty-two bytes of the public key that a Stellar account address spells, where the
/// text is such an address.
pub uninterp spec fn account_key(address: Seq<char>) -> Option<Seq<u8>>;

/// Whether thirty-two bytes are the encoding of a point that can serve as a public key.
pub uninterp spec fn is_public_key(key: Seq<u8>) -> bool;

/// Whether `signature` is a signature of `message` under the public key `key`.
pub uninterp spec fn is_signed(key: Seq<u8>, message: Seq<u8>, signature: Seq<u8>) -> bool;

/// What a hexadecimal digit of either case is worth.
pub open spec fn hex_value(c: char) -> Option<int> {
    if '0' <= c <= '9' {
        Some(c as int - '0' as int)
    } else if 'a' <= c <= 'f' {
        Some(c as int - 'a' as int + 10)
    } else if 'A' <= c <= 'F' {
        Some(c as int - 'A' as int + 10)
    } else {
        None
    }
}

/// Whether `s` is a sequence of pairs of hexadecimal digits.
pub open spec fn is_hex(s: Seq<char>) -> bool {
    &&& s.len() % 2 == 0
    &&& forall|i: int| 0 <= i < s.len() ==> hex_value(#[trigger] s[i]) is Some
}

/// The bytes that pairs of hexadecimal digits spell, high digit first.
pub open spec fn hex_bytes(s: Seq<char>) -> Seq<u8> {
    Seq::new(
        s.len() / 2,
        |i: int| (hex_value(s[2 * i])->0 * 16 + hex_value(s[2 * i + 1])->0) as u8,
    )
}

/// `stellar_strkey::ed25519::PublicKey::from_string` decodes an account address. The decoding
/// is a function of the text alone and is only named; an address has fifty-six characters and
/// starts with a `G`.
#[verifier::external_body]
fn strkey_from_string(address: &str) -> (key: Option<[u8; 32]>)
    ensures
        (match key {
            Some(key) => Some(key@),
            None => None,
        }) == account_key(address@),
        key is Some ==> address@.len() == 56 && address@[0] == 'G',
{
    PublicKey::from_string(address).ok().map(|key| key.0)
}

/// `VerifyingKey::from_bytes` accepts the bytes that encode a point of the curve. Which ones
/// do is a function of the bytes and is only named.
#[verifier::external_body]
fn verifying_key_from_bytes(key: &[u8; 32]) -> (accepted: bool)
    ensures
        accepted == is_public_key(key@),
{
    VerifyingKey::from_bytes(key).is_ok()
}

/// `hex::decode` gives the bytes that pairs of hexadecimal digits of either case spell, and
/// an error for every other text.
#[verifier::external_body]
fn hex_decode(s: &str) -> (bytes: Option<Vec<u8>>)
    ensures
        bytes is Some <==> is_hex(s@),
        bytes matches Some(bytes) ==> bytes@ == hex_bytes(s@),
{
    hex::decode(s).ok()
}

/// `Signature::from_slice` takes any sixty-four bytes for a signature, and nothing else.
#[verifier::external_body]
fn signature_from_slice(bytes: &[u8]) -> (signature: Option<[u8; 64]>)
    ensures
        signature is Some <==> bytes@.len() == 64,
        signature matches Some(signature) ==> signature@ == bytes@,
{
    Signature::from_slice(bytes).ok().map(|signature| signature.to_bytes())
}

/// `VerifyingKey::verify` tells whether a signature of a message holds under a key. The
/// verdict is a function of the key, the message and the signature and is only named.
#[verifier::external_body]
fn verifying_key_verify(key: &[u8; 32], message: &[u8], signature: &[u8; 64]) -> (holds: bool)
    requires
        is_public_key(key@),
    ensures
        holds == is_signed(key@, message@, signature@),
{
    match VerifyingKey::from_bytes(key) {
        Ok(key) => key.verify(message, &Signature::from_bytes(signature)).is_ok(),
        Err(_) => false,
    }
}

/// Whether `signature` spells, in hexadecimal, a signature of `message` under `key`.
pub open spec fn signed_with_key(
    key: Seq<u8>,
    signature: Seq<char>,
    message: Seq<char>,
) -> bool {
    &&& is_public_key(key)
    &&& is_hex(signature)
    &&& hex_bytes(signature).len() == 64
    &&& is_signed(key, encode_utf8(message), hex_bytes(signature))
}

/// Whether `signature` spells, in hexadecimal, a signature of `message` by the account
/// `owner`.
pub open spec fn signed_by_owner(
    owner: Seq<char>,
    signature: Seq<char>,
    message: Seq<char>,
) -> bool {
    match account_key(owner) {
        Some(key) => signed_with_key(key, signature, message),
        None => false,
    }
}

/// Whether `message` was signed with `key`: false as well where the key is no public key, or
/// the signature not sixty-four bytes in hexadecimal.
pub fn verify_key_signature(key: &[u8; 32], signature: &str, message: &str) -> (r: bool)
    ensures
        r == signed_with_key(key@, signature@, message@),
{
    if !verifying_key_from_bytes(key) {
        return false;
    }
    let signature_bytes = match hex_decode(signature) {
        Some(bytes) => bytes,
        None => return false,
    };
    let signature = match signature_from_slice(signature_bytes.as_slice()) {
        Some(signature) => signature,
        None => return false,
    };
    verifying_key_verify(key, message.as_bytes(), &signature)
}

/// Whether `message` was signed by the account `owner`: false as well where any of the texts
/// cannot be decoded.
pub fn verify_ping_signature(owner: &str, signature: &str, message: &str) -> (r: bool)
    ensures
        r == signed_by_owner(owner@, signature@, message@),
        r ==> owner@.len() == 56 && owner@[0] == 'G' && signature@.len() == 128,
{
    match strkey_from_string(owner) {
        Some(key) => verify_key_signature(&key, signature, message),
        None => false,
    }
}

/// Digits of either case spell the same signature: what counts is what each digit is worth.
pub proof fn law_signature_case(owner: Seq<char>, a: Seq<char>, b: Seq<char>, message: Seq<char>)
    requires
        a.len() == b.len(),
        forall|i: int| 0 <= i < a.len() ==> hex_value(#[trigger] a[i]) == hex_value(b[i]),
    ensures
        signed_by_owner(owner, a, message) == signed_by_owner(owner, b, message),
{
    assert(is_hex(a) == is_hex(b)) by {
        if is_hex(a) {
            assert forall|i: int| 0 <= i < b.len() implies hex_value(#[trigger] b[i]) is Some by {
                assert(hex_value(a[i]) is Some);
            }
        }
        if is_hex(b) {
            assert forall|i: int| 0 <= i < a.len() implies hex_value(#[trigger] a[i]) is Some by {
                assert(hex_value(b[i]) is Some);
            }
        }
    }
    assert(hex_bytes(a) == hex_bytes(b));
}

/// The hexadecimal digit for `value`.
pub open spec fn hex_digit(value: int) -> char {
    if value < 10 {
        ('0' as int + value) as char
    } else {
        ('a' as int + value - 10) as char
    }
}

/// The bytes as pairs of hexadecimal digits, high digit first.
pub open spec fn hex_text(bytes: Seq<u8>) -> Seq<char> {
    Seq::new(
        2 * bytes.len(),
        |i: int|
            if i % 2 == 0 {
                hex_digit(bytes[i / 2] as int / 16)
            } else {
                hex_digit(bytes[i / 2] as int % 16)
            },
    )
}

/// Bytes that are written in hexadecimal are read as the same bytes.
pub proof fn law_hex_round_trip(bytes: Seq<u8>)
    ensures
        is_hex(hex_text(bytes)),
        hex_bytes(hex_text(bytes)) == bytes,
{
    let text = hex_text(bytes);
    assert forall|i: int| 0 <= i < text.len() implies hex_value(#[trigger] text[i]) == Some(
        if i % 2 == 0 {
            bytes[i / 2] as int / 16
        } else {
            bytes[i / 2] as int % 16
        },
    ) by {}
    assert forall|i: int| 0 <= i < bytes.len() implies #[trigger] hex_bytes(text)[i]
        == bytes[i] by {
        assert((2 * i) % 2 == 0 && (2 * i) / 2 == i && (2 * i + 1) % 2 == 1 && (2 * i + 1) / 2
            == i);
        assert(hex_value(text[2 * i]) == Some(bytes[i] as int / 16));
        assert(hex_value(text[2 * i + 1]) == Some(bytes[i] as int % 16));
    }
    assert(hex_bytes(text) =~= bytes);
}

/// A ping passes whose signature, written in hexadecimal, holds for its message under the public
/// key that the account address spells; so it is for every message, the empty one too.
pub proof fn law_holding_signature_passes(
    owner: Seq<char>,
    key: Seq<u8>,
    signature: Seq<u8>,
    message: Seq<char>,
)
    requires
        account_key(owner) == Some(key),
        is_public_key(key),
        signature.len() == 64,
        is_signed(key, encode_utf8(message), signature),
    ensures
        signed_by_owner(owner, hex_text(signature), message),
{
    law_hex_round_trip(signature);
}

/// Whether `c` is the hexadecimal digit for `value`, of either case.
pub open spec fn stands_for(c: char, value: int) -> bool {
    if value < 10 {
        c as int == 48 + value
    } else {
        c as int == 55 + value || c as int == 87 + value
    }
}

/// A ping passes where the owner spells the public key of an account, the signature spells
/// sixty-four bytes, two hexadecimal digits of either case for each, and these hold for the
/// message under that key; and only there.
pub proof fn law_signature(owner: Seq<char>, signature: Seq<char>, message: Seq<char>)
    ensures
        signed_by_owner(owner, signature, message) <==> exists|key: Seq<u8>, bytes: Seq<u8>|
            {
                &&& account_key(owner) == Some(key)
                &&& is_public_key(key)
                &&& bytes.len() == 64
                &&& signature.len() == 128
                &&& forall|i: int|
                    0 <= i < 64 ==> stands_for(signature[2 * i], #[trigger] bytes[i] as int / 16)
                        && stands_for(signature[2 * i + 1], bytes[i] as int % 16)
                &&& #[trigger] is_signed(key, encode_utf8(message), bytes)
            },
{
    if signed_by_owner(owner, signature, message) {
        let key = account_key(owner)->0;
        let bytes = hex_bytes(signature);
        assert(is_signed(key, encode_utf8(message), bytes));
        assert forall|i: int| 0 <= i < 64 implies stands_for(
            signature[2 * i],
            #[trigger] bytes[i] as int / 16,
        ) && stands_for(signature[2 * i + 1], bytes[i] as int % 16) by {
            assert(hex_value(signature[2 * i]) is Some);
            assert(hex_value(signature[2 * i + 1]) is Some);
        }
    }
    if exists|key: Seq<u8>, bytes: Seq<u8>|
        {
            &&& account_key(owner) == Some(key)
            &&& is_public_key(key)
            &&& bytes.len() == 64
            &&& signature.len() == 128
            &&& forall|i: int|
                0 <= i < 64 ==> stands_for(signature[2 * i], #[trigger] bytes[i] as int / 16)
                    && stands_for(signature[2 * i + 1], bytes[i] as int % 16)
            &&& #[trigger] is_signed(key, encode_utf8(message), bytes)
        } {
        let (key, bytes) = choose|key: Seq<u8>, bytes: Seq<u8>|
            {
                &&& account_key(owner) == Some(key)
                &&& is_public_key(key)
                &&& bytes.len() == 64
                &&& signature.len() == 128
                &&& forall|i: int|
                    0 <= i < 64 ==> stands_for(signature[2 * i], #[trigger] bytes[i] as int / 16)
                        && stands_for(signature[2 * i + 1], bytes[i] as int % 16)
                &&& #[trigger] is_signed(key, encode_utf8(message), bytes)
            };
        assert forall|k: int| 0 <= k < signature.len() implies hex_value(
            #[trigger] signature[k],
        ) is Some by {
            let byte = bytes[k / 2];
            if k % 2 == 0 {
                assert(stands_for(signature[2 * (k / 2)], byte as int / 16));
                assert(k == 2 * (k / 2));
            } else {
                assert(stands_for(signature[2 * (k / 2) + 1], byte as int % 16));
                assert(k == 2 * (k / 2) + 1);
            }
        }
        assert forall|i: int| 0 <= i < 64 implies #[trigger] hex_bytes(signature)[i]
            == bytes[i] by {
            let byte = bytes[i];
            assert(stands_for(signature[2 * i], byte as int / 16));
            assert(stands_for(signature[2 * i + 1], byte as int % 16));
            assert(byte as int / 16 * 16 + byte as int % 16 == byte);
        }
        assert(hex_bytes(signature) =~= bytes);
    }
}

} // verus!
