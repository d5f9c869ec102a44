use ed25519_dalek::{Signer, SigningKey, VerifyingKey};
use inheritance_plans::signature::{verify_key_signature, verify_ping_signature};
use stellar_strkey::ed25519::PublicKey;

fn signer() -> SigningKey {
    SigningKey::from_bytes(&[7u8; 32])
}

fn address(key: &SigningKey) -> String {
    PublicKey(key.verifying_key().to_bytes()).to_string().as_str().to_string()
}

fn sign(key: &SigningKey, message: &str) -> String {
    hex::encode(key.sign(message.as_bytes()).to_bytes())
}

#[test]
fn a_signature_of_the_owner_holds() {
    let key = signer();
    let signature = sign(&key, "still here \u{2764}");
    assert!(verify_ping_signature(&address(&key), &signature, "still here \u{2764}"));
}

#[test]
fn a_signature_holds_for_its_message_only() {
    let key = signer();
    let signature = sign(&key, "ping");
    assert!(!verify_ping_signature(&address(&key), &signature, "pong"));
    assert!(!verify_ping_signature(&address(&key), &signature, ""));
}

#[test]
fn a_signature_holds_for_its_signer_only() {
    let other = SigningKey::from_bytes(&[8u8; 32]);
    let signature = sign(&signer(), "ping");
    assert!(!verify_ping_signature(&address(&other), &signature, "ping"));
}

#[test]
fn digits_of_either_case_spell_the_same_signature() {
    let key = signer();
    let lower = sign(&key, "ping");
    let upper = lower.to_uppercase();
    assert_ne!(lower, upper);
    assert!(verify_ping_signature(&address(&key), &upper, "ping"));
    assert!(!verify_ping_signature(&address(&key), &upper, "pong"));
}

#[test]
fn malformed_signatures_are_refused() {
    let key = signer();
    let owner = address(&key);
    let signature = sign(&key, "ping");
    assert!(!verify_ping_signature(&owner, "", "ping"));
    assert!(!verify_ping_signature(&owner, &signature[1..], "ping"));
    assert!(!verify_ping_signature(&owner, &signature[2..], "ping"));
    assert!(!verify_ping_signature(&owner, &format!("{}00", signature), "ping"));
    assert!(!verify_ping_signature(&owner, &format!("zz{}", &signature[2..]), "ping"));
    assert!(!verify_ping_signature(&owner, &format!("0x{}", &signature[2..]), "ping"));
}

#[test]
fn malformed_owners_are_refused() {
    let key = signer();
    let owner = address(&key);
    let signature = sign(&key, "ping");
    assert_eq!(owner.len(), 56);
    assert!(owner.starts_with('G'));
    assert!(!verify_ping_signature("", &signature, "ping"));
    assert!(!verify_ping_signature(&owner[..55], &signature, "ping"));
    assert!(!verify_ping_signature(&owner.to_lowercase(), &signature, "ping"));
    assert!(!verify_ping_signature(&format!("{} ", owner), &signature, "ping"));
    let swapped = format!("GA{}", &owner[2..]);
    if swapped != owner {
        assert!(!verify_ping_signature(&swapped, &signature, "ping"));
    }
}

#[test]
fn bytes_off_the_curve_are_no_key() {
    let key = signer();
    let signature = sign(&key, "ping");
    assert!(verify_key_signature(&key.verifying_key().to_bytes(), &signature, "ping"));
    let mut off_curve: [u8; 32] = [0u8; 32];
    off_curve[0] = 2;
    assert!(VerifyingKey::from_bytes(&off_curve).is_err());
    assert!(!verify_key_signature(&off_curve, &signature, "ping"));
    let owner = PublicKey(off_curve).to_string().as_str().to_string();
    assert!(!verify_ping_signature(&owner, &signature, "ping"));
}

#[test]
fn what_a_key_signs_holds_under_it() {
    for seed in [0u8, 1, 42, 255] {
        let key = SigningKey::from_bytes(&[seed; 32]);
        for message in ["", "ping", "\u{0}", "\u{1f989} \u{e9}\n"] {
            let signature = sign(&key, message);
            assert_eq!(signature.len(), 128);
            assert!(verify_ping_signature(&address(&key), &signature, message));
        }
    }
}
