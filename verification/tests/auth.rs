use draytek_vpn::auth::authenticate;
use draytek_vpn::auth::mschap::{
    challenge_hash, do_mschap_v1, do_mschap_v2, do_mschap_v2_with_peer_challenge, lm_password_hash, nt_password_hash,
    parity_key, unicode,
};
use draytek_vpn::auth::pap::build_pap_request_data;
use draytek_vpn::constants::AuthMethod;

#[test]
fn test_unicode() {
    let result = unicode(b"Pa");
    assert_eq!(result, vec![b'P', 0, b'a', 0]);
}

#[test]
fn test_nt_password_hash() {
    let hash = nt_password_hash(b"Password");
    assert_eq!(hash.len(), 16);
    let hash2 = nt_password_hash(b"Password");
    assert_eq!(hash, hash2);
}

#[test]
fn test_parity_key() {
    let input = [0xAA, 0xBB, 0xCC, 0xDD, 0xEE, 0xFF, 0x00];
    let key = parity_key(&input, 0);
    assert_eq!(key.len(), 8);
    for &b in &key {
        assert_eq!(b & 1, 1, "Parity bit should be set");
    }
}

#[test]
fn test_mschap_v2_deterministic() {
    let peer_challenge = [0x01u8; 16];
    let auth_challenge = [0x02u8; 16];
    let username = b"testuser";
    let password = b"testpass";

    let result1 = do_mschap_v2_with_peer_challenge(username, password, &auth_challenge, &peer_challenge);
    let result2 = do_mschap_v2_with_peer_challenge(username, password, &auth_challenge, &peer_challenge);

    assert_eq!(result1.len(), 49);
    assert_eq!(result1, result2);
    assert_eq!(&result1[0..16], &peer_challenge);
    assert_eq!(&result1[16..24], &[0u8; 8]);
}

#[test]
fn test_mschap_v1_length() {
    let challenge = [0xAA; 8];
    let result = do_mschap_v1(b"Password", &challenge);
    assert_eq!(result.len(), 49);
    assert_eq!(result[48], 0x01);
}

#[test]
fn test_lm_password_hash_deterministic() {
    let hash1 = lm_password_hash(b"Password");
    let hash2 = lm_password_hash(b"Password");
    assert_eq!(hash1, hash2);
    assert_eq!(hash1.len(), 16);
}

#[test]
fn test_mschap_v2_rfc2759_vectors() {
    let username = b"User";
    let password = b"clientPass";
    let auth_challenge: [u8; 16] = [
        0x5B, 0x5D, 0x7C, 0x7D, 0x7B, 0x3F, 0x2F, 0x3E, 0x3C, 0x2C, 0x60, 0x21, 0x32, 0x26, 0x26, 0x28,
    ];
    let peer_challenge: [u8; 16] = [
        0x21, 0x40, 0x23, 0x24, 0x25, 0x5E, 0x26, 0x2A, 0x28, 0x29, 0x5F, 0x2B, 0x3A, 0x33, 0x7C, 0x7E,
    ];

    let expected_challenge_hash: [u8; 8] = [0xD0, 0x2E, 0x43, 0x86, 0xBC, 0xE9, 0x12, 0x26];
    let ch = challenge_hash(&peer_challenge, &auth_challenge, username);
    assert_eq!(ch, expected_challenge_hash, "ChallengeHash mismatch");

    let expected_nt_hash: [u8; 16] = [
        0x44, 0xEB, 0xBA, 0x8D, 0x53, 0x12, 0xB8, 0xD6, 0x11, 0x47, 0x44, 0x11, 0xF5, 0x69, 0x89, 0xAE,
    ];
    let nt_hash = nt_password_hash(password);
    assert_eq!(nt_hash, expected_nt_hash, "NtPasswordHash mismatch");

    let expected_nt_response: [u8; 24] = [
        0x82, 0x30, 0x9E, 0xCD, 0x8D, 0x70, 0x8B, 0x5E, 0xA0, 0x8F, 0xAA, 0x39, 0x81, 0xCD, 0x83, 0x54, 0x42, 0x33,
        0x11, 0x4A, 0x3D, 0x85, 0xD6, 0xDF,
    ];

    let result = do_mschap_v2_with_peer_challenge(username, password, &auth_challenge, &peer_challenge);
    assert_eq!(&result[24..48], &expected_nt_response, "NT-Response mismatch");
}

#[test]
fn test_pap_request() {
    let data = build_pap_request_data("admin", "password");
    assert_eq!(data[0], 5);
    assert_eq!(&data[1..6], b"admin");
    assert_eq!(data[6], 8);
    assert_eq!(&data[7..15], b"password");
    assert_eq!(data.len(), 15);
}

#[test]
fn test_pap_empty_password() {
    let data = build_pap_request_data("user", "");
    assert_eq!(data[0], 4);
    assert_eq!(&data[1..5], b"user");
    assert_eq!(data[5], 0);
    assert_eq!(data.len(), 6);
}

// The LM hash of the RFC 2433 example password "MyPw".
#[test]
fn lm_password_hash_known_value() {
    let hash = lm_password_hash(b"MyPw");
    assert_eq!(hash, [0x75, 0xBA, 0x30, 0x19, 0x8E, 0x6D, 0x19, 0x75, 0xAA, 0xD3, 0xB4, 0x35, 0xB5, 0x14, 0x04, 0xEE]);
}

// The NT hash of "MyPw" (RFC 2433 appendix).
#[test]
fn nt_password_hash_known_value() {
    let hash = nt_password_hash(b"MyPw");
    assert_eq!(hash, [0xFC, 0x15, 0x6A, 0xF7, 0xED, 0xCD, 0x6C, 0x0E, 0xDD, 0xE3, 0x33, 0x7D, 0x42, 0x7F, 0x4E, 0xAC]);
}

// A fresh peer challenge each time, the rest laid out as for a given one.
#[test]
fn mschap_v2_layout_with_random_challenge() {
    let auth_challenge = [0x02u8; 16];
    let r = do_mschap_v2(b"u", b"p", &auth_challenge);
    assert_eq!(r.len(), 49);
    let mut peer = [0u8; 16];
    peer.copy_from_slice(&r[0..16]);
    assert_eq!(r, do_mschap_v2_with_peer_challenge(b"u", b"p", &auth_challenge, &peer));
}

// The authentication payload of each method.
#[test]
fn authenticate_by_method() {
    let pap = authenticate(AuthMethod::Pap, "admin", "pw", &[]).unwrap();
    assert_eq!(pap, build_pap_request_data("admin", "pw"));
    let v1 = authenticate(AuthMethod::MsChapV1, "admin", "Password", &[0xAA; 8]).unwrap();
    assert_eq!(v1, do_mschap_v1(b"Password", &[0xAA; 8]));
    let v2 = authenticate(AuthMethod::MsChapV2, "admin", "pw", &[0x02; 16]).unwrap();
    assert_eq!(v2.len(), 49);
}

#[test]
fn lm_hash_ignores_ascii_letter_case() {
    assert_eq!(lm_password_hash(b"Password"), lm_password_hash(b"PASSWORD"));
    assert_eq!(lm_password_hash(b"my pw 1!"), lm_password_hash(b"MY PW 1!"));
    assert_ne!(lm_password_hash(b"Password"), lm_password_hash(b"Passw0rd"));
}

#[test]
fn lm_hash_counts_14_bytes() {
    assert_eq!(lm_password_hash(b"ABCDEFGHIJKLMNOPQ"), lm_password_hash(b"ABCDEFGHIJKLMN"));
    assert_ne!(lm_password_hash(b"ABCDEFGHIJKLM"), lm_password_hash(b"ABCDEFGHIJKLMN"));
}
