//! MS-CHAP v1 and v2 responses (RFC 2433, RFC 2759), built from MD4, SHA-1 and
//! single-block DES.
use vstd::prelude::*;
use des::cipher::{BlockEncrypt, KeyInit};
use digest::Digest;
use crate::text::{ascii_chars, is_ascii_bytes, utf8_lossy, utf8_lossy_spec};

verus! {

// ---------------------------------------------------------------------------
// Outside primitives.
// ---------------------------------------------------------------------------

/// The SHA-1 digest of a byte string.
pub uninterp spec fn sha1_spec(data: Seq<u8>) -> Seq<u8>;

/// The MD4 digest of a byte string.
pub uninterp spec fn md4_spec(data: Seq<u8>) -> Seq<u8>;

/// Single-block DES encryption of an 8-byte block under an 8-byte key.
pub uninterp spec fn des_spec(key: Seq<u8>, block: Seq<u8>) -> Seq<u8>;

/// `str::to_uppercase`.
pub uninterp spec fn uppercase_spec(s: Seq<char>) -> Seq<char>;

/// `sha1::Sha1::digest`: the 20-byte SHA-1 digest of `data`.
#[verifier::external_body]
fn sha1_digest(data: &[u8]) -> (r: Vec<u8>)
    ensures
        r@ == sha1_spec(data@),
        r@.len() == 20,
{
    sha1::Sha1::digest(data).to_vec()
}

/// `md4::Md4::digest`: the 16-byte MD4 digest of `data`.
#[verifier::external_body]
fn md4_digest(data: &[u8]) -> (r: Vec<u8>)
    ensures
        r@ == md4_spec(data@),
        r@.len() == 16,
{
    md4::Md4::digest(data).to_vec()
}

/// `des::Des` (`KeyInit::new` then `BlockEncrypt::encrypt_block`): the DES
/// encryption of one 8-byte block under an 8-byte key (the parity bits are ignored).
#[verifier::external_body]
fn des_encrypt_block(key: [u8; 8], block: [u8; 8]) -> (r: [u8; 8])
    ensures
        r@ == des_spec(key@, block@),
{
    let cipher = des::Des::new(&key.into());
    let mut b = block.into();
    cipher.encrypt_block(&mut b);
    b.into()
}

/// `rand::random`: 16 bytes from the thread-local random generator.
/// Nothing is stated of the value.
#[verifier::external_body]
fn random_challenge() -> (r: [u8; 16]) {
    rand::random::<[u8; 16]>()
}

/// Whether every character is ASCII.
pub open spec fn is_ascii_text(s: Seq<char>) -> bool {
    forall|i: int| 0 <= i < s.len() ==> (s[i] as u32) < 128
}

/// The uppercase of an ASCII character: `a`..`z` become `A`..`Z`, the rest stay.
pub open spec fn ascii_upper(c: char) -> char {
    if 'a' <= c && c <= 'z' { ((c as u32) - 32) as char } else { c }
}

/// `str::to_uppercase`: the Unicode uppercase of `s`. Of the text only this is
/// stated: on ASCII text it maps `a`..`z` to `A`..`Z` and keeps the rest, one
/// character for one, as the Unicode case mapping does.
#[verifier::external_body]
fn to_uppercase(s: &str) -> (r: String)
    ensures
        r@ == uppercase_spec(s@),
        is_ascii_text(s@) ==> r@ == s@.map_values(|c: char| ascii_upper(c)),
{
    s.to_uppercase()
}

// ---------------------------------------------------------------------------
// Specifications.
// ---------------------------------------------------------------------------

/// The 56 bits of the 7 key bytes at `offset`, as a big-endian number.
pub open spec fn bits56(k: Seq<u8>, offset: int) -> u64 {
    ((k[offset] as u64) << 48u64) | ((k[offset + 1] as u64) << 40u64) | ((k[offset + 2] as u64) << 32u64)
        | ((k[offset + 3] as u64) << 24u64) | ((k[offset + 4] as u64) << 16u64)
        | ((k[offset + 5] as u64) << 8u64) | (k[offset + 6] as u64)
}

/// Byte `i` of a DES key expanded from 56 bits: bits `7i .. 7i+7` followed by a set parity bit.
pub open spec fn key_byte(bits: u64, i: u64) -> u8 {
    ((((bits >> (49u64 - 7u64 * i)) & 0x7Fu64) << 1u64) | 1u64) as u8
}

/// The 8-byte DES key expanded from the 7 bytes of `k` at `offset`.
pub open spec fn parity_key_spec(k: Seq<u8>, offset: int) -> Seq<u8> {
    let n = bits56(k, offset);
    seq![key_byte(n, 0), key_byte(n, 1), key_byte(n, 2), key_byte(n, 3),
         key_byte(n, 4), key_byte(n, 5), key_byte(n, 6), key_byte(n, 7)]
}

/// The password as UTF-16LE of its bytes: each byte followed by a zero byte.
pub open spec fn unicode_spec(p: Seq<u8>) -> Seq<u8> {
    Seq::new(2 * p.len(), |j: int| if j % 2 == 0 { p[j / 2] } else { 0u8 })
}

/// ChallengeHash: the first 8 bytes of SHA-1(peer[..16] + auth[..16] + user name).
pub open spec fn challenge_hash_spec(peer: Seq<u8>, auth: Seq<u8>, user: Seq<u8>) -> Seq<u8> {
    sha1_spec(peer.take(16) + auth.take(16) + user).take(8)
}

/// NtPasswordHash: MD4 of the UTF-16LE password.
pub open spec fn nt_password_hash_spec(p: Seq<u8>) -> Seq<u8> {
    md4_spec(unicode_spec(p))
}

/// DES of `block` under the key expanded from the 7 bytes of `k` at `offset`.
pub open spec fn des_with(block: Seq<u8>, k: Seq<u8>, offset: int) -> Seq<u8> {
    des_spec(parity_key_spec(k, offset), block)
}

/// ChallengeResponse: the hash padded to 21 bytes gives three DES keys, each
/// encrypts the challenge, and the three blocks are concatenated.
pub open spec fn challenge_response_spec(challenge: Seq<u8>, hash: Seq<u8>) -> Seq<u8> {
    let padded = hash + seq![0u8, 0u8, 0u8, 0u8, 0u8];
    des_with(challenge, padded, 0) + des_with(challenge, padded, 7) + des_with(challenge, padded, 14)
}

/// GenerateNTResponse.
pub open spec fn nt_response_spec(auth: Seq<u8>, peer: Seq<u8>, user: Seq<u8>, pass: Seq<u8>) -> Seq<u8> {
    challenge_response_spec(challenge_hash_spec(peer, auth, user), nt_password_hash_spec(pass))
}

/// The magic string "KGS!@#$%".
pub open spec fn lm_magic() -> Seq<u8> {
    seq![0x4Bu8, 0x47u8, 0x53u8, 0x21u8, 0x40u8, 0x23u8, 0x24u8, 0x25u8]
}

/// The first 14 bytes of `s`, zero-padded to 14.
pub open spec fn pad14(s: Seq<u8>) -> Seq<u8> {
    Seq::new(14, |i: int| if i < s.len() { s[i] } else { 0u8 })
}

/// LmPasswordHash: the uppercased password, padded to 14 bytes, gives two DES
/// keys that each encrypt the magic string.
pub open spec fn lm_password_hash_spec(p: Seq<u8>) -> Seq<u8> {
    lm_hash_of_upper(vstd::utf8::encode_utf8(uppercase_spec(utf8_lossy_spec(p))))
}

/// The LM hash of the bytes of an uppercased password: padded to 14 bytes,
/// they give two DES keys that each encrypt the magic string.
pub open spec fn lm_hash_of_upper(upper: Seq<u8>) -> Seq<u8> {
    let padded = pad14(upper);
    des_with(lm_magic(), padded, 0) + des_with(lm_magic(), padded, 7)
}

/// An ASCII password's text in uppercase.
pub open spec fn ascii_upper_text(p: Seq<u8>) -> Seq<char> {
    ascii_chars(p).map_values(|c: char| ascii_upper(c))
}

/// The first 8 bytes of the challenge, zero-padded to 8.
pub open spec fn challenge8(c: Seq<u8>) -> Seq<u8> {
    Seq::new(8, |i: int| if i < c.len() { c[i] } else { 0u8 })
}

/// The 49-byte MS-CHAPv1 response: LM response, NT response, then the
/// "use NT response" flag 0x01.
pub open spec fn mschap_v1_response(pass: Seq<u8>, challenge: Seq<u8>) -> Seq<u8> {
    let c = challenge8(challenge);
    challenge_response_spec(c, lm_password_hash_spec(pass)) + challenge_response_spec(c, nt_password_hash_spec(pass)) + seq![1u8]
}

/// Eight zero bytes.
pub open spec fn zeros8() -> Seq<u8> {
    seq![0u8, 0u8, 0u8, 0u8, 0u8, 0u8, 0u8, 0u8]
}

/// The 49-byte MS-CHAPv2 response: peer challenge, 8 reserved zero bytes,
/// NT response, and a zero flags byte.
pub open spec fn mschap_v2_response(user: Seq<u8>, pass: Seq<u8>, auth: Seq<u8>, peer: Seq<u8>) -> Seq<u8> {
    peer + zeros8() + nt_response_spec(auth, peer, user, pass) + seq![0u8]
}

// ---------------------------------------------------------------------------
// Implementation.
// ---------------------------------------------------------------------------

/// Expand the 7 bytes at `offset` into an 8-byte DES key with the low (parity)
/// bit of every byte set.
pub fn parity_key(input: &[u8], offset: usize) -> (r: [u8; 8])
    requires
        offset + 7 <= input@.len(),
    ensures
        r@ == parity_key_spec(input@, offset as int),
{
    let mut key = [0u8; 8];
    let mut carry: u16 = 0;
    let b0 = input[offset] as u16;
    let b1 = input[offset + 1] as u16;
    let b2 = input[offset + 2] as u16;
    let b3 = input[offset + 3] as u16;
    let b4 = input[offset + 4] as u16;
    let b5 = input[offset + 5] as u16;
    let b6 = input[offset + 6] as u16;
    key[0] = ((carry | (b0 >> 0u16)) | 1) as u8;
    carry = b0 << 7u16;
    key[1] = ((carry | (b1 >> 1u16)) | 1) as u8;
    carry = b1 << 6u16;
    key[2] = ((carry | (b2 >> 2u16)) | 1) as u8;
    carry = b2 << 5u16;
    key[3] = ((carry | (b3 >> 3u16)) | 1) as u8;
    carry = b3 << 4u16;
    key[4] = ((carry | (b4 >> 4u16)) | 1) as u8;
    carry = b4 << 3u16;
    key[5] = ((carry | (b5 >> 5u16)) | 1) as u8;
    carry = b5 << 2u16;
    key[6] = ((carry | (b6 >> 6u16)) | 1) as u8;
    carry = b6 << 1u16;
    key[7] = (carry | 1) as u8;
    proof {
        let x0 = input@[offset as int];
        let x1 = input@[offset + 1];
        let x2 = input@[offset + 2];
        let x3 = input@[offset + 3];
        let x4 = input@[offset + 4];
        let x5 = input@[offset + 5];
        let x6 = input@[offset + 6];
        let n = bits56(input@, offset as int);
        assert(key_byte(n, 0) == ((0u16 | ((x0 as u16) >> 0u16)) | 1) as u8
            && key_byte(n, 1) == ((((x0 as u16) << 7u16) | ((x1 as u16) >> 1u16)) | 1) as u8
            && key_byte(n, 2) == ((((x1 as u16) << 6u16) | ((x2 as u16) >> 2u16)) | 1) as u8
            && key_byte(n, 3) == ((((x2 as u16) << 5u16) | ((x3 as u16) >> 3u16)) | 1) as u8
            && key_byte(n, 4) == ((((x3 as u16) << 4u16) | ((x4 as u16) >> 4u16)) | 1) as u8
            && key_byte(n, 5) == ((((x4 as u16) << 3u16) | ((x5 as u16) >> 5u16)) | 1) as u8
            && key_byte(n, 6) == ((((x5 as u16) << 2u16) | ((x6 as u16) >> 6u16)) | 1) as u8
            && key_byte(n, 7) == (((x6 as u16) << 1u16) | 1) as u8) by (bit_vector)
            requires
                n == ((x0 as u64) << 48u64) | ((x1 as u64) << 40u64) | ((x2 as u64) << 32u64)
                    | ((x3 as u64) << 24u64) | ((x4 as u64) << 16u64) | ((x5 as u64) << 8u64) | (x6 as u64),
        ;
        assert(key@ =~= parity_key_spec(input@, offset as int));
    }
    key
}

/// Convert password bytes to UTF-16LE ("unicode"): each byte followed by a zero.
pub fn unicode(input: &[u8]) -> (r: Vec<u8>)
    ensures
        r@ == unicode_spec(input@),
{
    let mut out: Vec<u8> = Vec::new();
    let mut i: usize = 0;
    while i < input.len()
        invariant
            i <= input@.len(),
            out@.len() == 2 * i,
            forall|j: int| 0 <= j < 2 * i ==> out@[j] == (if j % 2 == 0 { input@[j / 2] } else { 0u8 }),
        decreases input@.len() - i,
    {
        out.push(input[i]);
        out.push(0u8);
        i = i + 1;
    }
    assert(out@ =~= unicode_spec(input@));
    out
}

/// SHA1(peer_challenge[..16] + auth_challenge[..16] + username), first 8 bytes.
pub fn challenge_hash(peer_challenge: &[u8], auth_challenge: &[u8], username: &[u8]) -> (r: [u8; 8])
    requires
        peer_challenge@.len() >= 16,
        auth_challenge@.len() >= 16,
    ensures
        r@ == challenge_hash_spec(peer_challenge@, auth_challenge@, username@),
{
    let mut input: Vec<u8> = Vec::new();
    input.extend_from_slice(&peer_challenge[0..16]);
    input.extend_from_slice(&auth_challenge[0..16]);
    input.extend_from_slice(username);
    assert(input@ =~= peer_challenge@.take(16) + auth_challenge@.take(16) + username@);
    let digest = sha1_digest(input.as_slice());
    let mut result = [0u8; 8];
    let mut i: usize = 0;
    while i < 8
        invariant
            i <= 8,
            digest@.len() == 20,
            forall|j: int| 0 <= j < i ==> result@[j] == digest@[j],
        decreases 8 - i,
    {
        result[i] = digest[i];
        i = i + 1;
    }
    assert(result@ =~= digest@.take(8));
    result
}

/// MD4(unicode(password)), 16 bytes.
pub fn nt_password_hash(password: &[u8]) -> (r: [u8; 16])
    ensures
        r@ == nt_password_hash_spec(password@),
{
    let unicode_pass = unicode(password);
    let digest = md4_digest(unicode_pass.as_slice());
    let mut result = [0u8; 16];
    let mut i: usize = 0;
    while i < 16
        invariant
            i <= 16,
            digest@.len() == 16,
            forall|j: int| 0 <= j < i ==> result@[j] == digest@[j],
        decreases 16 - i,
    {
        result[i] = digest[i];
        i = i + 1;
    }
    assert(result@ =~= digest@);
    result
}

/// DES-encrypt `data` with the key expanded from `key_material[offset..offset+7]`.
pub fn des_encrypt(data: &[u8; 8], key_material: &[u8], offset: usize) -> (r: [u8; 8])
    requires
        offset + 7 <= key_material@.len(),
    ensures
        r@ == des_with(data@, key_material@, offset as int),
{
    let key = parity_key(key_material, offset);
    des_encrypt_block(key, *data)
}

/// ChallengeResponse: pad the hash to 21 bytes, split it into three 7-byte DES
/// keys and encrypt the 8-byte challenge with each: a 24-byte response.
pub fn challenge_response(challenge: &[u8; 8], password_hash: &[u8; 16]) -> (r: [u8; 24])
    ensures
        r@ == challenge_response_spec(challenge@, password_hash@),
{
    let mut padded = [0u8; 21];
    let mut i: usize = 0;
    while i < 16
        invariant
            i <= 16,
            forall|j: int| 0 <= j < i ==> padded@[j] == password_hash@[j],
            forall|j: int| 16 <= j < 21 ==> padded@[j] == 0u8,
        decreases 16 - i,
    {
        padded[i] = password_hash[i];
        i = i + 1;
    }
    assert(padded@ =~= password_hash@ + seq![0u8, 0u8, 0u8, 0u8, 0u8]);
    let block0 = des_encrypt(challenge, padded.as_slice(), 0);
    let block1 = des_encrypt(challenge, padded.as_slice(), 7);
    let block2 = des_encrypt(challenge, padded.as_slice(), 14);
    let mut response = [0u8; 24];
    let mut k: usize = 0;
    while k < 8
        invariant
            k <= 8,
            forall|j: int| 0 <= j < k ==> response@[j] == block0@[j],
            forall|j: int| 0 <= j < k ==> response@[8 + j] == block1@[j],
            forall|j: int| 0 <= j < k ==> response@[16 + j] == block2@[j],
        decreases 8 - k,
    {
        response[k] = block0[k];
        response[8 + k] = block1[k];
        response[16 + k] = block2[k];
        k = k + 1;
    }
    assert(response@ =~= block0@ + block1@ + block2@);
    response
}

/// GenerateNTResponse(auth_challenge, peer_challenge, username, password) =
/// ChallengeResponse(ChallengeHash(peer, auth, username), NtPasswordHash(password)).
pub fn generate_nt_response(auth_challenge: &[u8], peer_challenge: &[u8], username: &[u8], password: &[u8]) -> (r: [u8; 24])
    requires
        peer_challenge@.len() >= 16,
        auth_challenge@.len() >= 16,
    ensures
        r@ == nt_response_spec(auth_challenge@, peer_challenge@, username@, password@),
{
    let ch = challenge_hash(peer_challenge, auth_challenge, username);
    let pwd_hash = nt_password_hash(password);
    challenge_response(&ch, &pwd_hash)
}

/// DES-encrypt the magic string "KGS!@#$%" with key material from the password.
pub fn des_hash(password: &[u8], offset: usize) -> (r: [u8; 8])
    requires
        offset + 7 <= password@.len(),
    ensures
        r@ == des_with(lm_magic(), password@, offset as int),
{
    let magic: [u8; 8] = [0x4B, 0x47, 0x53, 0x21, 0x40, 0x23, 0x24, 0x25];
    assert(magic@ =~= lm_magic());
    des_encrypt(&magic, password, offset)
}

/// LM password hash: uppercase the password, pad it to 14 bytes, split it into
/// two 7-byte DES keys.
pub fn lm_password_hash(password: &[u8]) -> (r: [u8; 16])
    ensures
        r@ == lm_password_hash_spec(password@),
        is_ascii_bytes(password@) ==> r@ == lm_hash_of_upper(vstd::utf8::encode_utf8(ascii_upper_text(password@))),
{
    let text = utf8_lossy(password);
    proof {
        if is_ascii_bytes(password@) {
            assert forall|i: int| 0 <= i < text@.len() implies ((#[trigger] text@[i]) as u32) < 128 by {
                assert(text@[i] == password@[i] as char);
            }
        }
    }
    let upper = to_uppercase(text.as_str());
    let upper_bytes = upper.as_str().as_bytes();
    let mut padded = [0u8; 14];
    let mut i: usize = 0;
    while i < 14 && i < upper_bytes.len()
        invariant
            i <= 14,
            i <= upper_bytes@.len(),
            forall|j: int| 0 <= j < i ==> padded@[j] == upper_bytes@[j],
            forall|j: int| i <= j < 14 ==> padded@[j] == 0u8,
        decreases 14 - i,
    {
        padded[i] = upper_bytes[i];
        i = i + 1;
    }
    assert(padded@ =~= pad14(upper_bytes@));
    let h0 = des_hash(padded.as_slice(), 0);
    let h1 = des_hash(padded.as_slice(), 7);
    let mut hash = [0u8; 16];
    let mut k: usize = 0;
    while k < 8
        invariant
            k <= 8,
            forall|j: int| 0 <= j < k ==> hash@[j] == h0@[j],
            forall|j: int| 0 <= j < k ==> hash@[8 + j] == h1@[j],
        decreases 8 - k,
    {
        hash[k] = h0[k];
        hash[8 + k] = h1[k];
        k = k + 1;
    }
    assert(hash@ =~= h0@ + h1@);
    hash
}

/// MS-CHAPv1 response (49 bytes): LM response, NT response, then 0x01.
pub fn do_mschap_v1(password: &[u8], challenge: &[u8]) -> (r: Vec<u8>)
    ensures
        r@ == mschap_v1_response(password@, challenge@),
        r@.len() == 49,
        r@.subrange(0, 24) == challenge_response_spec(challenge8(challenge@), lm_password_hash_spec(password@)),
        r@.subrange(24, 48) == challenge_response_spec(challenge8(challenge@), md4_spec(unicode_spec(password@))),
        r@[48] == 1u8,
{
    let mut challenge_8 = [0u8; 8];
    let mut i: usize = 0;
    while i < 8 && i < challenge.len()
        invariant
            i <= 8,
            i <= challenge@.len(),
            forall|j: int| 0 <= j < i ==> challenge_8@[j] == challenge@[j],
            forall|j: int| i <= j < 8 ==> challenge_8@[j] == 0u8,
        decreases 8 - i,
    {
        challenge_8[i] = challenge[i];
        i = i + 1;
    }
    assert(challenge_8@ =~= challenge8(challenge@));
    let lm_hash = lm_password_hash(password);
    let nt_hash = nt_password_hash(password);
    let lm_response = challenge_response(&challenge_8, &lm_hash);
    let nt_response = challenge_response(&challenge_8, &nt_hash);
    let mut result: Vec<u8> = Vec::new();
    result.extend_from_slice(lm_response.as_slice());
    result.extend_from_slice(nt_response.as_slice());
    result.push(0x01u8);
    assert(result@ =~= mschap_v1_response(password@, challenge@));
    assert(result@.subrange(0, 24) =~= lm_response@);
    assert(result@.subrange(24, 48) =~= nt_response@);
    result
}

/// MS-CHAPv2 response with an explicit peer challenge (49 bytes): peer
/// challenge, 8 reserved zeros, NT response, flags 0.
pub fn do_mschap_v2_with_peer_challenge(username: &[u8], password: &[u8], auth_challenge: &[u8], peer_challenge: &[u8; 16]) -> (r: Vec<u8>)
    requires
        auth_challenge@.len() >= 16,
    ensures
        r@ == mschap_v2_response(username@, password@, auth_challenge@, peer_challenge@),
        r@.len() == 49,
{
    let nt_response = generate_nt_response(auth_challenge, peer_challenge.as_slice(), username, password);
    let mut result: Vec<u8> = Vec::new();
    result.extend_from_slice(peer_challenge.as_slice());
    let zeros = [0u8; 8];
    result.extend_from_slice(zeros.as_slice());
    result.extend_from_slice(nt_response.as_slice());
    result.push(0u8);
    assert(zeros@ =~= zeros8());
    assert(result@ =~= mschap_v2_response(username@, password@, auth_challenge@, peer_challenge@));
    result
}

/// MS-CHAPv2 response with a fresh random peer challenge, which makes up the
/// first 16 bytes of the result.
pub fn do_mschap_v2(username: &[u8], password: &[u8], auth_challenge: &[u8]) -> (r: Vec<u8>)
    requires
        auth_challenge@.len() >= 16,
    ensures
        r@.len() == 49,
        r@ == mschap_v2_response(username@, password@, auth_challenge@, r@.take(16)),
{
    let peer_challenge = random_challenge();
    let r = do_mschap_v2_with_peer_challenge(username, password, auth_challenge, &peer_challenge);
    assert(r@.take(16) =~= peer_challenge@);
    r
}

/// For an ASCII password the LM hash depends only on the password in
/// uppercase: passwords that differ only in the case of their letters have the
/// same LM hash.
pub proof fn lemma_lm_hash_ignores_ascii_case(a: Seq<u8>, b: Seq<u8>)
    requires
        is_ascii_bytes(a),
        is_ascii_bytes(b),
        ascii_upper_text(a) == ascii_upper_text(b),
    ensures
        lm_hash_of_upper(vstd::utf8::encode_utf8(ascii_upper_text(a)))
            == lm_hash_of_upper(vstd::utf8::encode_utf8(ascii_upper_text(b))),
{
}

/// Only the first 14 bytes of the uppercased password count in the LM hash:
/// a longer password hashes as its first 14 bytes do.
pub proof fn lemma_lm_hash_uses_14_bytes(upper: Seq<u8>)
    requires
        upper.len() > 14,
    ensures
        lm_hash_of_upper(upper) == lm_hash_of_upper(upper.take(14)),
{
    assert(pad14(upper) =~= pad14(upper.take(14)));
}

/// The MS-CHAPv1 response (RFC 2433) is laid out as: the LM challenge
/// response (from the uppercased password's LM hash), then the NT challenge
/// response (from MD4 of the password in UTF-16LE), both over the first 8
/// challenge bytes, then the flag 1 that tells the server to use the NT one.
pub proof fn lemma_mschap_v1_layout(pass: Seq<u8>, challenge: Seq<u8>)
    ensures
        ({
            let r = mschap_v1_response(pass, challenge);
            let c = challenge8(challenge);
            let lm = challenge_response_spec(c, lm_password_hash_spec(pass));
            let nt = challenge_response_spec(c, md4_spec(unicode_spec(pass)));
            &&& r.len() == lm.len() + nt.len() + 1
            &&& r.take(lm.len() as int) == lm
            &&& r.subrange(lm.len() as int, (lm.len() + nt.len()) as int) == nt
            &&& r.last() == 1u8
        }),
{
    let r = mschap_v1_response(pass, challenge);
    let c = challenge8(challenge);
    let lm = challenge_response_spec(c, lm_password_hash_spec(pass));
    let nt = challenge_response_spec(c, md4_spec(unicode_spec(pass)));
    assert(r.take(lm.len() as int) =~= lm);
    assert(r.subrange(lm.len() as int, (lm.len() + nt.len()) as int) =~= nt);
}

} // verus!
