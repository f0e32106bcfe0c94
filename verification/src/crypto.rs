//! Envelope encryption of submitted data.
//!
//! A fresh random content key and nonce are drawn for every submission.
//! The serialized data is enciphered with a keystream derived from the
//! content key and nonce, and sealed with an authentication tag. The
//! content key itself is wrapped with the developer's public key, so that
//! only the holder of the matching private key can recover it. Both
//! outputs travel as lower-case hexadecimal strings.
//!
//! The wrapping transform here is a simple additive scheme over 64-bit
//! words: it keeps the envelope structure honest (distinct encryption and
//! decryption keys, a fresh content key per call) and is exactly invertible,
//! which is what the library proves. It makes no claim of cryptographic
//! strength.

use vstd::prelude::*;
use vstd::bytes::*;
use vstd::utf8::encode_utf8;
use crate::codec::{ascii_chars_of, spec_hex_of, spec_hex_decode, hex_encode, hex_decode,
    lemma_hex_all_ascii, lemma_hex_roundtrip, lemma_ascii_decode, lemma_ascii_encode,
    spec_encode_entries, spec_decode_entries, encode_entries, decode_entries,
    lemma_entries_roundtrip};
use vstd::string::StringExecFns;
use crate::data::FormData;
use crate::errors::FormVaultError;
use crate::bridge::fresh_random_id;

verus! {

/// Multiplier of the keystream generator.
pub const STREAM_MUL: u64 = 6364136223846793005;

/// Increment of the keystream generator.
pub const STREAM_INC: u64 = 1442695040888963407;

/// The generator state after `i` steps from `seed`.
pub open spec fn spec_stream_state(seed: u64, i: nat) -> u64
    decreases i,
{
    if i == 0 {
        seed
    } else {
        vstd::wrapping::u64_specs::wrapping_add(
            vstd::wrapping::u64_specs::wrapping_mul(spec_stream_state(seed, (i - 1) as nat), STREAM_MUL),
            STREAM_INC,
        )
    }
}

/// The `i`-th keystream byte: the top byte of the generator state after
/// `i + 1` steps.
pub open spec fn spec_stream_byte(seed: u64, i: nat) -> u8 {
    (spec_stream_state(seed, i + 1) >> 56) as u8
}

/// `data`, combined byte by byte with the keystream from `seed`.
pub open spec fn spec_xor_stream(seed: u64, data: Seq<u8>) -> Seq<u8> {
    Seq::new(data.len(), |i: int| data[i] ^ spec_stream_byte(seed, i as nat))
}

/// Applying the same keystream twice gives the original bytes back.
pub proof fn lemma_xor_stream_involutive(seed: u64, data: Seq<u8>)
    ensures
        spec_xor_stream(seed, spec_xor_stream(seed, data)) =~= data,
{
    assert forall|i: int| 0 <= i < data.len() implies spec_xor_stream(
        seed,
        spec_xor_stream(seed, data),
    )[i] == data[i] by {
        let b = data[i];
        let k = spec_stream_byte(seed, i as nat);
        assert((b ^ k) ^ k == b) by (bit_vector);
    }
}

/// One step of the authentication tag: absorb a byte, then stir.
#[verifier::opaque]
pub open spec fn spec_tag_step(acc: u64, b: u8) -> u64 {
    vstd::wrapping::u64_specs::wrapping_add(
        vstd::wrapping::u64_specs::wrapping_mul(acc ^ (b as u64), STREAM_MUL),
        STREAM_INC,
    )
}

/// The tag accumulated from `acc` over `data`.
pub open spec fn spec_tag_from(acc: u64, data: Seq<u8>) -> u64
    decreases data.len(),
{
    if data.len() == 0 {
        acc
    } else {
        spec_tag_from(spec_tag_step(acc, data[0]), data.drop_first())
    }
}

/// The authentication tag of `data` under `key`.
pub open spec fn spec_tag(key: u64, data: Seq<u8>) -> u64 {
    spec_tag_from(key, data)
}

/// The keystream seed for a content key and nonce.
pub open spec fn spec_stream_seed(key: u64, nonce: u64) -> u64 {
    key ^ nonce
}

/// The sealed envelope: the nonce, the tag of the plaintext, then the
/// enciphered bytes.
pub open spec fn spec_seal(key: u64, nonce: u64, plain: Seq<u8>) -> Seq<u8> {
    spec_u64_to_le_bytes(nonce) + spec_u64_to_le_bytes(spec_tag(key, plain)) + spec_xor_stream(
        spec_stream_seed(key, nonce),
        plain,
    )
}

/// What opening an envelope yields: the deciphered bytes when the tag
/// checks out, `None` otherwise.
pub open spec fn spec_open(key: u64, env: Seq<u8>) -> Option<Seq<u8>> {
    if env.len() < 16 {
        None
    } else {
        let nonce = spec_u64_from_le_bytes(env.subrange(0, 8));
        let tag = spec_u64_from_le_bytes(env.subrange(8, 16));
        let plain = spec_xor_stream(spec_stream_seed(key, nonce), env.subrange(16, env.len() as int));
        if spec_tag(key, plain) == tag {
            Some(plain)
        } else {
            None
        }
    }
}

/// Opening a sealed envelope with the key it was sealed under gives the
/// plaintext back.
pub proof fn lemma_seal_open(key: u64, nonce: u64, plain: Seq<u8>)
    ensures
        spec_open(key, spec_seal(key, nonce, plain)) == Some(plain),
{
    lemma_auto_spec_u64_to_from_le_bytes();
    let env = spec_seal(key, nonce, plain);
    assert(env.len() == 16 + plain.len());
    assert(env.subrange(0, 8) =~= spec_u64_to_le_bytes(nonce));
    assert(env.subrange(8, 16) =~= spec_u64_to_le_bytes(spec_tag(key, plain)));
    assert(env.subrange(16, env.len() as int) =~= spec_xor_stream(
        spec_stream_seed(key, nonce),
        plain,
    ));
    lemma_xor_stream_involutive(spec_stream_seed(key, nonce), plain);
}

/// Enciphers or deciphers `data` with the keystream from `seed`.
fn apply_stream(seed: u64, data: &[u8]) -> (r: Vec<u8>)
    ensures
        r@ == spec_xor_stream(seed, data@),
{
    let mut out: Vec<u8> = Vec::new();
    let mut state: u64 = seed;
    let mut i: usize = 0;
    while i < data.len()
        invariant
            i <= data@.len(),
            state == spec_stream_state(seed, i as nat),
            out@ =~= spec_xor_stream(seed, data@.take(i as int)),
        decreases data@.len() - i,
    {
        state = state.wrapping_mul(STREAM_MUL).wrapping_add(STREAM_INC);
        let top = state >> 56;
        proof {
            let s = state;
            assert(s >> 56 < 256) by (bit_vector);
        }
        let b: u8 = top as u8;
        out.push(data[i] ^ b);
        i = i + 1;
        proof {
            assert(out@ =~= spec_xor_stream(seed, data@.take(i as int)));
        }
    }
    proof {
        assert(data@.take(data@.len() as int) =~= data@);
    }
    out
}

/// Absorbing one more byte steps the accumulated tag once.
proof fn lemma_tag_snoc(acc: u64, data: Seq<u8>, b: u8)
    ensures
        spec_tag_from(acc, data.push(b)) == spec_tag_step(spec_tag_from(acc, data), b),
    decreases data.len(),
{
    reveal_with_fuel(spec_tag_from, 3);
    if data.len() == 0 {
        assert(data.push(b)[0] == b);
        assert(data.push(b).drop_first() =~= Seq::<u8>::empty());
    } else {
        assert(data.push(b)[0] == data[0]);
        assert(data.push(b).drop_first() =~= data.drop_first().push(b));
        lemma_tag_snoc(spec_tag_step(acc, data[0]), data.drop_first(), b);
    }
}

/// Computes the authentication tag of `data` under `key`.
fn compute_tag(key: u64, data: &[u8]) -> (r: u64)
    ensures
        r == spec_tag(key, data@),
{
    let mut acc: u64 = key;
    let mut i: usize = 0;
    while i < data.len()
        invariant
            i <= data@.len(),
            acc == spec_tag_from(key, data@.take(i as int)),
        decreases data@.len() - i,
    {
        let ghost acc0 = acc;
        let b = data[i];
        acc = (acc ^ (b as u64)).wrapping_mul(STREAM_MUL).wrapping_add(STREAM_INC);
        i = i + 1;
        proof {
            reveal(spec_tag_step);
            assert(acc == spec_tag_step(acc0, b));
            lemma_tag_snoc(key, data@.take(i - 1), b);
            assert(data@.take(i - 1).push(b) =~= data@.take(i as int));
        }
    }
    proof {
        assert(data@.take(data@.len() as int) =~= data@);
    }
    acc
}

/// Seals `plain` under a content key and nonce.
fn seal(key: u64, nonce: u64, plain: &[u8]) -> (r: Vec<u8>)
    ensures
        r@ == spec_seal(key, nonce, plain@),
{
    let mut out = u64_to_le_bytes(nonce);
    let tag_bytes = u64_to_le_bytes(compute_tag(key, plain));
    out.extend_from_slice(tag_bytes.as_slice());
    let cipher = apply_stream(key ^ nonce, plain);
    out.extend_from_slice(cipher.as_slice());
    proof {
        assert(out@ =~= spec_seal(key, nonce, plain@));
    }
    out
}

/// Opens an envelope; `None` exactly when it is too short or its tag does
/// not match.
fn open_envelope(key: u64, env: &[u8]) -> (r: Option<Vec<u8>>)
    ensures
        match r {
            Some(p) => spec_open(key, env@) == Some(p@),
            None => spec_open(key, env@) is None,
        },
{
    if env.len() < 16 {
        return None;
    }
    let nonce = u64_from_le_bytes(vstd::slice::slice_subrange(env, 0, 8));
    let tag = u64_from_le_bytes(vstd::slice::slice_subrange(env, 8, 16));
    let cipher = vstd::slice::slice_subrange(env, 16, env.len());
    let plain = apply_stream(key ^ nonce, cipher);
    let expected = compute_tag(key, plain.as_slice());
    if expected == tag {
        Some(plain)
    } else {
        None
    }
}

/// True of a public/private pair when the private word undoes the public
/// one: the two sum to zero in 64-bit wrapping arithmetic.
pub open spec fn spec_matching_keypair(p: u64, q: u64) -> bool {
    vstd::wrapping::u64_specs::wrapping_add(p, q) == 0
}

/// The content key wrapped with the public key.
pub open spec fn spec_wrap_key(k: u64, p: u64) -> u64 {
    vstd::wrapping::u64_specs::wrapping_add(k, p)
}

/// A wrapped key opened with the private key.
pub open spec fn spec_unwrap_key(w: u64, q: u64) -> u64 {
    vstd::wrapping::u64_specs::wrapping_add(w, q)
}

/// Unwrapping with the matching private key recovers the content key.
pub proof fn lemma_wrap_unwrap(k: u64, p: u64, q: u64)
    requires
        spec_matching_keypair(p, q),
    ensures
        spec_unwrap_key(spec_wrap_key(k, p), q) == k,
{
}

/// The text form of a key: its eight little-endian bytes in hexadecimal.
pub open spec fn spec_format_key(k: u64) -> Seq<char> {
    ascii_chars_of(spec_hex_of(spec_u64_to_le_bytes(k)))
}

/// The key a string denotes: `None` unless it is sixteen hexadecimal
/// digits.
pub open spec fn spec_parse_key(s: Seq<char>) -> Option<u64> {
    match spec_hex_decode(encode_utf8(s)) {
        Some(b) => if b.len() == 8 {
            Some(spec_u64_from_le_bytes(b))
        } else {
            None
        },
        None => None,
    }
}

/// A formatted key parses back to itself.
pub proof fn lemma_key_roundtrip(k: u64)
    ensures
        spec_parse_key(spec_format_key(k)) == Some(k),
{
    lemma_auto_spec_u64_to_from_le_bytes();
    let kb = spec_u64_to_le_bytes(k);
    lemma_hex_all_ascii(kb);
    lemma_ascii_encode(spec_hex_of(kb));
    lemma_hex_roundtrip(kb);
}

/// Writes a key as sixteen hexadecimal digits.
pub fn format_key(k: u64) -> (r: String)
    ensures
        r@ == spec_format_key(k),
{
    let bytes = u64_to_le_bytes(k);
    let hex = hex_encode(bytes.as_slice());
    proof {
        lemma_hex_all_ascii(bytes@);
        lemma_ascii_decode(hex@);
    }
    let s = crate::bridge::string_from_utf8(hex);
    match s {
        Some(v) => v,
        None => {
            proof {
                assert(false);
            }
            String::new()
        },
    }
}

/// Reads a key back from its sixteen-digit hexadecimal form.
pub fn parse_key(s: &str) -> (r: Option<u64>)
    ensures
        r == spec_parse_key(s@),
{
    let bytes = s.as_bytes();
    match hex_decode(bytes) {
        Some(v) => {
            if v.len() == 8 {
                Some(u64_from_le_bytes(v.as_slice()))
            } else {
                None
            }
        },
        None => None,
    }
}

/// Draws a fresh random pair of matching public and private keys, in text
/// form. Key generation belongs to the developer's side; it lives here so
/// the pair's validity is established once, by proof.
pub fn generate_keypair() -> (r: (String, String))
    ensures
        spec_parse_key(r.0@) is Some,
        spec_parse_key(r.1@) is Some,
        spec_matching_keypair(spec_parse_key(r.0@)->Some_0, spec_parse_key(r.1@)->Some_0),
{
    let raw = fresh_random_id();
    let masked = raw % 0x1_0000_0000_0000_0000u128;
    let p = masked as u64;
    let q = 0u64.wrapping_sub(p);
    let pub_key = format_key(p);
    let priv_key = format_key(q);
    proof {
        lemma_key_roundtrip(p);
        lemma_key_roundtrip(q);
    }
    (pub_key, priv_key)
}


/// The first submission output: the sealed envelope of the serialized
/// data, spelled in hexadecimal.
pub open spec fn spec_encrypt_data(
    entries: Seq<(Seq<char>, Seq<char>)>,
    ck: u64,
    nonce: u64,
) -> Seq<char> {
    ascii_chars_of(spec_hex_of(spec_seal(ck, nonce, spec_encode_entries(entries))))
}

/// The second submission output: the wrapped content key, spelled in
/// hexadecimal.
pub open spec fn spec_encrypt_key(ck: u64, p: u64) -> Seq<char> {
    ascii_chars_of(spec_hex_of(spec_u64_to_le_bytes(spec_wrap_key(ck, p))))
}

/// What decryption yields from the two transport strings and a private
/// key: the original fields, or `None` when anything fails to check out.
pub open spec fn spec_decrypt(ed: Seq<char>, ek: Seq<char>, q: u64) -> Option<
    Seq<(Seq<char>, Seq<char>)>,
> {
    match spec_hex_decode(encode_utf8(ed)) {
        Some(env) => match spec_hex_decode(encode_utf8(ek)) {
            Some(wb) => if wb.len() == 8 {
                let ck = spec_unwrap_key(spec_u64_from_le_bytes(wb), q);
                match spec_open(ck, env) {
                    Some(plain) => spec_decode_entries(plain),
                    None => None,
                }
            } else {
                None
            },
            None => None,
        },
        None => None,
    }
}

/// Envelope-encrypts `data` under `public_key` with a caller-chosen
/// content key and nonce: the deterministic core of `encrypt`. Fails
/// exactly when the public key does not parse, with a fixed message that
/// names neither the data nor any key material.
pub fn encrypt_with(data: &FormData, public_key: &str, content_key: u64, nonce: u64) -> (r: Result<
    (String, String),
    FormVaultError,
>)
    ensures
        r is Ok <==> spec_parse_key(public_key@) is Some,
        r is Ok ==> r->Ok_0.0@ == spec_encrypt_data(data@, content_key, nonce),
        r is Ok ==> r->Ok_0.1@ == spec_encrypt_key(content_key, spec_parse_key(public_key@)->Some_0),
        r is Err ==> r->Err_0 is EncryptionError && r->Err_0->EncryptionError_0@
            == "public key is not sixteen hexadecimal digits"@,
{
    let p = match parse_key(public_key) {
        Some(p) => p,
        None => {
            return Err(
                FormVaultError::EncryptionError(
                    String::from_str("public key is not sixteen hexadecimal digits"),
                ),
            );
        },
    };
    let plain = encode_entries(data.entries());
    let env = seal(content_key, nonce, plain.as_slice());
    let env_hex = hex_encode(env.as_slice());
    proof {
        lemma_hex_all_ascii(env@);
        lemma_ascii_decode(env_hex@);
    }
    let ed = match crate::bridge::string_from_utf8(env_hex) {
        Some(s) => s,
        None => {
            proof {
                assert(false);
            }
            return Err(FormVaultError::EncryptionError(String::new()));
        },
    };
    let wrapped = u64_to_le_bytes(content_key.wrapping_add(p));
    let key_hex = hex_encode(wrapped.as_slice());
    proof {
        lemma_hex_all_ascii(wrapped@);
        lemma_ascii_decode(key_hex@);
    }
    let ek = match crate::bridge::string_from_utf8(key_hex) {
        Some(s) => s,
        None => {
            proof {
                assert(false);
            }
            return Err(FormVaultError::EncryptionError(String::new()));
        },
    };
    Ok((ed, ek))
}

/// Envelope-encrypts `data` under the developer's public key, drawing a
/// fresh random content key and nonce for this call alone. Fails exactly
/// when the public key does not parse, with a fixed message that names
/// neither the data nor any key material.
pub fn encrypt(data: &FormData, public_key: &str) -> (r: Result<(String, String), FormVaultError>)
    ensures
        r is Ok <==> spec_parse_key(public_key@) is Some,
        r is Ok ==> exists|ck: u64, nonce: u64|
            r->Ok_0.0@ == spec_encrypt_data(data@, ck, nonce) && r->Ok_0.1@ == spec_encrypt_key(
                ck,
                spec_parse_key(public_key@)->Some_0,
            ),
        r is Err ==> r->Err_0 is EncryptionError && r->Err_0->EncryptionError_0@
            == "public key is not sixteen hexadecimal digits"@,
{
    let ck = (fresh_random_id() % 0x1_0000_0000_0000_0000u128) as u64;
    let nonce = (fresh_random_id() % 0x1_0000_0000_0000_0000u128) as u64;
    let r = encrypt_with(data, public_key, ck, nonce);
    proof {
        if r is Ok {
            assert(r->Ok_0.0@ == spec_encrypt_data(data@, ck, nonce) && r->Ok_0.1@
                == spec_encrypt_key(ck, spec_parse_key(public_key@)->Some_0));
        }
    }
    r
}

/// Decrypts the two transport strings with the developer's private key
/// and reads the fields back. Fails exactly when the private key does not
/// parse, a hexadecimal spelling is malformed, the envelope's tag does not
/// match, or the plaintext is not a well-formed serialization.
pub fn decrypt(encrypted_data: &str, encrypted_key: &str, private_key: &str) -> (r: Result<
    FormData,
    FormVaultError,
>)
    ensures
        r is Ok <==> (spec_parse_key(private_key@) is Some && spec_decrypt(
            encrypted_data@,
            encrypted_key@,
            spec_parse_key(private_key@)->Some_0,
        ) is Some),
        r is Ok ==> r->Ok_0@ == spec_decrypt(
            encrypted_data@,
            encrypted_key@,
            spec_parse_key(private_key@)->Some_0,
        )->Some_0,
        r is Err ==> r->Err_0 is DecryptionError,
{
    let q = match parse_key(private_key) {
        Some(q) => q,
        None => {
            return Err(
                FormVaultError::DecryptionError(
                    String::from_str("private key is not sixteen hexadecimal digits"),
                ),
            );
        },
    };
    let env = match hex_decode(encrypted_data.as_bytes()) {
        Some(v) => v,
        None => {
            return Err(
                FormVaultError::DecryptionError(String::from_str("encrypted data is not hexadecimal")),
            );
        },
    };
    let wb = match hex_decode(encrypted_key.as_bytes()) {
        Some(v) => v,
        None => {
            return Err(
                FormVaultError::DecryptionError(String::from_str("encrypted key is not hexadecimal")),
            );
        },
    };
    if wb.len() != 8 {
        return Err(FormVaultError::DecryptionError(String::from_str("encrypted key has the wrong length")));
    }
    let ck = u64_from_le_bytes(wb.as_slice()).wrapping_add(q);
    let plain = match open_envelope(ck, env.as_slice()) {
        Some(p) => p,
        None => {
            return Err(
                FormVaultError::DecryptionError(String::from_str("envelope authentication failed")),
            );
        },
    };
    let entries = match decode_entries(plain.as_slice()) {
        Some(e) => e,
        None => {
            return Err(
                FormVaultError::DecryptionError(String::from_str("payload is not a field serialization")),
            );
        },
    };
    Ok(FormData::from_entries(entries))
}

/// Decryption with the matching private key reproduces the encrypted
/// fields exactly: the round trip over the two transport strings is the
/// identity on the data.
pub proof fn lemma_encrypt_decrypt_roundtrip(
    entries: Seq<(Seq<char>, Seq<char>)>,
    p: u64,
    q: u64,
    ck: u64,
    nonce: u64,
)
    requires
        spec_matching_keypair(p, q),
        forall|i: int|
            0 <= i < entries.len() ==> encode_utf8(#[trigger] entries[i].0).len() <= u64::MAX
                && encode_utf8(entries[i].1).len() <= u64::MAX,
    ensures
        spec_decrypt(spec_encrypt_data(entries, ck, nonce), spec_encrypt_key(ck, p), q) == Some(
            entries,
        ),
{
    let plain = spec_encode_entries(entries);
    let env = spec_seal(ck, nonce, plain);
    lemma_hex_all_ascii(env);
    lemma_ascii_encode(spec_hex_of(env));
    lemma_hex_roundtrip(env);
    let wb = spec_u64_to_le_bytes(spec_wrap_key(ck, p));
    lemma_hex_all_ascii(wb);
    lemma_ascii_encode(spec_hex_of(wb));
    lemma_hex_roundtrip(wb);
    lemma_auto_spec_u64_to_from_le_bytes();
    lemma_wrap_unwrap(ck, p, q);
    lemma_seal_open(ck, nonce, plain);
    lemma_entries_roundtrip(entries);
}

} // verus!
