//! The authenticated-encryption envelope codec.
//!
//! An envelope is `base64url( nonce[24] ‖ ciphertext )`, where the ciphertext
//! is produced by an authenticated public-key box over the UTF-8 plaintext,
//! bound to the sender's private key and the recipient's public key.

use vstd::prelude::*;
use vstd::slice::slice_subrange;
use vstd::utf8::{valid_utf8, decode_utf8, encode_utf8};
use crate::base64key::{Base64Key, FromBase64Sized, PublicKey, PublicKeyValue, SecretKey,
    SecretKeyValue};

verus! {

broadcast use vstd::utf8::group_utf8_lib;

/// Number of bytes of the per-message nonce at the front of an envelope.
pub const NONCE_BYTES: usize = 24;

/// Errors of the envelope codec. Wrong-key and tampered-data failures are
/// both `Authentication` on purpose: the outward signal must not reveal
/// which of the two occurred.
#[derive(Clone, Copy, Debug, PartialEq, Eq, Structural)]
pub enum CodecError {
    /// The payload is not valid URL-safe base64 text.
    Decode,
    /// The decoded payload is shorter than the nonce, so it cannot hold one.
    Format,
    /// Authenticated decryption failed: wrong key pair or altered data.
    Authentication,
    /// The decrypted bytes are not valid UTF-8, or the recovered text is not
    /// a flat JSON object.
    Encoding,
}

/// The URL-safe base64 encoding of a byte sequence.
pub uninterp spec fn b64_encoding(bytes: Seq<u8>) -> Seq<char>;

/// The URL-safe base64 decoding of a text; `None` where the text is not
/// valid base64.
pub uninterp spec fn b64_decoding(text: Seq<char>) -> Option<Seq<u8>>;

/// What authenticated box decryption of ciphertext `c` under nonce `n`, the
/// sender's public key `pk` and the recipient's private key `sk` yields:
/// the message, or `None` where verification fails.
pub uninterp spec fn box_opened(c: Seq<u8>, n: Seq<u8>, pk: Seq<u8>, sk: Seq<u8>) -> Option<Seq<u8>>;

/// The public key that belongs to a private key of the box scheme.
pub uninterp spec fn pub_key_of(sk: Seq<u8>) -> Seq<u8>;

/// Relies on base64's `Engine::encode` with the `URL_SAFE` engine; decoding
/// what it encodes gives the bytes back.
#[verifier::external_body]
pub(crate) fn encode_base64url(bytes: &[u8]) -> (r: String)
    ensures
        r@ == b64_encoding(bytes@),
        b64_decoding(r@) == Some(bytes@),
{
    base64::Engine::encode(&base64::engine::general_purpose::URL_SAFE, bytes)
}

/// Relies on base64's `Engine::decode` with the `URL_SAFE` engine; it fails
/// exactly on text that is not valid URL-safe base64.
#[verifier::external_body]
pub(crate) fn decode_base64url(text: &str) -> (r: Option<Vec<u8>>)
    ensures
        match r {
            Some(v) => b64_decoding(text@) == Some(v@),
            None => b64_decoding(text@) is None,
        },
{
    base64::Engine::decode(&base64::engine::general_purpose::URL_SAFE, text).ok()
}

/// Relies on sodiumoxide's `box_::gen_nonce` for a random 24-byte nonce,
/// initializing the library first. The nonce is random: only its length
/// holds of every outcome.
#[verifier::external_body]
fn fresh_nonce() -> (r: Vec<u8>)
    ensures
        r@.len() == 24,
{
    let _ = sodiumoxide::init();
    sodiumoxide::crypto::box_::gen_nonce().0.to_vec()
}

/// Relies on sodiumoxide's `box_::seal`: the output buffer is sized to the
/// message plus the 16-byte authenticator on every path, and a box sealed to
/// a genuine key pair opens, under the matching recipient private key and
/// the sender's public key, to exactly the message. Nothing more is claimed:
/// on a public key with no private counterpart the underlying primitive
/// fails and the buffer's content is arbitrary.
#[verifier::external_body]
fn seal_box(m: &[u8], n: &[u8], recipient_pk: &PublicKey, sender_sk: &SecretKey) -> (r: Vec<u8>)
    requires
        n@.len() == 24,
        recipient_pk.key_bytes().len() == 32,
        sender_sk.key_bytes().len() == 32,
    ensures
        r@.len() == m@.len() + 16,
        forall|recipient_sk: Seq<u8>|
            pub_key_of(recipient_sk) == recipient_pk.key_bytes()
                ==> box_opened(r@, n@, pub_key_of(sender_sk.key_bytes()), recipient_sk) == Some(
                    m@,
                ),
{
    let nonce = sodiumoxide::crypto::box_::Nonce::from_slice(n).unwrap();
    let pk = sodiumoxide::crypto::box_::PublicKey::from_slice(&recipient_pk.bytes).unwrap();
    let sk = sodiumoxide::crypto::box_::SecretKey::from_slice(&sender_sk.bytes).unwrap();
    sodiumoxide::crypto::box_::seal(m, &nonce, &pk, &sk)
}

/// Relies on sodiumoxide's `box_::open`: the result is a function of
/// ciphertext, nonce and key pair alone, and verification fails rather than
/// return unauthentic data.
#[verifier::external_body]
fn open_box(c: &[u8], n: &[u8], sender_pk: &PublicKey, recipient_sk: &SecretKey) -> (r: Option<
    Vec<u8>,
>)
    requires
        n@.len() == 24,
        sender_pk.key_bytes().len() == 32,
        recipient_sk.key_bytes().len() == 32,
    ensures
        match r {
            Some(m) => box_opened(c@, n@, sender_pk.key_bytes(), recipient_sk.key_bytes())
                == Some(m@),
            None => box_opened(c@, n@, sender_pk.key_bytes(), recipient_sk.key_bytes()) is None,
        },
{
    let nonce = sodiumoxide::crypto::box_::Nonce::from_slice(n).unwrap();
    let pk = sodiumoxide::crypto::box_::PublicKey::from_slice(&sender_pk.bytes).unwrap();
    let sk = sodiumoxide::crypto::box_::SecretKey::from_slice(&recipient_sk.bytes).unwrap();
    sodiumoxide::crypto::box_::open(c, &nonce, &pk, &sk).ok()
}

/// Relies on `String::from_utf8` of std: it succeeds exactly on valid UTF-8
/// and returns the decoded text.
#[verifier::external_body]
pub(crate) fn string_from_utf8(bytes: Vec<u8>) -> (r: Option<String>)
    ensures
        r is Some <==> valid_utf8(bytes@),
        r matches Some(s) ==> s@ == decode_utf8(bytes@),
{
    String::from_utf8(bytes).ok()
}

/// What `decode_payload` returns on a payload text under the recipient's
/// private key `sk` and the sender's public key `pk`: each error comes on
/// exactly the inputs its taxonomy names.
pub open spec fn open_payload_spec(payload: Seq<char>, sk: Seq<u8>, pk: Seq<u8>) -> Result<
    Seq<char>,
    CodecError,
> {
    match b64_decoding(payload) {
        Option::None => Result::Err(CodecError::Decode),
        Option::Some(d) => if d.len() < 24 {
            Result::Err(CodecError::Format)
        } else {
            match box_opened(d.subrange(24, d.len() as int), d.subrange(0, 24), pk, sk) {
                Option::None => Result::Err(CodecError::Authentication),
                Option::Some(m) => if valid_utf8(m) {
                    Result::Ok(decode_utf8(m))
                } else {
                    Result::Err(CodecError::Encoding)
                },
            }
        },
    }
}

/// Opens an envelope: base64url-decodes, splits nonce and ciphertext at the
/// fixed offset, authenticated-decrypts, and checks the plaintext is UTF-8.
pub fn decode_payload(
    payload: &str,
    server_private_key: &SecretKeyValue,
    manager_public_key: &PublicKeyValue,
) -> (r: Result<String, CodecError>)
    requires
        server_private_key.wf(),
        manager_public_key.wf(),
    ensures
        ({
            let model = open_payload_spec(
                payload@,
                server_private_key.key_bytes(),
                manager_public_key.key_bytes(),
            );
            match r {
                Ok(s) => model == Result::<Seq<char>, CodecError>::Ok(s@),
                Err(e) => model == Result::<Seq<char>, CodecError>::Err(e),
            }
        }),
{
    let decoded = match decode_base64url(payload) {
        Some(d) => d,
        None => { return Err(CodecError::Decode) },
    };
    if decoded.len() < NONCE_BYTES {
        return Err(CodecError::Format);
    }
    let nonce = slice_subrange(decoded.as_slice(), 0, NONCE_BYTES);
    let ciphertext = slice_subrange(decoded.as_slice(), NONCE_BYTES, decoded.len());
    let opened = match open_box(ciphertext, nonce, &manager_public_key.0, &server_private_key.0) {
        Some(m) => m,
        None => { return Err(CodecError::Authentication) },
    };
    match string_from_utf8(opened) {
        Some(s) => Ok(s),
        None => Err(CodecError::Encoding),
    }
}

/// Seals a plaintext into an envelope under a fresh random nonce. Used by the
/// offline provisioning utility, never by the running service. The result
/// decodes to a 24-byte nonce followed by a ciphertext 16 bytes longer than
/// the plaintext, so the length guard of `decode_payload` always passes on
/// sealed output. Whatever nonce was drawn, the intended recipient recovers
/// exactly the plaintext: opening the result with any private key of the
/// recipient's public key, against the sender's public key, yields the
/// plaintext again.
pub fn encode_payload(
    plaintext: &str,
    manager_private_key: &SecretKeyValue,
    server_public_key: &PublicKeyValue,
) -> (r: String)
    requires
        manager_private_key.wf(),
        server_public_key.wf(),
    ensures
        (exists|n: Seq<u8>, c: Seq<u8>|
            n.len() == 24 && c.len() == encode_utf8(plaintext@).len() + 16 && r@ == b64_encoding(
                n + c,
            ) && b64_decoding(r@) == Some(n + c)),
        forall|recipient_sk: Seq<u8>|
            pub_key_of(recipient_sk) == server_public_key.key_bytes()
                ==> open_payload_spec(r@, recipient_sk, pub_key_of(manager_private_key.key_bytes()))
                    == Result::<Seq<char>, CodecError>::Ok(plaintext@),
{
    let nonce = fresh_nonce();
    let plaintext_bytes = plaintext.as_bytes();
    let mut ciphertext = seal_box(
        plaintext_bytes,
        nonce.as_slice(),
        &server_public_key.0,
        &manager_private_key.0,
    );
    let ghost message: Seq<u8> = plaintext_bytes@;
    let ghost n: Seq<u8> = nonce@;
    let ghost sealed: Seq<u8> = ciphertext@;
    let mut full = nonce;
    full.append(&mut ciphertext);
    let encoded = encode_base64url(full.as_slice());
    proof {
        assert(full@ == n + sealed);
        assert(full@.subrange(0, 24) =~= n);
        assert(full@.subrange(24, full@.len() as int) =~= sealed);
        assert(message == encode_utf8(plaintext@));
        assert(n.len() == 24 && sealed.len() == encode_utf8(plaintext@).len() + 16 && encoded@
            == b64_encoding(n + sealed) && b64_decoding(encoded@) == Some(n + sealed));
        assert forall|recipient_sk: Seq<u8>|
            pub_key_of(recipient_sk) == server_public_key.key_bytes() implies open_payload_spec(
            encoded@,
            recipient_sk,
            pub_key_of(manager_private_key.key_bytes()),
        ) == Result::<Seq<char>, CodecError>::Ok(plaintext@) by {
            assert(b64_decoding(encoded@) == Some(full@));
            assert(box_opened(
                sealed,
                n,
                pub_key_of(manager_private_key.key_bytes()),
                recipient_sk,
            ) == Some(message));
            assert(valid_utf8(message));
            assert(decode_utf8(message) == plaintext@);
        }
    }
    encoded
}

/// Short-payload rejection: any payload whose base64url decoding holds fewer
/// bytes than a nonce fails with `Format`, regardless of content or keys.
pub proof fn lemma_short_payload_rejected(payload: Seq<char>, sk: Seq<u8>, pk: Seq<u8>)
    requires
        b64_decoding(payload) matches Some(d) && d.len() < 24,
    ensures
        open_payload_spec(payload, sk, pk) == Result::<Seq<char>, CodecError>::Err(
            CodecError::Format,
        ),
{
}

} // verus!
