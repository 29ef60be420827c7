//! Key values parsed from URL-safe base64 text.

use vstd::prelude::*;
use crate::codec::{b64_decoding, decode_base64url};

verus! {

/// A value built from exactly `N` raw bytes, as recovered from base64 text.
pub trait FromBase64Sized<const N: usize>: Sized {
    /// The raw bytes the value holds.
    spec fn key_bytes(&self) -> Seq<u8>;

    /// Builds the value from its raw bytes.
    fn from_bytes(bytes: Vec<u8>) -> (r: Self)
        requires
            bytes@.len() == N as int,
        ensures
            r.key_bytes() == bytes@,
    ;
}

/// A private key of the authenticated public-key box scheme (32 bytes).
/// Never logged or serialized; it leaves the library only toward the
/// cryptographic primitive itself.
#[derive(Clone)]
pub struct SecretKey {
    pub(crate) bytes: Vec<u8>,
}

/// A public key of the authenticated public-key box scheme (32 bytes).
#[derive(Clone)]
pub struct PublicKey {
    pub(crate) bytes: Vec<u8>,
}

impl FromBase64Sized<32> for SecretKey {
    closed spec fn key_bytes(&self) -> Seq<u8> {
        self.bytes@
    }

    fn from_bytes(bytes: Vec<u8>) -> (r: Self) {
        SecretKey { bytes }
    }
}

impl FromBase64Sized<32> for PublicKey {
    closed spec fn key_bytes(&self) -> Seq<u8> {
        self.bytes@
    }

    fn from_bytes(bytes: Vec<u8>) -> (r: Self) {
        PublicKey { bytes }
    }
}

/// A key of `N` bytes carried as URL-safe base64 text outside the service.
#[derive(Clone)]
pub struct Base64Key<T, const N: usize>(pub T);

impl<T: FromBase64Sized<N>, const N: usize> Base64Key<T, N> {
    /// The raw bytes of the wrapped key.
    pub open spec fn key_bytes(&self) -> Seq<u8> {
        self.0.key_bytes()
    }

    /// The key holds exactly its scheme's number of bytes.
    pub open spec fn wf(&self) -> bool {
        self.key_bytes().len() == N as int
    }

    /// Parses URL-safe base64 text into exactly `N` key bytes. Text that is
    /// not base64 is rejected as invalid, text of any other decoded length
    /// as an unexpected length.
    pub fn from_str(s: &str) -> (r: Result<Self, String>)
        ensures
            match r {
                Ok(k) => b64_decoding(s@) matches Some(d) && d.len() == N as int
                    && k.key_bytes() == d && k.wf(),
                Err(msg) => !(b64_decoding(s@) matches Some(d) && d.len() == N as int) && msg@
                    == if b64_decoding(s@) is None {
                    "Invalid base64"@
                } else {
                    "Unexpected key length"@
                },
            },
    {
        match decode_base64url(s) {
            Some(decoded) => {
                if decoded.len() == N {
                    Ok(Base64Key(T::from_bytes(decoded)))
                } else {
                    Err("Unexpected key length".to_owned())
                }
            },
            None => Err("Invalid base64".to_owned()),
        }
    }
}

/// The server's private key as given on the command line.
pub type SecretKeyValue = Base64Key<SecretKey, 32>;

/// The manager's public key as given on the command line.
pub type PublicKeyValue = Base64Key<PublicKey, 32>;

} // verus!
