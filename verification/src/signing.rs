//! Detached Ed25519 signatures. Key derivation, signing and verification are
//! done by `ed25519-dalek`; this module gives their results names, states
//! how they relate, and holds the offline signing tool built on them.

use vstd::prelude::*;
use vstd::utf8::encode_utf8;

verus! {

/// Bytes in a private key and in a public key.
pub const KEY_BYTES: usize = 32;

/// Bytes in a detached signature.
pub const SIGNATURE_BYTES: usize = 64;

/// The public key that belongs to a 32-byte private key
/// (`PublicKey::from(&SecretKey)`, as bytes).
pub uninterp spec fn ed25519_public_key(secret_key: Seq<u8>) -> Seq<u8>;

/// The detached signature that a 32-byte private key gives on a message
/// (`Keypair::sign`, as bytes).
pub uninterp spec fn ed25519_signature(secret_key: Seq<u8>, message: Seq<u8>) -> Seq<u8>;

/// Whether `public_key` and `signature` both decode and the signature
/// verifies on `message` (`PublicKey::verify` after the two `from_bytes`).
pub uninterp spec fn ed25519_verifies(
    public_key: Seq<u8>,
    signature: Seq<u8>,
    message: Seq<u8>,
) -> bool;

/// What `ed25519-dalek`, built with its standard features, says of a
/// private key that does not have 32 bytes: the text of its error, which
/// names the kind of key and the length it must have.
pub open spec fn key_length_error() -> Seq<char> {
    "signature error: SecretKey must be 32 bytes in length"@
}

/// `Keypair::generate` on the operating system's random source. Whatever
/// private key comes out, it has 32 bytes and the public key beside it is
/// the one derived from it.
#[verifier::external_body]
pub(crate) fn generate_keypair() -> (out: (Vec<u8>, Vec<u8>))
    ensures
        out.0@.len() == KEY_BYTES,
        out.1@.len() == KEY_BYTES,
        out.1@ == ed25519_public_key(out.0@),
{
    let mut csprng = rand::rngs::OsRng;
    let keypair = ed25519_dalek::Keypair::generate(&mut csprng);
    (keypair.secret.to_bytes().to_vec(), keypair.public.to_bytes().to_vec())
}

/// `SecretKey::from_bytes`, `PublicKey::from` and `Keypair::sign`. The
/// private key is refused unless it has 32 bytes, and the error then reads
/// as [`key_length_error`]; otherwise the result is the derived public key
/// and the signature, and that signature verifies on the message under
/// that public key.
#[verifier::external_body]
pub(crate) fn sign_detached(secret_key: &[u8], message: &[u8]) -> (out: Result<
    (Vec<u8>, Vec<u8>),
    String,
>)
    ensures
        out is Ok <==> secret_key@.len() == KEY_BYTES,
        out matches Ok(pair) ==> {
            &&& pair.0@ == ed25519_public_key(secret_key@)
            &&& pair.1@ == ed25519_signature(secret_key@, message@)
            &&& pair.0@.len() == KEY_BYTES
            &&& pair.1@.len() == SIGNATURE_BYTES
            &&& ed25519_verifies(pair.0@, pair.1@, message@)
        },
        out matches Err(text) ==> text@ == key_length_error(),
{
    let secret = match ed25519_dalek::SecretKey::from_bytes(secret_key) {
        Ok(secret) => secret,
        Err(error) => return Err(format!("{}", error)),
    };
    let public = ed25519_dalek::PublicKey::from(&secret);
    let keypair = ed25519_dalek::Keypair { secret, public };
    let signature = ed25519_dalek::Signer::sign(&keypair, message);
    Ok((keypair.public.to_bytes().to_vec(), signature.to_bytes().to_vec()))
}

/// `PublicKey::from_bytes`, `Signature::from_bytes` and `PublicKey::verify`.
/// A key that is not 32 bytes or a signature that is not 64 bytes does not
/// decode, so nothing verifies under it.
#[verifier::external_body]
pub(crate) fn verify_detached(public_key: &[u8], signature: &[u8], message: &[u8]) -> (ok: bool)
    ensures
        ok == ed25519_verifies(public_key@, signature@, message@),
        ok ==> public_key@.len() == KEY_BYTES && signature@.len() == SIGNATURE_BYTES,
{
    let Ok(key) = ed25519_dalek::PublicKey::from_bytes(public_key) else {
        return false;
    };
    let Ok(sig) = ed25519_dalek::Signature::from_bytes(signature) else {
        return false;
    };
    ed25519_dalek::Verifier::verify(&key, message, &sig).is_ok()
}

/// Where a user's private key is kept, relative to the working directory.
pub open spec fn private_key_location(username: Seq<char>) -> Seq<char> {
    "./private_keys/"@ + username + ".private_key"@
}

/// The path of the file that holds `username`'s private key.
pub fn private_key_path(username: &str) -> (path: String)
    ensures
        path@ == private_key_location(username@),
{
    let mut path = String::from_str("./private_keys/");
    path.append(username);
    path.append(".private_key");
    path
}

/// What was found at a private key's path.
#[derive(Clone, Debug, PartialEq, Eq)]
pub enum KeyFile {
    /// No file is there.
    Missing,
    /// A file is there and could not be read; the text says why.
    Unreadable(String),
    /// The bytes of the file.
    Contents(Vec<u8>),
}

/// Why a message could not be signed.
#[derive(Clone, Debug, PartialEq, Eq)]
pub enum SignError {
    /// The user has no private key file.
    NotRegistered,
    /// The private key could not be read or is not a private key.
    PrivateKeyRead(String),
}

impl SignError {
    /// The text shown to the operator.
    pub open spec fn text(self) -> Seq<char> {
        match self {
            SignError::NotRegistered => "This client is not registered"@,
            SignError::PrivateKeyRead(detail) => detail@,
        }
    }

    /// The text shown to the operator.
    pub fn message(&self) -> (out: String)
        ensures
            out@ == self.text(),
    {
        match self {
            SignError::NotRegistered => String::from_str("This client is not registered"),
            SignError::PrivateKeyRead(detail) => detail.clone(),
        }
    }
}

/// A signed message: the signer's public key, the detached signature and
/// the message's bytes.
#[derive(Clone, Debug, PartialEq, Eq)]
pub struct Signed {
    pub public_key: Vec<u8>,
    pub signature: Vec<u8>,
    pub message: Vec<u8>,
}

/// Signs `message` with the private key found in `key_file`.
///
/// A missing file means that the user never registered. An unreadable file
/// is a read failure with the reason it was given; a file that does not
/// hold exactly 32 bytes is a read failure that says so. Otherwise the
/// result holds the 32-byte public key derived from the private key, the
/// 64-byte signature over the message's UTF-8 bytes, and those bytes; the
/// signature verifies under that public key.
pub fn sign_message(key_file: KeyFile, message: &str) -> (out: Result<Signed, SignError>)
    ensures
        key_file is Missing ==> out == Err::<Signed, SignError>(SignError::NotRegistered),
        key_file matches KeyFile::Unreadable(why) ==> out == Err::<Signed, SignError>(
            SignError::PrivateKeyRead(why),
        ),
        key_file matches KeyFile::Contents(secret) ==> {
            if secret@.len() == KEY_BYTES {
                &&& out matches Ok(signed)
                &&& signed.public_key@ == ed25519_public_key(secret@)
                &&& signed.signature@ == ed25519_signature(secret@, encode_utf8(message@))
                &&& signed.message@ == encode_utf8(message@)
                &&& signed.public_key@.len() == KEY_BYTES
                &&& signed.signature@.len() == SIGNATURE_BYTES
                &&& ed25519_verifies(signed.public_key@, signed.signature@, signed.message@)
            } else {
                &&& out matches Err(SignError::PrivateKeyRead(why))
                &&& why@ == key_length_error()
            }
        },
{
    match key_file {
        KeyFile::Missing => Err(SignError::NotRegistered),
        KeyFile::Unreadable(why) => Err(SignError::PrivateKeyRead(why)),
        KeyFile::Contents(secret) => {
            let bytes = message.as_bytes_vec();
            match sign_detached(secret.as_slice(), bytes.as_slice()) {
                Ok((public_key, signature)) => Ok(Signed { public_key, signature, message: bytes }),
                Err(why) => Err(SignError::PrivateKeyRead(why)),
            }
        },
    }
}

} // verus!
