//! The signature protocol: decoding of keys and signatures, the canonical
//! messages, and their verification.
//!
//! Keys travel as bech32 strings and signatures and images as base64
//! strings. Signatures are Ed25519 signatures, and the digest of an image is
//! its SHA-256 hash. The encodings, the hash and the signature scheme are
//! those of the crates `bech32`, `base64`, `sha2` and `ed25519-dalek`; what
//! they compute is named here and not defined.

use ed25519_dalek::Verifier;
use sha2::Digest;
use vstd::prelude::*;

verus! {

/// The number of bytes of a public key.
pub const PUBLIC_KEY_LENGTH: usize = 32;

/// The number of bytes of a signature.
pub const SIGNATURE_LENGTH: usize = 64;

/// The human-readable part of an encoded treasure key.
pub const TREASURE_KEY_PREFIX: &'static str = "gtp";

/// The human-readable part of an encoded account key.
pub const ACCOUNT_KEY_PREFIX: &'static str = "gap";

/// The first word of every message about a plant.
pub const PLANT_TAG: &'static str = "plant";

/// The first word of every message about a claim.
pub const CLAIM_TAG: &'static str = "claim";

/// The bytes that `base64::decode` gives for `text`, `None` where it
/// rejects the text.
pub uninterp spec fn base64_decoding(text: Seq<char>) -> Option<Seq<u8>>;

/// The human-readable part, in lower case, and the data bytes that
/// `bech32::decode` gives for `text`, `None` where it rejects the text.
pub uninterp spec fn bech32_decoding(text: Seq<char>) -> Option<(Seq<char>, Seq<u8>)>;

/// The string that `bech32::encode` with the checksum `Bech32` gives for
/// `data` under the human-readable part `prefix`, `None` where the crate
/// rejects the prefix or the length.
pub uninterp spec fn bech32_encoding(prefix: Seq<char>, data: Seq<u8>) -> Option<Seq<char>>;

/// The SHA-256 hash of `data` as `sha2` computes it.
pub uninterp spec fn sha256_digest(data: Seq<u8>) -> Seq<u8>;

/// Whether `bytes` are 32 bytes that `ed25519_dalek::VerifyingKey::from_bytes`
/// accepts as a public key.
pub uninterp spec fn ed25519_key(bytes: Seq<u8>) -> bool;

/// Whether `ed25519_dalek` reads a public key from `public_key` and a
/// signature from `signature`, and the key's `verify` accepts the signature
/// for `message`.
pub uninterp spec fn ed25519_accepts(
    public_key: Seq<u8>,
    message: Seq<u8>,
    signature: Seq<u8>,
) -> bool;

/// Calls `base64::decode`, which decodes with the crate's standard
/// configuration. The contract names the result: the decoded bytes, or
/// `None` for the error.
#[verifier::external_body]
fn base64_decode(text: &str) -> (bytes: Option<Vec<u8>>)
    ensures
        match bytes {
            Some(bytes) => base64_decoding(text@) == Some(bytes@),
            None => base64_decoding(text@) is None,
        },
{
    base64::decode(text).ok()
}

/// Calls `bech32::decode`, which accepts a string with a valid bech32 or
/// bech32m checksum, and `Hrp::to_lowercase` on the human-readable part it
/// returns. The contract names the result: that part and the data bytes, or
/// `None` for the error.
#[verifier::external_body]
fn bech32_decode(text: &str) -> (parts: Option<(String, Vec<u8>)>)
    ensures
        match parts {
            Some((prefix, data)) => bech32_decoding(text@) == Some((prefix@, data@)),
            None => bech32_decoding(text@) is None,
        },
{
    match bech32::decode(text) {
        Ok((prefix, data)) => Some((prefix.to_lowercase(), data)),
        Err(_) => None,
    }
}

/// Calls `bech32::Hrp::parse` on `prefix` and `bech32::encode` with the
/// checksum `Bech32` on the result and `data`. The contract names the
/// result: the encoded string, or `None` where either call fails.
#[verifier::external_body]
fn bech32_encode(prefix: &str, data: &[u8]) -> (text: Option<String>)
    ensures
        match text {
            Some(text) => bech32_encoding(prefix@, data@) == Some(text@),
            None => bech32_encoding(prefix@, data@) is None,
        },
{
    match bech32::Hrp::parse(prefix) {
        Ok(prefix) => bech32::encode::<bech32::Bech32>(prefix, data).ok(),
        Err(_) => None,
    }
}

/// Calls `sha2::Sha256::digest`. The contract names the result.
#[verifier::external_body]
fn sha256(data: &[u8]) -> (digest: Vec<u8>)
    ensures
        digest@ == sha256_digest(data@),
{
    sha2::Sha256::digest(data).to_vec()
}

/// Calls `ed25519_dalek::VerifyingKey::from_bytes` on `bytes` as an array of
/// 32 bytes. The contract names the result: whether there are 32 bytes and
/// the call accepts them.
#[verifier::external_body]
fn ed25519_key_valid(bytes: &[u8]) -> (valid: bool)
    ensures
        valid == ed25519_key(bytes@),
{
    match <&[u8; 32]>::try_from(bytes) {
        Ok(bytes) => ed25519_dalek::VerifyingKey::from_bytes(bytes).is_ok(),
        Err(_) => false,
    }
}

/// Calls `verify` of `ed25519_dalek::VerifyingKey` on `message`, with the
/// key read from `public_key` by `VerifyingKey::from_bytes` and the
/// signature read from `signature` by `Signature::from_slice`. The contract
/// names the result: whether both were read and `verify` returned `Ok`.
#[verifier::external_body]
fn ed25519_verify(public_key: &[u8], message: &[u8], signature: &[u8]) -> (accepted: bool)
    ensures
        accepted == ed25519_accepts(public_key@, message@, signature@),
{
    let Ok(public_key) = <&[u8; 32]>::try_from(public_key) else { return false };
    let Ok(key) = ed25519_dalek::VerifyingKey::from_bytes(public_key) else { return false };
    let Ok(signature) = ed25519_dalek::Signature::from_slice(signature) else { return false };
    key.verify(message, &signature).is_ok()
}

/// Why an encoded key, signature or image was not accepted.
#[derive(Clone, Copy, Debug, PartialEq, Eq, Structural, Hash)]
pub enum DecodeError {
    /// The text is not in its encoding: bech32 for a key, base64 for a
    /// signature or an image.
    Malformed,
    /// The key is not of the kind that was asked for.
    WrongPrefix,
    /// The decoded bytes are not as many as a key or a signature has.
    WrongLength,
    /// The decoded bytes are no Ed25519 public key.
    InvalidKey,
    /// The decoded key has no canonical encoding.
    Unencodable,
}

/// The raw bytes and the canonical encoding of the key that `encoded` holds
/// under the human-readable part `prefix`, or the reason why it holds none.
/// The checks are made in the order of the variants of `DecodeError`.
pub open spec fn key_decoding(encoded: Seq<char>, prefix: Seq<char>) -> Result<
    (Seq<u8>, Seq<char>),
    DecodeError,
> {
    match bech32_decoding(encoded) {
        None => Err(DecodeError::Malformed),
        Some((found, data)) => if found != prefix {
            Err(DecodeError::WrongPrefix)
        } else if data.len() != PUBLIC_KEY_LENGTH {
            Err(DecodeError::WrongLength)
        } else if !ed25519_key(data) {
            Err(DecodeError::InvalidKey)
        } else {
            match bech32_encoding(prefix, data) {
                None => Err(DecodeError::Unencodable),
                Some(canonical) => Ok((data, canonical)),
            }
        },
    }
}

/// What a bech32 decoder returned, as a mathematical value.
pub open spec fn parts_view(parts: Option<(String, Vec<u8>)>) -> Option<(Seq<char>, Seq<u8>)> {
    match parts {
        Some((prefix, data)) => Some((prefix@, data@)),
        None => None,
    }
}

/// What a base64 decoder returned, as a mathematical value.
pub open spec fn bytes_view(bytes: Option<Vec<u8>>) -> Option<Seq<u8>> {
    match bytes {
        Some(bytes) => Some(bytes@),
        None => None,
    }
}

/// The key bytes in what a bech32 decoder returned: the data, when it came
/// under the human-readable part `prefix` and has the length of a key.
pub open spec fn key_bytes_of(parts: Option<(Seq<char>, Seq<u8>)>, prefix: Seq<char>) -> Result<
    Seq<u8>,
    DecodeError,
> {
    match parts {
        None => Err(DecodeError::Malformed),
        Some((found, data)) => if found != prefix {
            Err(DecodeError::WrongPrefix)
        } else if data.len() != PUBLIC_KEY_LENGTH {
            Err(DecodeError::WrongLength)
        } else {
            Ok(data)
        },
    }
}

/// Picks the key bytes out of what the bech32 decoder returned for an
/// encoded key: `parts` is the decoder's result, `prefix` the
/// human-readable part that is asked for.
pub fn check_key_parts(parts: Option<(String, Vec<u8>)>, prefix: &str) -> (bytes: Result<
    Vec<u8>,
    DecodeError,
>)
    ensures
        match bytes {
            Ok(bytes) => key_bytes_of(parts_view(parts), prefix@) == Ok::<Seq<u8>, DecodeError>(
                bytes@,
            ),
            Err(e) => key_bytes_of(parts_view(parts), prefix@) == Err::<Seq<u8>, DecodeError>(e),
        },
{
    match parts {
        None => Err(DecodeError::Malformed),
        Some((found, data)) => {
            let wanted = prefix.to_owned();
            if !(found == wanted) {
                Err(DecodeError::WrongPrefix)
            } else if data.len() != PUBLIC_KEY_LENGTH {
                Err(DecodeError::WrongLength)
            } else {
                Ok(data)
            }
        },
    }
}

/// Takes the canonical encoding out of what the bech32 encoder returned for
/// the bytes of a key: a key that the encoder refused has none.
pub fn check_canonical(canonical: Option<String>) -> (encoded: Result<String, DecodeError>)
    ensures
        match canonical {
            Some(text) => encoded == Ok::<String, DecodeError>(text),
            None => encoded == Err::<String, DecodeError>(DecodeError::Unencodable),
        },
{
    match canonical {
        Some(text) => Ok(text),
        None => Err(DecodeError::Unencodable),
    }
}

fn decode_key(encoded: &str, prefix: &str) -> (key: Result<(Vec<u8>, String), DecodeError>)
    ensures
        match key {
            Ok((bytes, canonical)) => key_decoding(encoded@, prefix@) == Ok::<
                (Seq<u8>, Seq<char>),
                DecodeError,
            >((bytes@, canonical@)),
            Err(e) => key_decoding(encoded@, prefix@) == Err::<(Seq<u8>, Seq<char>), DecodeError>(
                e,
            ),
        },
{
    let parts = bech32_decode(encoded);
    match check_key_parts(parts, prefix) {
        Err(e) => Err(e),
        Ok(bytes) => {
            if !ed25519_key_valid(bytes.as_slice()) {
                Err(DecodeError::InvalidKey)
            } else {
                match check_canonical(bech32_encode(prefix, bytes.as_slice())) {
                    Err(e) => Err(e),
                    Ok(canonical) => Ok((bytes, canonical)),
                }
            }
        },
    }
}

/// The identity of a treasure: an Ed25519 public key and its canonical
/// encoding.
#[derive(Debug)]
pub struct TreasurePublicKey {
    bytes: Vec<u8>,
    encoded: String,
}

/// The identity of a player's account: an Ed25519 public key and its
/// canonical encoding.
#[derive(Debug)]
pub struct AccountPublicKey {
    bytes: Vec<u8>,
    encoded: String,
}

impl TreasurePublicKey {
    /// The 32 bytes of the key.
    pub closed spec fn spec_bytes(&self) -> Seq<u8> {
        self.bytes@
    }

    /// The canonical encoding of the key.
    pub closed spec fn spec_encoded(&self) -> Seq<char> {
        self.encoded@
    }

    /// The bytes are a key, and the encoding is the canonical one of the
    /// bytes.
    pub open spec fn wf(&self) -> bool {
        &&& self.spec_bytes().len() == PUBLIC_KEY_LENGTH
        &&& ed25519_key(self.spec_bytes())
        &&& bech32_encoding(TREASURE_KEY_PREFIX@, self.spec_bytes()) == Some(self.spec_encoded())
    }

    /// The 32 bytes of the key.
    pub fn bytes(&self) -> (bytes: &Vec<u8>)
        ensures
            bytes@ == self.spec_bytes(),
    {
        &self.bytes
    }

    /// The canonical encoding of the key.
    pub fn encoded(&self) -> (encoded: &String)
        ensures
            encoded@ == self.spec_encoded(),
    {
        &self.encoded
    }
}

impl AccountPublicKey {
    /// The 32 bytes of the key.
    pub closed spec fn spec_bytes(&self) -> Seq<u8> {
        self.bytes@
    }

    /// The canonical encoding of the key.
    pub closed spec fn spec_encoded(&self) -> Seq<char> {
        self.encoded@
    }

    /// The bytes are a key, and the encoding is the canonical one of the
    /// bytes.
    pub open spec fn wf(&self) -> bool {
        &&& self.spec_bytes().len() == PUBLIC_KEY_LENGTH
        &&& ed25519_key(self.spec_bytes())
        &&& bech32_encoding(ACCOUNT_KEY_PREFIX@, self.spec_bytes()) == Some(self.spec_encoded())
    }

    /// The 32 bytes of the key.
    pub fn bytes(&self) -> (bytes: &Vec<u8>)
        ensures
            bytes@ == self.spec_bytes(),
    {
        &self.bytes
    }

    /// The canonical encoding of the key.
    pub fn encoded(&self) -> (encoded: &String)
        ensures
            encoded@ == self.spec_encoded(),
    {
        &self.encoded
    }
}

/// Decodes a treasure's public key. It succeeds exactly when
/// `key_decoding` does under the treasure prefix, with the bytes and the
/// canonical encoding that `key_decoding` gives, and fails with the same
/// error otherwise.
pub fn decode_treasure_public_key(encoded: &str) -> (key: Result<TreasurePublicKey, DecodeError>)
    ensures
        match key {
            Ok(key) => key.wf() && key_decoding(encoded@, TREASURE_KEY_PREFIX@) == Ok::<
                (Seq<u8>, Seq<char>),
                DecodeError,
            >((key.spec_bytes(), key.spec_encoded())),
            Err(e) => key_decoding(encoded@, TREASURE_KEY_PREFIX@) == Err::<
                (Seq<u8>, Seq<char>),
                DecodeError,
            >(e),
        },
{
    match decode_key(encoded, TREASURE_KEY_PREFIX) {
        Ok((bytes, encoded)) => Ok(TreasurePublicKey { bytes, encoded }),
        Err(e) => Err(e),
    }
}

/// Decodes an account's public key. It succeeds exactly when `key_decoding`
/// does under the account prefix, with the bytes and the canonical encoding
/// that `key_decoding` gives, and fails with the same error otherwise.
pub fn decode_account_public_key(encoded: &str) -> (key: Result<AccountPublicKey, DecodeError>)
    ensures
        match key {
            Ok(key) => key.wf() && key_decoding(encoded@, ACCOUNT_KEY_PREFIX@) == Ok::<
                (Seq<u8>, Seq<char>),
                DecodeError,
            >((key.spec_bytes(), key.spec_encoded())),
            Err(e) => key_decoding(encoded@, ACCOUNT_KEY_PREFIX@) == Err::<
                (Seq<u8>, Seq<char>),
                DecodeError,
            >(e),
        },
{
    match decode_key(encoded, ACCOUNT_KEY_PREFIX) {
        Ok((bytes, encoded)) => Ok(AccountPublicKey { bytes, encoded }),
        Err(e) => Err(e),
    }
}

/// The canonical encoding of a treasure's public key.
pub fn encode_treasure_public_key(key: &TreasurePublicKey) -> (encoded: String)
    ensures
        encoded@ == key.spec_encoded(),
{
    key.encoded.clone()
}

/// The canonical encoding of an account's public key.
pub fn encode_account_public_key(key: &AccountPublicKey) -> (encoded: String)
    ensures
        encoded@ == key.spec_encoded(),
{
    key.encoded.clone()
}

/// An Ed25519 signature: 64 bytes.
#[derive(Debug)]
pub struct Signature {
    bytes: Vec<u8>,
}

impl View for Signature {
    type V = Seq<u8>;

    closed spec fn view(&self) -> Seq<u8> {
        self.bytes@
    }
}

impl Signature {
    /// The 64 bytes of the signature.
    pub fn bytes(&self) -> (bytes: &Vec<u8>)
        ensures
            bytes@ == self@,
    {
        &self.bytes
    }
}

/// The signature in what a base64 decoder returned: the bytes, when there
/// are as many as a signature has.
pub open spec fn signature_of(decoded: Option<Seq<u8>>) -> Result<Seq<u8>, DecodeError> {
    match decoded {
        None => Err(DecodeError::Malformed),
        Some(bytes) => if bytes.len() != SIGNATURE_LENGTH {
            Err(DecodeError::WrongLength)
        } else {
            Ok(bytes)
        },
    }
}

/// Makes a signature of what the base64 decoder returned for an encoded
/// signature.
pub fn check_signature_bytes(decoded: Option<Vec<u8>>) -> (signature: Result<
    Signature,
    DecodeError,
>)
    ensures
        match signature {
            Ok(signature) => signature_of(bytes_view(decoded)) == Ok::<Seq<u8>, DecodeError>(
                signature@,
            ),
            Err(e) => signature_of(bytes_view(decoded)) == Err::<Seq<u8>, DecodeError>(e),
        },
{
    match decoded {
        None => Err(DecodeError::Malformed),
        Some(bytes) => {
            if bytes.len() != SIGNATURE_LENGTH {
                Err(DecodeError::WrongLength)
            } else {
                Ok(Signature { bytes })
            }
        },
    }
}

/// Decodes a signature from base64. It succeeds exactly when the text is
/// base64 for 64 bytes.
pub fn decode_signature(encoded: &str) -> (signature: Result<Signature, DecodeError>)
    ensures
        match signature {
            Ok(signature) => signature_of(base64_decoding(encoded@)) == Ok::<
                Seq<u8>,
                DecodeError,
            >(signature@),
            Err(e) => signature_of(base64_decoding(encoded@)) == Err::<Seq<u8>, DecodeError>(e),
        },
{
    let decoded = base64_decode(encoded);
    check_signature_bytes(decoded)
}

/// The bytes of an image that travels as base64.
pub open spec fn image_of(encoded: Seq<char>) -> Result<Seq<u8>, DecodeError> {
    match base64_decoding(encoded) {
        None => Err(DecodeError::Malformed),
        Some(bytes) => Ok(bytes),
    }
}

/// Decodes an image from base64.
pub fn decode_image(encoded: &str) -> (image: Result<Vec<u8>, DecodeError>)
    ensures
        match image {
            Ok(image) => image_of(encoded@) == Ok::<Seq<u8>, DecodeError>(image@),
            Err(e) => image_of(encoded@) == Err::<Seq<u8>, DecodeError>(e),
        },
{
    match base64_decode(encoded) {
        None => Err(DecodeError::Malformed),
        Some(bytes) => Ok(bytes),
    }
}

/// The digest of an image that travels as base64: the SHA-256 hash of the
/// image's bytes.
pub open spec fn hash_of(encoded: Seq<char>) -> Result<Seq<u8>, DecodeError> {
    match image_of(encoded) {
        Err(e) => Err(e),
        Ok(bytes) => Ok(sha256_digest(bytes)),
    }
}

/// The digest of an image that travels as base64.
pub fn get_hash(image: &str) -> (digest: Result<Vec<u8>, DecodeError>)
    ensures
        match digest {
            Ok(digest) => hash_of(image@) == Ok::<Seq<u8>, DecodeError>(digest@),
            Err(e) => hash_of(image@) == Err::<Seq<u8>, DecodeError>(e),
        },
{
    match decode_image(image) {
        Err(e) => Err(e),
        Ok(bytes) => Ok(sha256(bytes.as_slice())),
    }
}

/// The UTF-8 bytes of a string.
pub open spec fn utf8(text: Seq<char>) -> Seq<u8> {
    vstd::utf8::encode_utf8(text)
}

/// A canonical message: the bytes of the tag, then those of an encoded
/// key, then a digest, which is empty where the message carries none.
pub open spec fn canonical_message(tag: Seq<char>, encoded_key: Seq<char>, digest: Seq<u8>) -> Seq<
    u8,
> {
    utf8(tag) + utf8(encoded_key) + digest
}

fn append_bytes(message: &mut Vec<u8>, bytes: &[u8])
    ensures
        final(message)@ == old(message)@ + bytes@,
{
    let mut i: usize = 0;
    while i < bytes.len()
        invariant
            i <= bytes.len(),
            message@ == old(message)@ + bytes@.take(i as int),
        decreases bytes.len() - i,
    {
        message.push(bytes[i]);
        assert(bytes@.take(i + 1) =~= bytes@.take(i as int).push(bytes@[i as int]));
        i += 1;
    }
    assert(bytes@.take(bytes.len() as int) =~= bytes@);
}

/// Builds a canonical message.
pub fn build_message(tag: &str, encoded_key: &str, digest: &[u8]) -> (message: Vec<u8>)
    ensures
        message@ == canonical_message(tag@, encoded_key@, digest@),
{
    let mut message: Vec<u8> = Vec::new();
    append_bytes(&mut message, tag.as_bytes());
    append_bytes(&mut message, encoded_key.as_bytes());
    append_bytes(&mut message, digest);
    assert(message@ =~= canonical_message(tag@, encoded_key@, digest@));
    message
}

/// The message that the treasure key signs when the treasure is planted:
/// `"plant"`, the account's encoded key, and the digest of the image.
pub open spec fn plant_message_for_treasure(account_key: Seq<char>, digest: Seq<u8>) -> Seq<u8> {
    canonical_message(PLANT_TAG@, account_key, digest)
}

/// The message that the account signs when it plants a treasure: `"plant"`
/// and the treasure's encoded key.
pub open spec fn plant_message_for_account(treasure_key: Seq<char>) -> Seq<u8> {
    canonical_message(PLANT_TAG@, treasure_key, Seq::empty())
}

/// The message that the treasure key signs when the treasure is claimed:
/// `"claim"` and the account's encoded key.
pub open spec fn claim_message_for_treasure(account_key: Seq<char>) -> Seq<u8> {
    canonical_message(CLAIM_TAG@, account_key, Seq::empty())
}

/// The message that the account signs when it claims a treasure: `"claim"`
/// and the treasure's encoded key.
pub open spec fn claim_message_for_account(treasure_key: Seq<char>) -> Seq<u8> {
    canonical_message(CLAIM_TAG@, treasure_key, Seq::empty())
}

/// Whether `signature` is the treasure's signature of the plant by
/// `account_key` of an image with the digest `treasure_hash`.
pub fn verify_plant_request_for_treasure(
    treasure_key: &TreasurePublicKey,
    account_key: &AccountPublicKey,
    treasure_hash: &[u8],
    signature: &Signature,
) -> (valid: bool)
    ensures
        valid == ed25519_accepts(
            treasure_key.spec_bytes(),
            plant_message_for_treasure(account_key.spec_encoded(), treasure_hash@),
            signature@,
        ),
{
    let message = build_message(PLANT_TAG, account_key.encoded.as_str(), treasure_hash);
    ed25519_verify(treasure_key.bytes.as_slice(), message.as_slice(), signature.bytes.as_slice())
}

/// Whether `signature` is the account's signature of its plant of the
/// treasure `treasure_key`.
pub fn verify_plant_request_for_account(
    account_key: &AccountPublicKey,
    treasure_key: &TreasurePublicKey,
    signature: &Signature,
) -> (valid: bool)
    ensures
        valid == ed25519_accepts(
            account_key.spec_bytes(),
            plant_message_for_account(treasure_key.spec_encoded()),
            signature@,
        ),
{
    let none: Vec<u8> = Vec::new();
    let message = build_message(PLANT_TAG, treasure_key.encoded.as_str(), none.as_slice());
    ed25519_verify(account_key.bytes.as_slice(), message.as_slice(), signature.bytes.as_slice())
}

/// Whether `signature` is the treasure's signature of the claim by
/// `account_key`.
pub fn verify_claim_request_for_treasure(
    treasure_key: &TreasurePublicKey,
    account_key: &AccountPublicKey,
    signature: &Signature,
) -> (valid: bool)
    ensures
        valid == ed25519_accepts(
            treasure_key.spec_bytes(),
            claim_message_for_treasure(account_key.spec_encoded()),
            signature@,
        ),
{
    let none: Vec<u8> = Vec::new();
    let message = build_message(CLAIM_TAG, account_key.encoded.as_str(), none.as_slice());
    ed25519_verify(treasure_key.bytes.as_slice(), message.as_slice(), signature.bytes.as_slice())
}

/// Whether `signature` is the account's signature of its claim of the
/// treasure `treasure_key`.
pub fn verify_claim_request_for_account(
    account_key: &AccountPublicKey,
    treasure_key: &TreasurePublicKey,
    signature: &Signature,
) -> (valid: bool)
    ensures
        valid == ed25519_accepts(
            account_key.spec_bytes(),
            claim_message_for_account(treasure_key.spec_encoded()),
            signature@,
        ),
{
    let none: Vec<u8> = Vec::new();
    let message = build_message(CLAIM_TAG, treasure_key.encoded.as_str(), none.as_slice());
    ed25519_verify(account_key.bytes.as_slice(), message.as_slice(), signature.bytes.as_slice())
}

} // verus!
