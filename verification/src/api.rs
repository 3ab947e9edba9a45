//! Plant and claim requests are judged here before they are recorded.

use crate::crypto::{
    base64_decoding, claim_message_for_account, claim_message_for_treasure, decode_account_public_key,
    decode_signature, decode_treasure_public_key, ed25519_accepts, get_hash, hash_of, key_decoding,
    plant_message_for_account, plant_message_for_treasure, signature_of,
    verify_claim_request_for_account, verify_claim_request_for_treasure,
    verify_plant_request_for_account, verify_plant_request_for_treasure, DecodeError,
    ACCOUNT_KEY_PREFIX, TREASURE_KEY_PREFIX,
};
use crate::data::{ClaimRequest, ClaimRequestView, PlantRequest, PlantRequestView};
use vstd::prelude::*;

verus! {

/// The address under which the service is reached.
pub const HOST: &'static str = "http://localhost:8000";

/// The path under which a planted treasure is found, before its key.
pub const PLANT_PATH: &'static str = "/api/plant/";

/// What a successful claim is answered with.
pub const CLAIM_MESSAGE: &'static str = "Congrats! Treasure received!";

/// A part of a request that is decoded.
#[derive(Clone, Copy, Debug, PartialEq, Eq, Structural, Hash)]
pub enum Field {
    TreasureKey,
    AccountKey,
    TreasureSignature,
    AccountSignature,
    Image,
}

/// One of the two keys that sign a request.
#[derive(Clone, Copy, Debug, PartialEq, Eq, Structural, Hash)]
pub enum Signer {
    Treasure,
    Account,
}

/// Why a request was rejected.
#[derive(Clone, Copy, Debug, PartialEq, Eq, Structural, Hash)]
pub enum RequestError {
    /// A key, a signature or the image is not well encoded.
    Decode { field: Field, cause: DecodeError },
    /// A signature is not the signer's signature of the canonical message.
    SignatureInvalid { signer: Signer },
    /// The treasure that is claimed was never planted.
    TreasureMissing,
    /// The treasure that is to be planted is already on record. A treasure
    /// is planted once, and its record is not replaced.
    TreasureExists,
}

/// The answer to a plant that was accepted.
#[derive(Debug)]
pub struct PlantResponse {
    return_url: String,
}

/// The answer to a claim that was accepted.
#[derive(Debug)]
pub struct ClaimResponse {
    message: String,
    return_url: String,
}

/// The address of a planted treasure: the host, the path, the treasure's
/// canonical key and a line feed.
pub open spec fn return_url_of(treasure_key: Seq<char>) -> Seq<char> {
    HOST@ + PLANT_PATH@ + treasure_key + "\n"@
}

fn make_return_url(treasure_key: &str) -> (url: String)
    ensures
        url@ == return_url_of(treasure_key@),
{
    let url = HOST.to_owned();
    let url = url.concat(PLANT_PATH);
    let url = url.concat(treasure_key);
    url.concat("\n")
}

impl PlantResponse {
    /// The address of the planted treasure.
    pub closed spec fn spec_return_url(&self) -> Seq<char> {
        self.return_url@
    }

    /// The answer to the plant of the treasure with this canonical key.
    pub fn new(treasure_key: &str) -> (response: PlantResponse)
        ensures
            response.spec_return_url() == return_url_of(treasure_key@),
    {
        PlantResponse { return_url: make_return_url(treasure_key) }
    }

    /// The address of the planted treasure.
    pub fn return_url(&self) -> (url: &String)
        ensures
            url@ == self.spec_return_url(),
    {
        &self.return_url
    }
}

impl ClaimResponse {
    /// The message to the claimer.
    pub closed spec fn spec_message(&self) -> Seq<char> {
        self.message@
    }

    /// The address of the claimed treasure.
    pub closed spec fn spec_return_url(&self) -> Seq<char> {
        self.return_url@
    }

    /// The answer to the claim of the treasure with this canonical key.
    pub fn new(treasure_key: &str) -> (response: ClaimResponse)
        ensures
            response.spec_message() == CLAIM_MESSAGE@,
            response.spec_return_url() == return_url_of(treasure_key@),
    {
        ClaimResponse {
            message: CLAIM_MESSAGE.to_owned(),
            return_url: make_return_url(treasure_key),
        }
    }

    /// The message to the claimer.
    pub fn message(&self) -> (message: &String)
        ensures
            message@ == self.spec_message(),
    {
        &self.message
    }

    /// The address of the claimed treasure.
    pub fn return_url(&self) -> (url: &String)
        ensures
            url@ == self.spec_return_url(),
    {
        &self.return_url
    }
}

/// A request is authentic when both signatures are valid. The treasure's
/// signature is judged first.
pub open spec fn authenticity(treasure_signed: bool, account_signed: bool) -> Result<
    (),
    RequestError,
> {
    if !treasure_signed {
        Err(RequestError::SignatureInvalid { signer: Signer::Treasure })
    } else if !account_signed {
        Err(RequestError::SignatureInvalid { signer: Signer::Account })
    } else {
        Ok(())
    }
}

/// Judges a request by the validity of its two signatures.
pub fn authenticate(treasure_signed: bool, account_signed: bool) -> (verdict: Result<
    (),
    RequestError,
>)
    ensures
        verdict == authenticity(treasure_signed, account_signed),
{
    if !treasure_signed {
        Err(RequestError::SignatureInvalid { signer: Signer::Treasure })
    } else if !account_signed {
        Err(RequestError::SignatureInvalid { signer: Signer::Account })
    } else {
        Ok(())
    }
}

/// The canonical key of the treasure that `request` plants, when the
/// request is to be accepted, and else the reason why it is rejected;
/// `plant_recorded` says whether a plant of the treasure with that
/// canonical key is already on record. The treasure key is decoded first;
/// then no plant of the treasure may be on record; then the account key,
/// the treasure signature, the account signature and the image are
/// decoded; then the treasure's signature is verified, then the account's.
/// The first failure is the reason.
pub open spec fn plant_verdict(request: PlantRequestView, plant_recorded: bool) -> Result<
    Seq<char>,
    RequestError,
> {
    match key_decoding(request.treasure_public_key, TREASURE_KEY_PREFIX@) {
        Err(cause) => Err(RequestError::Decode { field: Field::TreasureKey, cause }),
        Ok(treasure) => if plant_recorded {
            Err(RequestError::TreasureExists)
        } else {
            match key_decoding(request.account_public_key, ACCOUNT_KEY_PREFIX@) {
                Err(cause) => Err(RequestError::Decode { field: Field::AccountKey, cause }),
                Ok(account) => match signature_of(base64_decoding(request.treasure_signature)) {
                    Err(cause) => Err(
                        RequestError::Decode { field: Field::TreasureSignature, cause },
                    ),
                    Ok(treasure_signature) => match signature_of(
                        base64_decoding(request.account_signature),
                    ) {
                        Err(cause) => Err(
                            RequestError::Decode { field: Field::AccountSignature, cause },
                        ),
                        Ok(account_signature) => match hash_of(request.image) {
                            Err(cause) => Err(
                                RequestError::Decode { field: Field::Image, cause },
                            ),
                            Ok(digest) => match authenticity(
                                ed25519_accepts(
                                    treasure.0,
                                    plant_message_for_treasure(account.1, digest),
                                    treasure_signature,
                                ),
                                ed25519_accepts(
                                    account.0,
                                    plant_message_for_account(treasure.1),
                                    account_signature,
                                ),
                            ) {
                                Err(e) => Err(e),
                                Ok(_) => Ok(treasure.1),
                            },
                        },
                    },
                },
            }
        },
    }
}

/// The canonical key of the treasure that `request` claims, when the
/// request is to be accepted, and else the reason why it is rejected;
/// `plant_recorded` says whether a plant of the treasure with that
/// canonical key is on record. The treasure key is decoded first; then the
/// plant must be on record; then the account key, the treasure signature
/// and the account signature are decoded; then the treasure's signature is
/// verified, then the account's. The first failure is the reason.
pub open spec fn claim_verdict(request: ClaimRequestView, plant_recorded: bool) -> Result<
    Seq<char>,
    RequestError,
> {
    match key_decoding(request.treasure_public_key, TREASURE_KEY_PREFIX@) {
        Err(cause) => Err(RequestError::Decode { field: Field::TreasureKey, cause }),
        Ok(treasure) => if !plant_recorded {
            Err(RequestError::TreasureMissing)
        } else {
            match key_decoding(request.account_public_key, ACCOUNT_KEY_PREFIX@) {
                Err(cause) => Err(RequestError::Decode { field: Field::AccountKey, cause }),
                Ok(account) => match signature_of(base64_decoding(request.treasure_signature)) {
                    Err(cause) => Err(
                        RequestError::Decode { field: Field::TreasureSignature, cause },
                    ),
                    Ok(treasure_signature) => match signature_of(
                        base64_decoding(request.account_signature),
                    ) {
                        Err(cause) => Err(
                            RequestError::Decode { field: Field::AccountSignature, cause },
                        ),
                        Ok(account_signature) => match authenticity(
                            ed25519_accepts(
                                treasure.0,
                                claim_message_for_treasure(account.1),
                                treasure_signature,
                            ),
                            ed25519_accepts(
                                account.0,
                                claim_message_for_account(treasure.1),
                                account_signature,
                            ),
                        ) {
                            Err(e) => Err(e),
                            Ok(_) => Ok(treasure.1),
                        },
                    },
                },
            }
        },
    }
}

/// Every part of the plant request decodes, and each of the two
/// signatures is accepted for its canonical message under its signer's key.
pub open spec fn plant_signatures_verify(request: PlantRequestView) -> bool {
    match (
        key_decoding(request.treasure_public_key, TREASURE_KEY_PREFIX@),
        key_decoding(request.account_public_key, ACCOUNT_KEY_PREFIX@),
        signature_of(base64_decoding(request.treasure_signature)),
        signature_of(base64_decoding(request.account_signature)),
        hash_of(request.image),
    ) {
        (Ok(treasure), Ok(account), Ok(treasure_signature), Ok(account_signature), Ok(digest)) => {
            &&& ed25519_accepts(
                treasure.0,
                plant_message_for_treasure(account.1, digest),
                treasure_signature,
            )
            &&& ed25519_accepts(
                account.0,
                plant_message_for_account(treasure.1),
                account_signature,
            )
        },
        _ => false,
    }
}

/// Every part of the claim request decodes, and each of the two
/// signatures is accepted for its canonical message under its signer's key.
pub open spec fn claim_signatures_verify(request: ClaimRequestView) -> bool {
    match (
        key_decoding(request.treasure_public_key, TREASURE_KEY_PREFIX@),
        key_decoding(request.account_public_key, ACCOUNT_KEY_PREFIX@),
        signature_of(base64_decoding(request.treasure_signature)),
        signature_of(base64_decoding(request.account_signature)),
    ) {
        (Ok(treasure), Ok(account), Ok(treasure_signature), Ok(account_signature)) => {
            &&& ed25519_accepts(
                treasure.0,
                claim_message_for_treasure(account.1),
                treasure_signature,
            )
            &&& ed25519_accepts(
                account.0,
                claim_message_for_account(treasure.1),
                account_signature,
            )
        },
        _ => false,
    }
}

/// A plant request is accepted exactly when no plant of its treasure is on
/// record and both of its signatures verify against their canonical
/// messages, and it is then accepted under the canonical encoding of its
/// treasure key.
pub proof fn lemma_plant_is_authentic_exactly_when(request: PlantRequestView, plant_recorded: bool)
    ensures
        plant_verdict(request, plant_recorded) is Ok <==> !plant_recorded
            && plant_signatures_verify(request),
        plant_verdict(request, plant_recorded) matches Ok(key) ==> key_decoding(
            request.treasure_public_key,
            TREASURE_KEY_PREFIX@,
        ) matches Ok(treasure) && key == treasure.1,
{
}

/// A treasure is planted once: whatever a request holds, it is rejected
/// when a plant of its treasure is on record, and no request with a
/// treasure key that decodes is then rejected for another reason.
pub proof fn lemma_recorded_treasure_is_not_planted_again(request: PlantRequestView)
    ensures
        plant_verdict(request, true) is Err,
        key_decoding(request.treasure_public_key, TREASURE_KEY_PREFIX@) is Ok ==> plant_verdict(
            request,
            true,
        ) == Err::<Seq<char>, RequestError>(RequestError::TreasureExists),
{
}

/// A claim request is accepted exactly when a plant of its treasure is on
/// record and both of its signatures verify against their canonical
/// messages, and it is then accepted under the canonical encoding of its
/// treasure key.
pub proof fn lemma_claim_is_authentic_exactly_when(request: ClaimRequestView, plant_recorded: bool)
    ensures
        claim_verdict(request, plant_recorded) is Ok <==> plant_recorded
            && claim_signatures_verify(request),
        claim_verdict(request, plant_recorded) matches Ok(key) ==> key_decoding(
            request.treasure_public_key,
            TREASURE_KEY_PREFIX@,
        ) matches Ok(treasure) && key == treasure.1,
{
}

/// Validates a request to plant a treasure; `plant_recorded` says whether
/// a plant of the treasure is already on record under the treasure's
/// canonical key. The request is accepted exactly when `plant_verdict`
/// gives a key, and the answer then holds the address of the treasure
/// under that key; it is rejected with the error that `plant_verdict`
/// gives otherwise. Nothing is stored here: the caller records an accepted
/// request under the treasure's canonical key, and leaves a record that is
/// there as it is.
pub fn plant_treasure_with_key(plant_info: &PlantRequest, plant_recorded: bool) -> (response:
    Result<PlantResponse, RequestError>)
    ensures
        match response {
            Ok(response) => plant_verdict(plant_info@, plant_recorded) is Ok
                && response.spec_return_url() == return_url_of(
                plant_verdict(plant_info@, plant_recorded)->Ok_0,
            ),
            Err(e) => plant_verdict(plant_info@, plant_recorded) == Err::<Seq<char>, RequestError>(
                e,
            ),
        },
{
    let treasure_key = match decode_treasure_public_key(plant_info.treasure_public_key.as_str()) {
        Ok(key) => key,
        Err(cause) => {
            return Err(RequestError::Decode { field: Field::TreasureKey, cause });
        },
    };
    if plant_recorded {
        return Err(RequestError::TreasureExists);
    }
    let account_key = match decode_account_public_key(plant_info.account_public_key.as_str()) {
        Ok(key) => key,
        Err(cause) => {
            return Err(RequestError::Decode { field: Field::AccountKey, cause });
        },
    };
    let treasure_signature = match decode_signature(plant_info.treasure_signature.as_str()) {
        Ok(signature) => signature,
        Err(cause) => {
            return Err(RequestError::Decode { field: Field::TreasureSignature, cause });
        },
    };
    let account_signature = match decode_signature(plant_info.account_signature.as_str()) {
        Ok(signature) => signature,
        Err(cause) => {
            return Err(RequestError::Decode { field: Field::AccountSignature, cause });
        },
    };
    let treasure_hash = match get_hash(plant_info.image.as_str()) {
        Ok(digest) => digest,
        Err(cause) => {
            return Err(RequestError::Decode { field: Field::Image, cause });
        },
    };
    let treasure_signed = verify_plant_request_for_treasure(
        &treasure_key,
        &account_key,
        treasure_hash.as_slice(),
        &treasure_signature,
    );
    let account_signed = verify_plant_request_for_account(
        &account_key,
        &treasure_key,
        &account_signature,
    );
    match authenticate(treasure_signed, account_signed) {
        Err(e) => Err(e),
        Ok(_) => Ok(PlantResponse::new(treasure_key.encoded().as_str())),
    }
}

/// Validates a request to claim a treasure; `plant_recorded` says whether
/// a plant of the treasure is on record under the treasure's canonical
/// key. The request is accepted exactly when `claim_verdict` gives a key,
/// and the answer then holds the message to the claimer and the address of
/// the treasure under that key; it is rejected with the error that
/// `claim_verdict` gives otherwise. Nothing is stored here: the caller
/// records an accepted request under the treasure's canonical key.
pub fn claim_treasure_with_key(claim_info: &ClaimRequest, plant_recorded: bool) -> (response:
    Result<ClaimResponse, RequestError>)
    ensures
        match response {
            Ok(response) => claim_verdict(claim_info@, plant_recorded) is Ok
                && response.spec_message() == CLAIM_MESSAGE@ && response.spec_return_url()
                == return_url_of(claim_verdict(claim_info@, plant_recorded)->Ok_0),
            Err(e) => claim_verdict(claim_info@, plant_recorded) == Err::<Seq<char>, RequestError>(
                e,
            ),
        },
{
    let treasure_key = match decode_treasure_public_key(claim_info.treasure_public_key.as_str()) {
        Ok(key) => key,
        Err(cause) => {
            return Err(RequestError::Decode { field: Field::TreasureKey, cause });
        },
    };
    if !plant_recorded {
        return Err(RequestError::TreasureMissing);
    }
    let account_key = match decode_account_public_key(claim_info.account_public_key.as_str()) {
        Ok(key) => key,
        Err(cause) => {
            return Err(RequestError::Decode { field: Field::AccountKey, cause });
        },
    };
    let treasure_signature = match decode_signature(claim_info.treasure_signature.as_str()) {
        Ok(signature) => signature,
        Err(cause) => {
            return Err(RequestError::Decode { field: Field::TreasureSignature, cause });
        },
    };
    let account_signature = match decode_signature(claim_info.account_signature.as_str()) {
        Ok(signature) => signature,
        Err(cause) => {
            return Err(RequestError::Decode { field: Field::AccountSignature, cause });
        },
    };
    let treasure_signed = verify_claim_request_for_treasure(
        &treasure_key,
        &account_key,
        &treasure_signature,
    );
    let account_signed = verify_claim_request_for_account(
        &account_key,
        &treasure_key,
        &account_signature,
    );
    match authenticate(treasure_signed, account_signed) {
        Err(e) => Err(e),
        Ok(_) => Ok(ClaimResponse::new(treasure_key.encoded().as_str())),
    }
}

} // verus!
