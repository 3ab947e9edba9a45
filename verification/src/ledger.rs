//! The records that are submitted to the ledger, made from the recorded
//! requests.

use crate::api::{Field, RequestError};
use crate::crypto::{
    decode_account_public_key, decode_treasure_public_key, get_hash, hash_of, key_decoding,
    ACCOUNT_KEY_PREFIX, TREASURE_KEY_PREFIX,
};
use crate::data::{
    ClaimRequest, ClaimRequestSolana, ClaimRequestView, GeonftRequestSolana, LedgerRecord,
    PlantRequest, PlantRequestSolana, PlantRequestView,
};
use vstd::prelude::*;

verus! {

fn copy_bytes(bytes: &Vec<u8>) -> (copy: Vec<u8>)
    ensures
        copy@ == bytes@,
{
    let mut copy: Vec<u8> = Vec::new();
    let mut i: usize = 0;
    while i < bytes.len()
        invariant
            i <= bytes.len(),
            copy@ == bytes@.take(i as int),
        decreases bytes.len() - i,
    {
        copy.push(bytes[i]);
        assert(bytes@.take(i + 1) =~= bytes@.take(i as int).push(bytes@[i as int]));
        i += 1;
    }
    assert(bytes@.take(bytes.len() as int) =~= bytes@);
    copy
}

/// The ledger's record of the plant that `request` asks for: the bytes of
/// the two keys and the digest of the image, without the image and without
/// the signatures. The account key is decoded first, then the treasure key,
/// then the image; the first failure is the error.
pub open spec fn plant_record(request: PlantRequestView) -> Result<LedgerRecord, RequestError> {
    match key_decoding(request.account_public_key, ACCOUNT_KEY_PREFIX@) {
        Err(cause) => Err(RequestError::Decode { field: Field::AccountKey, cause }),
        Ok(account) => match key_decoding(request.treasure_public_key, TREASURE_KEY_PREFIX@) {
            Err(cause) => Err(RequestError::Decode { field: Field::TreasureKey, cause }),
            Ok(treasure) => match hash_of(request.image) {
                Err(cause) => Err(RequestError::Decode { field: Field::Image, cause }),
                Ok(digest) => Ok(
                    LedgerRecord::PlantTreasure {
                        account_public_key: account.0,
                        treasure_public_key: treasure.0,
                        treasure_hash: digest,
                    },
                ),
            },
        },
    }
}

/// The ledger's record of the claim that `request` asks for: the bytes of
/// the two keys. The account key is decoded first, then the treasure key;
/// the first failure is the error.
pub open spec fn claim_record(request: ClaimRequestView) -> Result<LedgerRecord, RequestError> {
    match key_decoding(request.account_public_key, ACCOUNT_KEY_PREFIX@) {
        Err(cause) => Err(RequestError::Decode { field: Field::AccountKey, cause }),
        Ok(account) => match key_decoding(request.treasure_public_key, TREASURE_KEY_PREFIX@) {
            Err(cause) => Err(RequestError::Decode { field: Field::TreasureKey, cause }),
            Ok(treasure) => Ok(
                LedgerRecord::ClaimTreasure {
                    account_public_key: account.0,
                    treasure_public_key: treasure.0,
                },
            ),
        },
    }
}

/// Makes the record that is submitted to the ledger for a plant. No
/// signature is verified here.
pub fn plant_payload(request: &PlantRequest) -> (payload: Result<GeonftRequestSolana, RequestError>)
    ensures
        match payload {
            Ok(payload) => plant_record(request@) == Ok::<LedgerRecord, RequestError>(payload@),
            Err(e) => plant_record(request@) == Err::<LedgerRecord, RequestError>(e),
        },
{
    let account_key = match decode_account_public_key(request.account_public_key.as_str()) {
        Ok(key) => key,
        Err(cause) => {
            return Err(RequestError::Decode { field: Field::AccountKey, cause });
        },
    };
    let treasure_key = match decode_treasure_public_key(request.treasure_public_key.as_str()) {
        Ok(key) => key,
        Err(cause) => {
            return Err(RequestError::Decode { field: Field::TreasureKey, cause });
        },
    };
    let treasure_hash = match get_hash(request.image.as_str()) {
        Ok(digest) => digest,
        Err(cause) => {
            return Err(RequestError::Decode { field: Field::Image, cause });
        },
    };
    Ok(
        GeonftRequestSolana::PlantTreasure(
            PlantRequestSolana {
                account_public_key: copy_bytes(account_key.bytes()),
                treasure_public_key: copy_bytes(treasure_key.bytes()),
                treasure_hash,
            },
        ),
    )
}

/// Makes the record that is submitted to the ledger for a claim. No
/// signature is verified here.
pub fn claim_payload(request: &ClaimRequest) -> (payload: Result<GeonftRequestSolana, RequestError>)
    ensures
        match payload {
            Ok(payload) => claim_record(request@) == Ok::<LedgerRecord, RequestError>(payload@),
            Err(e) => claim_record(request@) == Err::<LedgerRecord, RequestError>(e),
        },
{
    let account_key = match decode_account_public_key(request.account_public_key.as_str()) {
        Ok(key) => key,
        Err(cause) => {
            return Err(RequestError::Decode { field: Field::AccountKey, cause });
        },
    };
    let treasure_key = match decode_treasure_public_key(request.treasure_public_key.as_str()) {
        Ok(key) => key,
        Err(cause) => {
            return Err(RequestError::Decode { field: Field::TreasureKey, cause });
        },
    };
    Ok(
        GeonftRequestSolana::ClaimTreasure(
            ClaimRequestSolana {
                account_public_key: copy_bytes(account_key.bytes()),
                treasure_public_key: copy_bytes(treasure_key.bytes()),
            },
        ),
    )
}

} // verus!
