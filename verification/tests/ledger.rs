use ed25519_dalek::SigningKey;
use geonft::api::{Field, RequestError};
use geonft::crypto::DecodeError;
use geonft::data::{
    ClaimRequest, ClaimRequestSolana, GeonftRequestSolana, PlantRequest, PlantRequestSolana,
};
use geonft::ledger::{claim_payload, plant_payload};

fn public_key(seed: u8) -> [u8; 32] {
    SigningKey::from_bytes(&[seed; 32]).verifying_key().to_bytes()
}

fn bech32_of(prefix: &str, data: &[u8]) -> String {
    bech32::encode::<bech32::Bech32>(bech32::Hrp::parse(prefix).unwrap(), data).unwrap()
}

fn plant() -> PlantRequest {
    PlantRequest {
        account_public_key: bech32_of("gap", &public_key(1)),
        treasure_public_key: bech32_of("gtp", &public_key(2)),
        image: "aGVsbG8=".to_string(),
        account_signature: "unread".to_string(),
        treasure_signature: "unread".to_string(),
    }
}

fn claim() -> ClaimRequest {
    ClaimRequest {
        account_public_key: bech32_of("gap", &public_key(3)),
        treasure_public_key: bech32_of("gtp", &public_key(2)),
        account_signature: "unread".to_string(),
        treasure_signature: "unread".to_string(),
    }
}

#[test]
fn plant_record_holds_the_keys_and_the_digest() {
    let payload = plant_payload(&plant()).unwrap();
    assert_eq!(
        payload,
        GeonftRequestSolana::PlantTreasure(PlantRequestSolana {
            account_public_key: public_key(1).to_vec(),
            treasure_public_key: public_key(2).to_vec(),
            treasure_hash: vec![
                0x2c, 0xf2, 0x4d, 0xba, 0x5f, 0xb0, 0xa3, 0x0e, 0x26, 0xe8, 0x3b, 0x2a, 0xc5,
                0xb9, 0xe2, 0x9e, 0x1b, 0x16, 0x1e, 0x5c, 0x1f, 0xa7, 0x42, 0x5e, 0x73, 0x04,
                0x33, 0x62, 0x93, 0x8b, 0x98, 0x24,
            ],
        })
    );
}

#[test]
fn claim_record_holds_the_keys() {
    let payload = claim_payload(&claim()).unwrap();
    assert_eq!(
        payload,
        GeonftRequestSolana::ClaimTreasure(ClaimRequestSolana {
            account_public_key: public_key(3).to_vec(),
            treasure_public_key: public_key(2).to_vec(),
        })
    );
}

#[test]
fn record_of_a_request_that_does_not_decode_is_refused() {
    let mut request = plant();
    request.image = "?".to_string();
    assert_eq!(
        plant_payload(&request),
        Err(RequestError::Decode { field: Field::Image, cause: DecodeError::Malformed })
    );
    request.treasure_public_key = request.account_public_key.clone();
    assert_eq!(
        plant_payload(&request),
        Err(RequestError::Decode { field: Field::TreasureKey, cause: DecodeError::WrongPrefix })
    );
    request.account_public_key = "gap".to_string();
    assert_eq!(
        plant_payload(&request),
        Err(RequestError::Decode { field: Field::AccountKey, cause: DecodeError::Malformed })
    );

    let mut request = claim();
    request.treasure_public_key = bech32_of("gtp", &[1, 2, 3]);
    assert_eq!(
        claim_payload(&request),
        Err(RequestError::Decode { field: Field::TreasureKey, cause: DecodeError::WrongLength })
    );
    request.account_public_key = bech32_of("gtp", &public_key(3));
    assert_eq!(
        claim_payload(&request),
        Err(RequestError::Decode { field: Field::AccountKey, cause: DecodeError::WrongPrefix })
    );
}
