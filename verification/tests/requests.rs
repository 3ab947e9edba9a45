use ed25519_dalek::{Signer as DalekSigner, SigningKey, VerifyingKey};
use geonft::api::{
    authenticate, claim_treasure_with_key, plant_treasure_with_key, ClaimResponse, Field,
    PlantResponse, RequestError, Signer, CLAIM_MESSAGE, HOST, PLANT_PATH,
};
use geonft::crypto::DecodeError;
use geonft::data::{ClaimRequest, PlantRequest};
use sha2::Digest;

const IMAGE: [u8; 16] = [0x89, b'P', b'N', b'G', 1, 2, 3, 4, 5, 6, 7, 8, 9, 10, 11, 12];

fn signer(seed: u8) -> SigningKey {
    SigningKey::from_bytes(&[seed; 32])
}

fn bech32_of(prefix: &str, data: &[u8]) -> String {
    bech32::encode::<bech32::Bech32>(bech32::Hrp::parse(prefix).unwrap(), data).unwrap()
}

fn sha256(data: &[u8]) -> Vec<u8> {
    sha2::Sha256::digest(data).to_vec()
}

/// A plant request by the reference signer; the keys and the image may be
/// replaced in what is sent, and each signature is made over what is given.
fn plant_request(
    account: &SigningKey,
    treasure: &SigningKey,
    account_key: &[u8],
    treasure_key: &[u8],
    image: &[u8],
) -> PlantRequest {
    let account_text = bech32_of("gap", &account.verifying_key().to_bytes());
    let treasure_text = bech32_of("gtp", &treasure.verifying_key().to_bytes());
    let mut for_account = b"plant".to_vec();
    for_account.extend_from_slice(treasure_text.as_bytes());
    let mut for_treasure = b"plant".to_vec();
    for_treasure.extend_from_slice(account_text.as_bytes());
    for_treasure.extend_from_slice(&sha256(&IMAGE));
    PlantRequest {
        account_public_key: bech32_of("gap", account_key),
        treasure_public_key: bech32_of("gtp", treasure_key),
        image: base64::encode(image),
        account_signature: base64::encode(account.sign(&for_account).to_bytes()),
        treasure_signature: base64::encode(treasure.sign(&for_treasure).to_bytes()),
    }
}

fn good_plant(account: &SigningKey, treasure: &SigningKey) -> PlantRequest {
    plant_request(
        account,
        treasure,
        &account.verifying_key().to_bytes(),
        &treasure.verifying_key().to_bytes(),
        &IMAGE,
    )
}

fn good_claim(account: &SigningKey, treasure: &SigningKey) -> ClaimRequest {
    let account_text = bech32_of("gap", &account.verifying_key().to_bytes());
    let treasure_text = bech32_of("gtp", &treasure.verifying_key().to_bytes());
    let mut for_account = b"claim".to_vec();
    for_account.extend_from_slice(treasure_text.as_bytes());
    let mut for_treasure = b"claim".to_vec();
    for_treasure.extend_from_slice(account_text.as_bytes());
    ClaimRequest {
        account_public_key: account_text,
        treasure_public_key: treasure_text,
        account_signature: base64::encode(account.sign(&for_account).to_bytes()),
        treasure_signature: base64::encode(treasure.sign(&for_treasure).to_bytes()),
    }
}

fn flipped(bytes: &[u8], bit: usize) -> Vec<u8> {
    let mut bytes = bytes.to_vec();
    bytes[bit / 8] ^= 1 << (bit % 8);
    bytes
}

fn flipped_base64(text: &str, bit: usize) -> String {
    base64::encode(flipped(&base64::decode(text).unwrap(), bit))
}

fn plant_error(request: &PlantRequest) -> RequestError {
    plant_treasure_with_key(request, false).unwrap_err()
}

fn claim_error(request: &ClaimRequest, plant_recorded: bool) -> RequestError {
    claim_treasure_with_key(request, plant_recorded).unwrap_err()
}

fn decode_error(field: Field, cause: DecodeError) -> RequestError {
    RequestError::Decode { field, cause }
}

fn bytes_that_are_no_key() -> [u8; 32] {
    for first in 0..=255u8 {
        let mut bytes = [0u8; 32];
        bytes[0] = first;
        if VerifyingKey::from_bytes(&bytes).is_err() {
            return bytes;
        }
    }
    unreachable!()
}

#[test]
fn plant_by_the_reference_signer_is_accepted() {
    let account = signer(1);
    let treasure = signer(2);
    let request = good_plant(&account, &treasure);
    let response: PlantResponse = plant_treasure_with_key(&request, false).unwrap();
    assert_eq!(
        response.return_url(),
        &format!("http://localhost:8000/api/plant/{}\n", request.treasure_public_key)
    );
}

#[test]
fn plant_answer_names_the_canonical_key() {
    let account = signer(1);
    let treasure = signer(2);
    let mut request = good_plant(&account, &treasure);
    let canonical = request.treasure_public_key.clone();
    request.treasure_public_key = canonical.to_uppercase();
    request.account_public_key = request.account_public_key.to_uppercase();
    let response = plant_treasure_with_key(&request, false).unwrap();
    assert_eq!(response.return_url(), &format!("{}{}{}\n", HOST, PLANT_PATH, canonical));
    assert_eq!(PlantResponse::new("gtp1k").return_url(), "http://localhost:8000/api/plant/gtp1k\n");
}

#[test]
fn plant_with_any_bit_of_the_image_flipped_is_rejected() {
    let account = signer(1);
    let treasure = signer(2);
    for bit in 0..IMAGE.len() * 8 {
        let request = plant_request(
            &account,
            &treasure,
            &account.verifying_key().to_bytes(),
            &treasure.verifying_key().to_bytes(),
            &flipped(&IMAGE, bit),
        );
        assert_eq!(
            plant_error(&request),
            RequestError::SignatureInvalid { signer: Signer::Treasure }
        );
    }
}

#[test]
fn plant_with_any_bit_of_the_account_key_flipped_is_rejected() {
    let account = signer(1);
    let treasure = signer(2);
    let key = account.verifying_key().to_bytes();
    for bit in 0..key.len() * 8 {
        let request = plant_request(
            &account,
            &treasure,
            &flipped(&key, bit),
            &treasure.verifying_key().to_bytes(),
            &IMAGE,
        );
        let error = plant_error(&request);
        assert!(
            error == decode_error(Field::AccountKey, DecodeError::InvalidKey)
                || error == RequestError::SignatureInvalid { signer: Signer::Treasure }
        );
    }
}

#[test]
fn plant_with_any_bit_of_the_treasure_key_flipped_is_rejected() {
    let account = signer(1);
    let treasure = signer(2);
    let key = treasure.verifying_key().to_bytes();
    for bit in 0..key.len() * 8 {
        let request = plant_request(
            &account,
            &treasure,
            &account.verifying_key().to_bytes(),
            &flipped(&key, bit),
            &IMAGE,
        );
        let error = plant_error(&request);
        assert!(
            error == decode_error(Field::TreasureKey, DecodeError::InvalidKey)
                || error == RequestError::SignatureInvalid { signer: Signer::Treasure }
        );
    }
}

#[test]
fn plant_with_any_bit_of_the_account_signature_flipped_is_rejected() {
    let account = signer(1);
    let treasure = signer(2);
    let good = good_plant(&account, &treasure);
    for bit in 0..64 * 8 {
        let mut request = good_plant(&account, &treasure);
        request.account_signature = flipped_base64(&good.account_signature, bit);
        assert_eq!(
            plant_error(&request),
            RequestError::SignatureInvalid { signer: Signer::Account }
        );
    }
}

#[test]
fn plant_with_any_bit_of_the_treasure_signature_flipped_is_rejected() {
    let account = signer(1);
    let treasure = signer(2);
    let good = good_plant(&account, &treasure);
    for bit in 0..64 * 8 {
        let mut request = good_plant(&account, &treasure);
        request.treasure_signature = flipped_base64(&good.treasure_signature, bit);
        assert_eq!(
            plant_error(&request),
            RequestError::SignatureInvalid { signer: Signer::Treasure }
        );
    }
}

#[test]
fn plant_with_exchanged_signatures_is_rejected() {
    let account = signer(1);
    let treasure = signer(2);
    let mut request = good_plant(&account, &treasure);
    std::mem::swap(&mut request.account_signature, &mut request.treasure_signature);
    assert_eq!(plant_error(&request), RequestError::SignatureInvalid { signer: Signer::Treasure });
}

#[test]
fn plant_parts_are_decoded_in_order() {
    let account = signer(1);
    let treasure = signer(2);
    let broken = |request: &mut PlantRequest, from: usize| {
        if from <= 0 {
            request.treasure_public_key = "no key".to_string();
        }
        if from <= 1 {
            request.account_public_key = request.treasure_public_key.clone();
        }
        if from <= 2 {
            request.treasure_signature = "%".to_string();
        }
        if from <= 3 {
            request.account_signature = base64::encode([0u8; 10]);
        }
        if from <= 4 {
            request.image = "=".to_string();
        }
    };
    let expected = [
        decode_error(Field::TreasureKey, DecodeError::Malformed),
        decode_error(Field::AccountKey, DecodeError::WrongPrefix),
        decode_error(Field::TreasureSignature, DecodeError::Malformed),
        decode_error(Field::AccountSignature, DecodeError::WrongLength),
        decode_error(Field::Image, DecodeError::Malformed),
    ];
    for (from, error) in expected.iter().enumerate() {
        let mut request = good_plant(&account, &treasure);
        broken(&mut request, from);
        assert_eq!(plant_error(&request), *error);
    }
}

#[test]
fn plant_with_bytes_that_are_no_key_is_rejected() {
    let account = signer(1);
    let treasure = signer(2);
    let request = plant_request(
        &account,
        &treasure,
        &account.verifying_key().to_bytes(),
        &bytes_that_are_no_key(),
        &IMAGE,
    );
    assert_eq!(plant_error(&request), decode_error(Field::TreasureKey, DecodeError::InvalidKey));
    let request = plant_request(
        &account,
        &treasure,
        &[1u8; 20],
        &treasure.verifying_key().to_bytes(),
        &IMAGE,
    );
    assert_eq!(plant_error(&request), decode_error(Field::AccountKey, DecodeError::WrongLength));
}

#[test]
fn claim_by_the_reference_signer_is_accepted() {
    let account = signer(3);
    let treasure = signer(2);
    let request = good_claim(&account, &treasure);
    let response: ClaimResponse = claim_treasure_with_key(&request, true).unwrap();
    assert_eq!(response.message(), "Congrats! Treasure received!");
    assert_eq!(CLAIM_MESSAGE, "Congrats! Treasure received!");
    assert_eq!(
        response.return_url(),
        &format!("http://localhost:8000/api/plant/{}\n", request.treasure_public_key)
    );
}

#[test]
fn claim_of_a_treasure_that_was_not_planted_is_rejected() {
    let account = signer(3);
    let treasure = signer(2);
    let mut request = good_claim(&account, &treasure);
    assert_eq!(claim_error(&request, false), RequestError::TreasureMissing);
    // The plant is looked for before anything but the treasure key is read.
    request.account_public_key = "?".to_string();
    request.account_signature = "?".to_string();
    request.treasure_signature = "?".to_string();
    assert_eq!(claim_error(&request, false), RequestError::TreasureMissing);
    request.treasure_public_key = "?".to_string();
    assert_eq!(
        claim_error(&request, false),
        decode_error(Field::TreasureKey, DecodeError::Malformed)
    );
}

#[test]
fn claim_parts_are_decoded_in_order() {
    let account = signer(3);
    let treasure = signer(2);
    let mut request = good_claim(&account, &treasure);
    request.account_signature = "?".to_string();
    assert_eq!(
        claim_error(&request, true),
        decode_error(Field::AccountSignature, DecodeError::Malformed)
    );
    request.treasure_signature = base64::encode([0u8; 65]);
    assert_eq!(
        claim_error(&request, true),
        decode_error(Field::TreasureSignature, DecodeError::WrongLength)
    );
    request.account_public_key = bech32_of("gap", &[]);
    assert_eq!(
        claim_error(&request, true),
        decode_error(Field::AccountKey, DecodeError::WrongLength)
    );
}

#[test]
fn claim_with_a_flipped_bit_in_a_signature_is_rejected() {
    let account = signer(3);
    let treasure = signer(2);
    let good = good_claim(&account, &treasure);
    for bit in (0..64 * 8).step_by(7) {
        let mut request = good_claim(&account, &treasure);
        request.account_signature = flipped_base64(&good.account_signature, bit);
        assert_eq!(
            claim_error(&request, true),
            RequestError::SignatureInvalid { signer: Signer::Account }
        );
        let mut request = good_claim(&account, &treasure);
        request.treasure_signature = flipped_base64(&good.treasure_signature, bit);
        assert_eq!(
            claim_error(&request, true),
            RequestError::SignatureInvalid { signer: Signer::Treasure }
        );
    }
}

#[test]
fn claim_signed_for_another_account_is_rejected() {
    let account = signer(3);
    let treasure = signer(2);
    let mut request = good_claim(&account, &treasure);
    request.account_public_key = bech32_of("gap", &signer(4).verifying_key().to_bytes());
    assert_eq!(
        claim_error(&request, true),
        RequestError::SignatureInvalid { signer: Signer::Treasure }
    );
    // A plant's signatures do not pass for a claim.
    let plant = good_plant(&account, &treasure);
    let request = ClaimRequest {
        account_public_key: plant.account_public_key,
        treasure_public_key: plant.treasure_public_key,
        account_signature: plant.account_signature,
        treasure_signature: good_claim(&account, &treasure).treasure_signature,
    };
    assert_eq!(
        claim_error(&request, true),
        RequestError::SignatureInvalid { signer: Signer::Account }
    );
}

#[test]
fn requests_are_judged_by_both_signatures() {
    assert_eq!(authenticate(true, true), Ok(()));
    assert_eq!(
        authenticate(false, true),
        Err(RequestError::SignatureInvalid { signer: Signer::Treasure })
    );
    assert_eq!(
        authenticate(true, false),
        Err(RequestError::SignatureInvalid { signer: Signer::Account })
    );
    assert_eq!(
        authenticate(false, false),
        Err(RequestError::SignatureInvalid { signer: Signer::Treasure })
    );
}

#[test]
fn plant_of_a_treasure_on_record_is_rejected() {
    let account = signer(1);
    let treasure = signer(2);
    let request = good_plant(&account, &treasure);
    assert!(plant_treasure_with_key(&request, false).is_ok());
    assert_eq!(
        plant_treasure_with_key(&request, true).unwrap_err(),
        RequestError::TreasureExists
    );
    // Another account's valid plant of the same treasure is rejected too.
    let other = good_plant(&signer(5), &treasure);
    assert_ne!(other.account_signature, request.account_signature);
    assert!(plant_treasure_with_key(&other, false).is_ok());
    assert_eq!(plant_treasure_with_key(&other, true).unwrap_err(), RequestError::TreasureExists);
    // The key is looked up in its canonical form, whatever form was sent.
    let mut shouted = good_plant(&account, &treasure);
    shouted.treasure_public_key = shouted.treasure_public_key.to_uppercase();
    assert_eq!(
        plant_treasure_with_key(&shouted, true).unwrap_err(),
        RequestError::TreasureExists
    );
}

#[test]
fn plant_on_record_is_looked_for_after_the_treasure_key() {
    let account = signer(1);
    let treasure = signer(2);
    let mut request = good_plant(&account, &treasure);
    request.account_public_key = "?".to_string();
    request.account_signature = "?".to_string();
    request.treasure_signature = "?".to_string();
    request.image = "?".to_string();
    assert_eq!(
        plant_treasure_with_key(&request, true).unwrap_err(),
        RequestError::TreasureExists
    );
    assert_eq!(
        plant_treasure_with_key(&request, false).unwrap_err(),
        decode_error(Field::AccountKey, DecodeError::Malformed)
    );
    request.treasure_public_key = "?".to_string();
    assert_eq!(
        plant_treasure_with_key(&request, true).unwrap_err(),
        decode_error(Field::TreasureKey, DecodeError::Malformed)
    );
}
