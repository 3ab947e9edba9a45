//! The requests as they are recorded, and the compact records that go to
//! the ledger.

use vstd::prelude::*;

verus! {

/// A request to plant a treasure, signed by the planting account and by
/// the treasure key.
#[derive(Debug, Hash, Eq, PartialEq)]
pub struct PlantRequest {
    /// The public key of the account that is planting the treasure,
    /// bech32 encoded
    pub account_public_key: String,
    /// A public key to represent the treasure, bech32 encoded
    pub treasure_public_key: String,
    /// An image, base64 encoded
    pub image: String,
    /// A base64-encoded signature by the account of
    /// the string "plant",
    /// appended by the encoded treasure public key.
    pub account_signature: String,
    /// A base64-encoded signature by the treasure key of
    /// the string "plant",
    /// appended by the encoded account public key,
    /// appended by the binary sha256 hash of the image.
    pub treasure_signature: String,
}

/// A `PlantRequest` as a mathematical value.
pub struct PlantRequestView {
    pub account_public_key: Seq<char>,
    pub treasure_public_key: Seq<char>,
    pub image: Seq<char>,
    pub account_signature: Seq<char>,
    pub treasure_signature: Seq<char>,
}

impl View for PlantRequest {
    type V = PlantRequestView;

    open spec fn view(&self) -> PlantRequestView {
        PlantRequestView {
            account_public_key: self.account_public_key@,
            treasure_public_key: self.treasure_public_key@,
            image: self.image@,
            account_signature: self.account_signature@,
            treasure_signature: self.treasure_signature@,
        }
    }
}

/// A request to claim a planted treasure, signed by the claiming account
/// and by the treasure key.
#[derive(Debug, Hash, Eq, PartialEq)]
pub struct ClaimRequest {
    /// The public key of the claiming account, bech32 encoded
    pub account_public_key: String,
    /// The public key of the treasure, bech32 encoded
    pub treasure_public_key: String,
    /// A base64-encoded signature by the account key of
    /// the string "claim",
    /// appended by the encoded treasure public key,
    pub account_signature: String,
    /// A base64-encoded signature by the treasure key of
    /// the string "claim",
    /// appended by the encoded account public key.
    pub treasure_signature: String,
}

/// A `ClaimRequest` as a mathematical value.
pub struct ClaimRequestView {
    pub account_public_key: Seq<char>,
    pub treasure_public_key: Seq<char>,
    pub account_signature: Seq<char>,
    pub treasure_signature: Seq<char>,
}

impl View for ClaimRequest {
    type V = ClaimRequestView;

    open spec fn view(&self) -> ClaimRequestView {
        ClaimRequestView {
            account_public_key: self.account_public_key@,
            treasure_public_key: self.treasure_public_key@,
            account_signature: self.account_signature@,
            treasure_signature: self.treasure_signature@,
        }
    }
}

/// What is submitted to the ledger.
#[derive(Debug, Eq, PartialEq)]
pub enum GeonftRequestSolana {
    PlantTreasure(PlantRequestSolana),
    ClaimTreasure(ClaimRequestSolana),
}

/// The ledger's record of a plant. It carries the digest of the image, not
/// the image.
#[derive(Debug, Hash, Eq, PartialEq)]
pub struct PlantRequestSolana {
    /// The public key of the account that is planting the treasure
    pub account_public_key: Vec<u8>,
    /// A public key to represent the treasure
    pub treasure_public_key: Vec<u8>,
    /// The sha256 hash of the image
    pub treasure_hash: Vec<u8>,
}

/// The ledger's record of a claim.
#[derive(Debug, Hash, Eq, PartialEq)]
pub struct ClaimRequestSolana {
    /// The public key of the claiming account
    pub account_public_key: Vec<u8>,
    /// A public key to represent the treasure
    pub treasure_public_key: Vec<u8>,
}

/// A `GeonftRequestSolana` as a mathematical value.
pub enum LedgerRecord {
    PlantTreasure { account_public_key: Seq<u8>, treasure_public_key: Seq<u8>, treasure_hash: Seq<u8> },
    ClaimTreasure { account_public_key: Seq<u8>, treasure_public_key: Seq<u8> },
}

impl View for GeonftRequestSolana {
    type V = LedgerRecord;

    open spec fn view(&self) -> LedgerRecord {
        match self {
            GeonftRequestSolana::PlantTreasure(plant) => LedgerRecord::PlantTreasure {
                account_public_key: plant.account_public_key@,
                treasure_public_key: plant.treasure_public_key@,
                treasure_hash: plant.treasure_hash@,
            },
            GeonftRequestSolana::ClaimTreasure(claim) => LedgerRecord::ClaimTreasure {
                account_public_key: claim.account_public_key@,
                treasure_public_key: claim.treasure_public_key@,
            },
        }
    }
}

} // verus!
