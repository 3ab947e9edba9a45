//! Authenticating plant and claim requests for geographic treasures, and
//! planning and carrying out their publication to a ledger and a content
//! store.

pub mod api;
pub mod crypto;
pub mod data;
pub mod event;
pub mod ledger;
pub mod plan;
pub mod recent;
pub mod round;
pub mod status;
pub mod trace;
