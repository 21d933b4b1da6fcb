//! A peer-to-peer escrow protocol for swapping a custodied fungible asset
//! against payment in a second fungible asset or in native currency.
//!
//! A maker locks an amount of one asset into a program-controlled vault and
//! records what payment it will accept; a taker fulfils the requirement and
//! receives the vaulted asset atomically; alternatively the maker reclaims
//! the asset by cancelling the still-open offer.  Each operation is a single
//! atomic transaction over a [`chain::Chain`] state: it either completes in
//! full or leaves the state exactly as it was.

pub mod chain;
pub mod codec;
pub mod error;
pub mod laws;
pub mod make_offer;
pub mod refund_offer;
pub mod shared;
pub mod state;
pub mod take_offer;
pub mod take_offer_with_sol;

pub use crate::chain::Chain;
pub use crate::codec::{decode_offer, encode_offer};
pub use crate::error::{ChainError, ErrorCode};
pub use crate::make_offer::make_offer;
pub use crate::refund_offer::refund_offer;
pub use crate::shared::{close_token_account, transfer_tokens};
pub use crate::state::{
    Identity, NativeAccount, Offer, OpenOffer, PaymentKind, TokenAccount, CANONICAL_BUMP,
    OFFER_RENT, VAULT_RENT,
};
pub use crate::take_offer::take_offer;
pub use crate::take_offer_with_sol::{take_offer_with_sol, TakeOfferWithSol};
