use vstd::prelude::*;

use crate::chain::{offers_valid, spec_offer, Chain};
use crate::error::{ChainError, ErrorCode};
use crate::make_offer::{make_offer_outcome, make_offer_post};
use crate::refund_offer::{refund_offer_outcome, refund_offer_post};
use crate::take_offer::{take_offer_outcome, take_offer_post};
use crate::take_offer_with_sol::{take_offer_with_sol_outcome, take_offer_with_sol_post};
use crate::state::{Identity, OpenOffer, PaymentKind, OFFER_RENT, VAULT_RENT};

verus! {

proof fn lemma_spec_offer_props(s: Seq<OpenOffer>, id: u64)
    requires
        offers_valid(s),
    ensures
        match spec_offer(s, id) {
            Some(oo) => oo.valid() && oo.offer.id == id,
            None => true,
        },
    decreases s.len(),
{
    if s.len() > 0 {
        assert(s[0].valid());
        if s[0].offer.id != id {
            assert forall|k: int| 0 <= k < s.drop_first().len() implies (#[trigger] s.drop_first()[k]).valid() by {
                assert(s.drop_first()[k] == s[k + 1]);
            }
            lemma_spec_offer_props(s.drop_first(), id);
        }
    }
}

/// Every offer open in a well-formed state is a valid escrow: its vault
/// balance equals the recorded offered amount, that amount is strictly
/// positive, and an asset-for-asset payment names a mint different from the
/// offered one.  The record is stored under its own id.
pub proof fn lemma_open_offer_valid(c: Chain, id: u64)
    requires
        c.wf(),
    ensures
        match c.offer_of(id) {
            Some(oo) => oo.valid() && oo.offer.id == id,
            None => true,
        },
{
    lemma_spec_offer_props(c.offers@, id);
}

/// Every valid creation locks exactly the offered amount: afterwards the
/// vault under `id` holds `token_a_offered_amount`, which is positive.
pub proof fn lemma_create_fills_vault(
    pre: Chain,
    post: Chain,
    maker: Identity,
    token_mint_a: Identity,
    id: u64,
    token_a_offered_amount: u64,
    payment: PaymentKind,
)
    requires
        pre.wf(),
        make_offer_outcome(pre, maker, token_mint_a, id, token_a_offered_amount, payment).is_ok(),
        make_offer_post(pre, post, maker, token_mint_a, id, token_a_offered_amount, payment),
    ensures
        match post.offer_of(id) {
            Some(oo) => oo.vault_amount == token_a_offered_amount && token_a_offered_amount > 0,
            None => false,
        },
{
}

/// A creation whose offered amount is zero is rejected with InvalidAmount,
/// whatever the payment terms.
pub proof fn lemma_create_rejects_zero_amount(
    pre: Chain,
    maker: Identity,
    token_mint_a: Identity,
    id: u64,
    payment: PaymentKind,
)
    requires
        pre.offer_of(id).is_none(),
        pre.lamports_of(maker) >= OFFER_RENT + VAULT_RENT,
    ensures
        make_offer_outcome(pre, maker, token_mint_a, id, 0, payment) == Err::<(), ChainError>(
            ChainError::Program(ErrorCode::InvalidAmount),
        ),
{
}

/// A creation offering an asset against itself — the required mint equal to
/// the offered mint — always fails with InvalidTokenMint.
pub proof fn lemma_create_rejects_same_mint(
    pre: Chain,
    maker: Identity,
    token_mint_a: Identity,
    id: u64,
    token_a_offered_amount: u64,
    required_amount: u64,
)
    requires
        pre.offer_of(id).is_none(),
        pre.lamports_of(maker) >= OFFER_RENT + VAULT_RENT,
        token_a_offered_amount > 0,
    ensures
        make_offer_outcome(
            pre,
            maker,
            token_mint_a,
            id,
            token_a_offered_amount,
            PaymentKind::Token { mint: token_mint_a, amount: required_amount },
        ) == Err::<(), ChainError>(ChainError::Program(ErrorCode::InvalidTokenMint)),
{
}

/// After a successful asset settlement the offer record and its vault no
/// longer exist, the vault's reserve has gone to the taker, and the
/// record's reserve has gone back to the maker.
pub proof fn lemma_take_offer_teardown(pre: Chain, post: Chain, taker: Identity, id: u64)
    requires
        pre.wf(),
        take_offer_outcome(pre, taker, id).is_ok(),
        take_offer_post(pre, post, taker, id),
    ensures
        post.offer_of(id).is_none(),
        match pre.offer_of(id) {
            Some(oo) => {
                if taker == oo.offer.maker {
                    post.lamports_of(taker) == pre.lamports_of(taker) + VAULT_RENT + OFFER_RENT
                } else {
                    post.lamports_of(taker) == pre.lamports_of(taker) + VAULT_RENT
                        && post.lamports_of(oo.offer.maker) == pre.lamports_of(oo.offer.maker)
                        + OFFER_RENT
                }
            },
            None => false,
        },
{
}

/// After a successful native-currency settlement the offer record and its
/// vault no longer exist, the vault's reserve has gone to the taker, and
/// the record's reserve has gone back to the maker (along with the payment).
pub proof fn lemma_take_offer_with_sol_teardown(pre: Chain, post: Chain, taker: Identity, id: u64)
    requires
        pre.wf(),
        take_offer_with_sol_outcome(pre, taker, id).is_ok(),
        take_offer_with_sol_post(pre, post, taker, id),
    ensures
        post.offer_of(id).is_none(),
        match pre.offer_of(id) {
            Some(oo) => match oo.offer.payment {
                PaymentKind::Sol { lamports: due } => {
                    if taker == oo.offer.maker {
                        post.lamports_of(taker) == pre.lamports_of(taker) + VAULT_RENT + OFFER_RENT
                    } else {
                        post.lamports_of(taker) == pre.lamports_of(taker) - due + VAULT_RENT
                            && post.lamports_of(oo.offer.maker) == pre.lamports_of(oo.offer.maker)
                            + due + OFFER_RENT
                    }
                },
                PaymentKind::Token { .. } => false,
            },
            None => false,
        },
{
}

/// After a successful cancellation the offer record and its vault no longer
/// exist and both reserves have returned to the maker.
pub proof fn lemma_refund_teardown(pre: Chain, post: Chain, signer: Identity, id: u64)
    requires
        pre.wf(),
        refund_offer_outcome(pre, signer, id).is_ok(),
        refund_offer_post(pre, post, signer, id),
    ensures
        post.offer_of(id).is_none(),
        post.lamports_of(signer) == pre.lamports_of(signer) + VAULT_RENT + OFFER_RENT,
{
}

/// The terminal transitions are mutually exclusive and single-use: once the
/// record under `id` is gone — settled either way, or cancelled — every
/// further settlement or cancellation of that id is rejected as not found.
pub proof fn lemma_closed_offer_rejects_all(c: Chain, caller: Identity, id: u64)
    requires
        c.offer_of(id).is_none(),
    ensures
        take_offer_outcome(c, caller, id) == Err::<(), ChainError>(ChainError::AccountNotFound),
        take_offer_with_sol_outcome(c, caller, id) == Err::<(), ChainError>(
            ChainError::AccountNotFound,
        ),
        refund_offer_outcome(c, caller, id) == Err::<(), ChainError>(ChainError::AccountNotFound),
{
}

/// The protocol never cross-settles: settling with the required asset fails
/// with UnsupportedPaymentMethod on a native-currency offer, and settling
/// with native currency fails the same way on an asset-for-asset offer.
pub proof fn lemma_cross_settlement_rejected(pre: Chain, taker: Identity, id: u64)
    requires
        pre.offer_of(id).is_some(),
    ensures
        match pre.offer_of(id) {
            Some(oo) => match oo.offer.payment {
                PaymentKind::Sol { .. } => take_offer_outcome(pre, taker, id) == Err::<
                    (),
                    ChainError,
                >(ChainError::Program(ErrorCode::UnsupportedPaymentMethod)),
                PaymentKind::Token { .. } => take_offer_with_sol_outcome(pre, taker, id) == Err::<
                    (),
                    ChainError,
                >(ChainError::Program(ErrorCode::UnsupportedPaymentMethod)),
            },
            None => true,
        },
{
}

/// Only the stored maker may cancel: any other signer is rejected with the
/// relationship-constraint violation, before any state change.
pub proof fn lemma_cancel_requires_maker(pre: Chain, signer: Identity, id: u64)
    requires
        match pre.offer_of(id) {
            Some(oo) => signer != oo.offer.maker,
            None => false,
        },
    ensures
        refund_offer_outcome(pre, signer, id) == Err::<(), ChainError>(
            ChainError::ConstraintViolation,
        ),
{
}

/// A taker holding less of the required asset than the offer demands is
/// rejected with InsufficientTakerBalance.
pub proof fn lemma_insufficient_taker_rejected(pre: Chain, taker: Identity, id: u64)
    requires
        match pre.offer_of(id) {
            Some(oo) => match oo.offer.payment {
                PaymentKind::Token { mint: mint_b, amount: amount_b } => pre.balance_of(
                    taker,
                    mint_b,
                ) < amount_b,
                PaymentKind::Sol { .. } => false,
            },
            None => false,
        },
    ensures
        take_offer_outcome(pre, taker, id) == Err::<(), ChainError>(
            ChainError::Program(ErrorCode::InsufficientTakerBalance),
        ),
{
}

} // verus!
