use vstd::prelude::*;

use crate::chain::Chain;
use crate::error::{ChainError, ErrorCode};
use crate::state::{Identity, Offer, OpenOffer, PaymentKind, CANONICAL_BUMP, OFFER_RENT, VAULT_RENT};

verus! {

/// The result create returns, as a function of the pre-state and the
/// arguments.  Checks run in submission order: the runtime allocates the
/// record and vault (address conflict, then reserve funding) before handler
/// validation (amount, then mint), and the funding transfer comes last.
pub open spec fn make_offer_outcome(
    pre: Chain,
    maker: Identity,
    token_mint_a: Identity,
    id: u64,
    token_a_offered_amount: u64,
    payment: PaymentKind,
) -> Result<(), ChainError> {
    if pre.offer_of(id).is_some() {
        Err(ChainError::AccountInUse)
    } else if pre.lamports_of(maker) < OFFER_RENT + VAULT_RENT {
        Err(ChainError::InsufficientFundsForRent)
    } else if token_a_offered_amount == 0 {
        Err(ChainError::Program(ErrorCode::InvalidAmount))
    } else if match payment {
        PaymentKind::Token { mint, .. } => mint == token_mint_a,
        PaymentKind::Sol { .. } => false,
    } {
        Err(ChainError::Program(ErrorCode::InvalidTokenMint))
    } else if pre.balance_of(maker, token_mint_a) < token_a_offered_amount {
        Err(ChainError::Program(ErrorCode::InsufficientMakerBalance))
    } else {
        Ok(())
    }
}

/// The record a successful creation stores.
pub open spec fn created_offer(
    maker: Identity,
    token_mint_a: Identity,
    id: u64,
    token_a_offered_amount: u64,
    payment: PaymentKind,
) -> OpenOffer {
    OpenOffer {
        offer: Offer {
            id,
            maker,
            token_mint_a,
            token_a_amount: token_a_offered_amount,
            payment,
            bump: CANONICAL_BUMP,
        },
        vault_amount: token_a_offered_amount,
    }
}

/// How a successful creation changes the state: the offer record and its
/// funded vault appear under `id`, the offered amount leaves the maker's
/// token account, the two reserves leave the maker's native balance, and
/// nothing else moves.
pub open spec fn make_offer_post(
    pre: Chain,
    post: Chain,
    maker: Identity,
    token_mint_a: Identity,
    id: u64,
    token_a_offered_amount: u64,
    payment: PaymentKind,
) -> bool {
    &&& post.offer_of(id) == Some(
        created_offer(maker, token_mint_a, id, token_a_offered_amount, payment),
    )
    &&& forall|id2: u64| id2 != id ==> #[trigger] post.offer_of(id2) == pre.offer_of(id2)
    &&& forall|o: Identity, m: Identity| #[trigger]
        post.balance_of(o, m) == (if o == maker && m == token_mint_a {
            (pre.balance_of(maker, token_mint_a) - token_a_offered_amount) as u64
        } else {
            pre.balance_of(o, m)
        })
    &&& forall|w: Identity| #[trigger]
        post.lamports_of(w) == (if w == maker {
            (pre.lamports_of(maker) - OFFER_RENT - VAULT_RENT) as u64
        } else {
            pre.lamports_of(w)
        })
}

/// Create an offer: allocate the Offer record and its vault at the
/// deterministic addresses derived from `id`, and move the offered amount
/// from the maker's token account into the vault.  Fails atomically — on any
/// error nothing is allocated and nothing moves.
pub fn make_offer(
    chain: &mut Chain,
    maker: Identity,
    token_mint_a: Identity,
    id: u64,
    token_a_offered_amount: u64,
    payment: PaymentKind,
) -> (r: Result<(), ChainError>)
    requires
        old(chain).wf(),
    ensures
        final(chain).wf(),
        r == make_offer_outcome(
            *old(chain),
            maker,
            token_mint_a,
            id,
            token_a_offered_amount,
            payment,
        ),
        r.is_ok() ==> make_offer_post(
            *old(chain),
            *final(chain),
            maker,
            token_mint_a,
            id,
            token_a_offered_amount,
            payment,
        ),
        r.is_err() ==> *final(chain) == *old(chain),
{
    if chain.offer_exists(id) {
        return Err(ChainError::AccountInUse);
    }
    let maker_lamports = chain.native_balance(maker);
    if maker_lamports < OFFER_RENT + VAULT_RENT {
        return Err(ChainError::InsufficientFundsForRent);
    }
    if token_a_offered_amount == 0 {
        return Err(ChainError::Program(ErrorCode::InvalidAmount));
    }
    match payment {
        PaymentKind::Token { mint, .. } => {
            if mint == token_mint_a {
                return Err(ChainError::Program(ErrorCode::InvalidTokenMint));
            }
        },
        PaymentKind::Sol { .. } => {},
    }
    let maker_tokens = chain.token_balance(maker, token_mint_a);
    if maker_tokens < token_a_offered_amount {
        return Err(ChainError::Program(ErrorCode::InsufficientMakerBalance));
    }
    chain.set_token_balance(maker, token_mint_a, maker_tokens - token_a_offered_amount);
    chain.set_native_balance(maker, maker_lamports - (OFFER_RENT + VAULT_RENT));
    let offer = Offer {
        id,
        maker,
        token_mint_a,
        token_a_amount: token_a_offered_amount,
        payment,
        bump: CANONICAL_BUMP,
    };
    chain.push_offer(OpenOffer { offer, vault_amount: token_a_offered_amount });
    Ok(())
}

} // verus!
