use vstd::prelude::*;

use crate::chain::Chain;
use crate::error::{ChainError, ErrorCode};
use crate::shared::{release_escrow, transfer_tokens};
use crate::state::{Identity, PaymentKind, OFFER_RENT, VAULT_RENT};

verus! {

/// Whether crediting the two closure reserves would overflow: the vault's
/// reserve goes to `rent_to`, the record's reserve to `maker`.
pub open spec fn closure_rent_overflows(pre: Chain, rent_to: Identity, maker: Identity) -> bool {
    if rent_to == maker {
        pre.lamports_of(rent_to) + VAULT_RENT + OFFER_RENT > u64::MAX
    } else {
        pre.lamports_of(rent_to) + VAULT_RENT > u64::MAX || pre.lamports_of(maker) + OFFER_RENT
            > u64::MAX
    }
}

/// The result of settling with the required asset, as a function of the
/// pre-state.  The payment leg is checked first, then the vault withdrawal,
/// then the closures; the first leg that cannot complete names the error.
pub open spec fn take_offer_outcome(pre: Chain, taker: Identity, id: u64) -> Result<
    (),
    ChainError,
> {
    match pre.offer_of(id) {
        None => Err(ChainError::AccountNotFound),
        Some(oo) => match oo.offer.payment {
            PaymentKind::Sol { .. } => Err(ChainError::Program(ErrorCode::UnsupportedPaymentMethod)),
            PaymentKind::Token { mint: mint_b, amount: amount_b } => {
                let maker = oo.offer.maker;
                if pre.balance_of(taker, mint_b) < amount_b {
                    Err(ChainError::Program(ErrorCode::InsufficientTakerBalance))
                } else if taker != maker && pre.balance_of(maker, mint_b) + amount_b > u64::MAX {
                    Err(ChainError::Program(ErrorCode::InsufficientTakerBalance))
                } else if pre.balance_of(taker, oo.offer.token_mint_a) + oo.vault_amount
                    > u64::MAX {
                    Err(ChainError::Program(ErrorCode::FailedVaultWithdrawal))
                } else if closure_rent_overflows(pre, taker, maker) {
                    Err(ChainError::Program(ErrorCode::FailedVaultClosure))
                } else {
                    Ok(())
                }
            },
        },
    }
}

/// How a successful asset settlement changes the state: the required amount
/// of the required asset moves from the taker to the maker, the vault's full
/// balance moves to the taker, the offer and its vault are gone, the vault
/// reserve goes to the taker and the record reserve back to the maker.
pub open spec fn take_offer_post(pre: Chain, post: Chain, taker: Identity, id: u64) -> bool {
    match pre.offer_of(id) {
        None => false,
        Some(oo) => match oo.offer.payment {
            PaymentKind::Sol { .. } => false,
            PaymentKind::Token { mint: mint_b, amount: amount_b } => {
                let maker = oo.offer.maker;
                let mint_a = oo.offer.token_mint_a;
                &&& post.offer_of(id).is_none()
                &&& forall|id2: u64|
                    id2 != id ==> #[trigger] post.offer_of(id2) == pre.offer_of(id2)
                &&& forall|o: Identity, m: Identity| #[trigger]
                    post.balance_of(o, m) == (if o == taker && m == mint_a {
                        (pre.balance_of(taker, mint_a) + oo.vault_amount) as u64
                    } else if taker == maker {
                        pre.balance_of(o, m)
                    } else if o == taker && m == mint_b {
                        (pre.balance_of(taker, mint_b) - amount_b) as u64
                    } else if o == maker && m == mint_b {
                        (pre.balance_of(maker, mint_b) + amount_b) as u64
                    } else {
                        pre.balance_of(o, m)
                    })
                &&& forall|w: Identity| #[trigger]
                    post.lamports_of(w) == (if w == taker && taker == maker {
                        (pre.lamports_of(w) + VAULT_RENT + OFFER_RENT) as u64
                    } else if w == taker {
                        (pre.lamports_of(w) + VAULT_RENT) as u64
                    } else if w == maker {
                        (pre.lamports_of(w) + OFFER_RENT) as u64
                    } else {
                        pre.lamports_of(w)
                    })
            },
        },
    }
}

/// Settle an open offer on its asset-for-asset terms: the taker pays the
/// required amount of the required asset to the maker and receives the
/// vault's full balance; vault and record are destroyed and their reserves
/// returned.  One atomic unit — any failure leaves the state untouched.
pub fn take_offer(chain: &mut Chain, taker: Identity, id: u64) -> (r: Result<(), ChainError>)
    requires
        old(chain).wf(),
    ensures
        final(chain).wf(),
        r == take_offer_outcome(*old(chain), taker, id),
        r.is_ok() ==> take_offer_post(*old(chain), *final(chain), taker, id),
        r.is_err() ==> *final(chain) == *old(chain),
{
    let idx = match chain.find_offer(id) {
        None => {
            return Err(ChainError::AccountNotFound);
        },
        Some(i) => i,
    };
    let oo = chain.offers[idx];
    let (mint_b, amount_b) = match oo.offer.payment {
        PaymentKind::Sol { .. } => {
            return Err(ChainError::Program(ErrorCode::UnsupportedPaymentMethod));
        },
        PaymentKind::Token { mint, amount } => (mint, amount),
    };
    let maker = oo.offer.maker;
    let mint_a = oo.offer.token_mint_a;
    proof {
        assert(oo.valid());
    }
    let taker_b = chain.token_balance(taker, mint_b);
    if taker_b < amount_b {
        return Err(ChainError::Program(ErrorCode::InsufficientTakerBalance));
    }
    if taker != maker {
        let maker_b = chain.token_balance(maker, mint_b);
        if amount_b > u64::MAX - maker_b {
            return Err(ChainError::Program(ErrorCode::InsufficientTakerBalance));
        }
    }
    let taker_a = chain.token_balance(taker, mint_a);
    if oo.vault_amount > u64::MAX - taker_a {
        return Err(ChainError::Program(ErrorCode::FailedVaultWithdrawal));
    }
    let taker_l = chain.native_balance(taker);
    if taker == maker {
        if taker_l > u64::MAX - VAULT_RENT - OFFER_RENT {
            return Err(ChainError::Program(ErrorCode::FailedVaultClosure));
        }
    } else {
        let maker_l = chain.native_balance(maker);
        if taker_l > u64::MAX - VAULT_RENT || maker_l > u64::MAX - OFFER_RENT {
            return Err(ChainError::Program(ErrorCode::FailedVaultClosure));
        }
    }
    let payment_leg = transfer_tokens(chain, taker, maker, mint_b, amount_b);
    proof {
        assert(payment_leg.is_ok());
    }
    release_escrow(chain, idx, taker, taker);
    Ok(())
}

} // verus!
