use vstd::prelude::*;

use crate::chain::Chain;
use crate::error::{ChainError, ErrorCode};
use crate::shared::{release_escrow, transfer_lamports};
use crate::state::{Identity, PaymentKind, OFFER_RENT, VAULT_RENT};

verus! {

/// The resolved accounts of one settle-with-native-currency call: the
/// co-signing taker and the id naming the offer record.
#[derive(Clone, Copy, PartialEq, Eq, Structural, Debug)]
pub struct TakeOfferWithSol {
    pub taker: Identity,
    pub offer_id: u64,
}

/// The result of settling with native currency, as a function of the
/// pre-state.  The native payment leg is checked first, then the vault
/// withdrawal, then the closures; the reserve credits are checked against
/// the balances as they stand after the payment leg.
pub open spec fn take_offer_with_sol_outcome(pre: Chain, taker: Identity, id: u64) -> Result<
    (),
    ChainError,
> {
    match pre.offer_of(id) {
        None => Err(ChainError::AccountNotFound),
        Some(oo) => match oo.offer.payment {
            PaymentKind::Token { .. } => Err(
                ChainError::Program(ErrorCode::UnsupportedPaymentMethod),
            ),
            PaymentKind::Sol { lamports: due } => {
                let maker = oo.offer.maker;
                if pre.lamports_of(taker) < due {
                    Err(ChainError::Program(ErrorCode::InvalidPaymentConfiguration))
                } else if taker != maker && pre.lamports_of(maker) + due > u64::MAX {
                    Err(ChainError::Program(ErrorCode::InvalidPaymentConfiguration))
                } else if pre.balance_of(taker, oo.offer.token_mint_a) + oo.vault_amount
                    > u64::MAX {
                    Err(ChainError::Program(ErrorCode::FailedVaultWithdrawal))
                } else if (if taker == maker {
                    pre.lamports_of(taker) + VAULT_RENT + OFFER_RENT > u64::MAX
                } else {
                    pre.lamports_of(taker) - due + VAULT_RENT > u64::MAX || pre.lamports_of(maker)
                        + due + OFFER_RENT > u64::MAX
                }) {
                    Err(ChainError::Program(ErrorCode::FailedVaultClosure))
                } else {
                    Ok(())
                }
            },
        },
    }
}

/// How a successful native settlement changes the state: the required
/// native amount moves from the taker to the maker, the vault's balance
/// moves to the taker, the offer and its vault are gone, the vault reserve
/// goes to the taker and the record reserve back to the maker.
pub open spec fn take_offer_with_sol_post(pre: Chain, post: Chain, taker: Identity, id: u64) -> bool {
    match pre.offer_of(id) {
        None => false,
        Some(oo) => match oo.offer.payment {
            PaymentKind::Token { .. } => false,
            PaymentKind::Sol { lamports: due } => {
                let maker = oo.offer.maker;
                let mint_a = oo.offer.token_mint_a;
                &&& post.offer_of(id).is_none()
                &&& forall|id2: u64|
                    id2 != id ==> #[trigger] post.offer_of(id2) == pre.offer_of(id2)
                &&& forall|o: Identity, m: Identity| #[trigger]
                    post.balance_of(o, m) == (if o == taker && m == mint_a {
                        (pre.balance_of(taker, mint_a) + oo.vault_amount) as u64
                    } else {
                        pre.balance_of(o, m)
                    })
                &&& forall|w: Identity| #[trigger]
                    post.lamports_of(w) == (if taker == maker {
                        if w == taker {
                            (pre.lamports_of(w) + VAULT_RENT + OFFER_RENT) as u64
                        } else {
                            pre.lamports_of(w)
                        }
                    } else if w == taker {
                        (pre.lamports_of(w) - due + VAULT_RENT) as u64
                    } else if w == maker {
                        (pre.lamports_of(w) + due + OFFER_RENT) as u64
                    } else {
                        pre.lamports_of(w)
                    })
            },
        },
    }
}

/// Settle an open offer on its native-currency terms: the taker pays the
/// required native amount directly to the maker — no custody — and receives
/// the vault's full balance; vault and record are destroyed and their
/// reserves returned.  The payment leg and the custody leg are two
/// sub-operations of one atomic unit: any failure discards both.
pub fn take_offer_with_sol(chain: &mut Chain, accounts: TakeOfferWithSol) -> (r: Result<
    (),
    ChainError,
>)
    requires
        old(chain).wf(),
    ensures
        final(chain).wf(),
        r == take_offer_with_sol_outcome(*old(chain), accounts.taker, accounts.offer_id),
        r.is_ok() ==> take_offer_with_sol_post(
            *old(chain),
            *final(chain),
            accounts.taker,
            accounts.offer_id,
        ),
        r.is_err() ==> *final(chain) == *old(chain),
{
    let taker = accounts.taker;
    let id = accounts.offer_id;
    let idx = match chain.find_offer(id) {
        None => {
            return Err(ChainError::AccountNotFound);
        },
        Some(i) => i,
    };
    let oo = chain.offers[idx];
    let due = match oo.offer.payment {
        PaymentKind::Token { .. } => {
            return Err(ChainError::Program(ErrorCode::UnsupportedPaymentMethod));
        },
        PaymentKind::Sol { lamports } => lamports,
    };
    let maker = oo.offer.maker;
    let mint_a = oo.offer.token_mint_a;
    proof {
        assert(oo.valid());
    }
    let taker_l = chain.native_balance(taker);
    if taker_l < due {
        return Err(ChainError::Program(ErrorCode::InvalidPaymentConfiguration));
    }
    if taker != maker {
        let maker_l = chain.native_balance(maker);
        if due > u64::MAX - maker_l {
            return Err(ChainError::Program(ErrorCode::InvalidPaymentConfiguration));
        }
    }
    let taker_a = chain.token_balance(taker, mint_a);
    if oo.vault_amount > u64::MAX - taker_a {
        return Err(ChainError::Program(ErrorCode::FailedVaultWithdrawal));
    }
    if taker == maker {
        if taker_l > u64::MAX - VAULT_RENT - OFFER_RENT {
            return Err(ChainError::Program(ErrorCode::FailedVaultClosure));
        }
    } else {
        let maker_l = chain.native_balance(maker);
        if taker_l - due > u64::MAX - VAULT_RENT || maker_l + due > u64::MAX - OFFER_RENT {
            return Err(ChainError::Program(ErrorCode::FailedVaultClosure));
        }
    }
    let payment_leg = transfer_lamports(chain, taker, maker, due);
    proof {
        assert(payment_leg.is_ok());
    }
    release_escrow(chain, idx, taker, taker);
    Ok(())
}

} // verus!
