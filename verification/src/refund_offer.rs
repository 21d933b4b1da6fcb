use vstd::prelude::*;

use crate::chain::Chain;
use crate::error::{ChainError, ErrorCode};
use crate::shared::release_escrow;
use crate::state::{Identity, OFFER_RENT, VAULT_RENT};

verus! {

/// The result of cancelling, as a function of the pre-state.  The signer
/// must be the stored maker — checked as a relationship constraint before
/// any handler logic, so a mismatch changes nothing.
pub open spec fn refund_offer_outcome(pre: Chain, signer: Identity, id: u64) -> Result<
    (),
    ChainError,
> {
    match pre.offer_of(id) {
        None => Err(ChainError::AccountNotFound),
        Some(oo) => {
            if signer != oo.offer.maker {
                Err(ChainError::ConstraintViolation)
            } else if pre.balance_of(signer, oo.offer.token_mint_a) + oo.vault_amount > u64::MAX {
                Err(ChainError::Program(ErrorCode::FailedRefundTransfer))
            } else if pre.lamports_of(signer) + VAULT_RENT + OFFER_RENT > u64::MAX {
                Err(ChainError::Program(ErrorCode::FailedRefundClosure))
            } else {
                Ok(())
            }
        },
    }
}

/// How a successful cancellation changes the state: the vault's full
/// balance returns to the maker, the offer and its vault are gone, and both
/// reserves return to the maker.
pub open spec fn refund_offer_post(pre: Chain, post: Chain, signer: Identity, id: u64) -> bool {
    match pre.offer_of(id) {
        None => false,
        Some(oo) => {
            let mint_a = oo.offer.token_mint_a;
            &&& post.offer_of(id).is_none()
            &&& forall|id2: u64| id2 != id ==> #[trigger] post.offer_of(id2) == pre.offer_of(id2)
            &&& forall|o: Identity, m: Identity| #[trigger]
                post.balance_of(o, m) == (if o == signer && m == mint_a {
                    (pre.balance_of(signer, mint_a) + oo.vault_amount) as u64
                } else {
                    pre.balance_of(o, m)
                })
            &&& forall|w: Identity| #[trigger]
                post.lamports_of(w) == (if w == signer {
                    (pre.lamports_of(w) + VAULT_RENT + OFFER_RENT) as u64
                } else {
                    pre.lamports_of(w)
                })
        },
    }
}

/// Cancel (refund) a still-open offer: only the stored maker may do so.  The
/// vault's full balance returns to the maker's token account, the vault and
/// the record are destroyed, and both reserves return to the maker.  Atomic:
/// a partial refund never persists.
pub fn refund_offer(chain: &mut Chain, signer: Identity, id: u64) -> (r: Result<(), ChainError>)
    requires
        old(chain).wf(),
    ensures
        final(chain).wf(),
        r == refund_offer_outcome(*old(chain), signer, id),
        r.is_ok() ==> refund_offer_post(*old(chain), *final(chain), signer, id),
        r.is_err() ==> *final(chain) == *old(chain),
{
    let idx = match chain.find_offer(id) {
        None => {
            return Err(ChainError::AccountNotFound);
        },
        Some(i) => i,
    };
    let oo = chain.offers[idx];
    let maker = oo.offer.maker;
    let mint_a = oo.offer.token_mint_a;
    if signer != maker {
        return Err(ChainError::ConstraintViolation);
    }
    proof {
        assert(oo.valid());
    }
    let maker_a = chain.token_balance(maker, mint_a);
    if oo.vault_amount > u64::MAX - maker_a {
        return Err(ChainError::Program(ErrorCode::FailedRefundTransfer));
    }
    let maker_l = chain.native_balance(maker);
    if maker_l > u64::MAX - VAULT_RENT - OFFER_RENT {
        return Err(ChainError::Program(ErrorCode::FailedRefundClosure));
    }
    release_escrow(chain, idx, maker, maker);
    Ok(())
}

} // verus!
