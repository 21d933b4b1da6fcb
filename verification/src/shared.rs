use vstd::prelude::*;

use crate::chain::Chain;
use crate::state::{Identity, OpenOffer, OFFER_RENT, VAULT_RENT};

verus! {

/// Two chain states carry the same ledgers and the same open offers.
pub open spec fn unchanged(pre: Chain, post: Chain) -> bool {
    &&& post.token_accounts@ == pre.token_accounts@
    &&& post.native_accounts@ == pre.native_accounts@
    &&& post.offers@ == pre.offers@
}

/// When the atomic token-transfer primitive succeeds: the source holds at
/// least `amount`, and the destination's holding can absorb it.
pub open spec fn transfer_tokens_ok(
    pre: Chain,
    from: Identity,
    to: Identity,
    mint: Identity,
    amount: u64,
) -> bool {
    &&& pre.balance_of(from, mint) >= amount
    &&& (from == to || pre.balance_of(to, mint) + amount <= u64::MAX)
}

/// The atomic transfer primitive: move `amount` units of `mint` from `from`
/// to `to`.  Either both ledger writes happen or neither does; a transfer to
/// oneself verifies the balance and moves nothing.
pub fn transfer_tokens(
    chain: &mut Chain,
    from: Identity,
    to: Identity,
    mint: Identity,
    amount: u64,
) -> (r: Result<(), ()>)
    ensures
        r.is_ok() == transfer_tokens_ok(*old(chain), from, to, mint, amount),
        r.is_err() ==> unchanged(*old(chain), *final(chain)),
        r.is_ok() ==> forall|o: Identity, m: Identity| #[trigger]
            final(chain).balance_of(o, m) == (if from == to {
                old(chain).balance_of(o, m)
            } else if o == from && m == mint {
                (old(chain).balance_of(from, mint) - amount) as u64
            } else if o == to && m == mint {
                (old(chain).balance_of(to, mint) + amount) as u64
            } else {
                old(chain).balance_of(o, m)
            }),
        forall|w: Identity| #[trigger] final(chain).lamports_of(w) == old(chain).lamports_of(w),
        forall|id: u64| #[trigger] final(chain).offer_of(id) == old(chain).offer_of(id),
        final(chain).native_accounts@ == old(chain).native_accounts@,
        final(chain).offers@ == old(chain).offers@,
{
    let bal_from = chain.token_balance(from, mint);
    if bal_from < amount {
        return Err(());
    }
    if from == to {
        return Ok(());
    }
    let bal_to = chain.token_balance(to, mint);
    if amount > u64::MAX - bal_to {
        return Err(());
    }
    chain.set_token_balance(from, mint, bal_from - amount);
    chain.set_token_balance(to, mint, bal_to + amount);
    Ok(())
}

/// The atomic account-closure primitive for a wallet token account: closing
/// succeeds exactly when the balance is zero.  The ledger map does not
/// observe allocation — an identity with no entry holds zero — so a
/// successful closure leaves every balance as it was.  The protocol's own
/// vault and record closures are performed by the terminal operations as
/// part of offer teardown.
pub fn close_token_account(chain: &mut Chain, owner: Identity, mint: Identity) -> (r: Result<
    (),
    (),
>)
    ensures
        r.is_ok() == (old(chain).balance_of(owner, mint) == 0),
        unchanged(*old(chain), *final(chain)),
{
    let bal = chain.token_balance(owner, mint);
    if bal == 0 {
        Ok(())
    } else {
        Err(())
    }
}

/// The native-currency transfer primitive: wallet-to-wallet, no custody.
pub(crate) fn transfer_lamports(chain: &mut Chain, from: Identity, to: Identity, amount: u64) -> (r:
    Result<(), ()>)
    ensures
        r.is_ok() == (old(chain).lamports_of(from) >= amount && (from == to || old(
            chain,
        ).lamports_of(to) + amount <= u64::MAX)),
        r.is_err() ==> unchanged(*old(chain), *final(chain)),
        r.is_ok() ==> forall|w: Identity| #[trigger]
            final(chain).lamports_of(w) == (if from == to {
                old(chain).lamports_of(w)
            } else if w == from {
                (old(chain).lamports_of(from) - amount) as u64
            } else if w == to {
                (old(chain).lamports_of(to) + amount) as u64
            } else {
                old(chain).lamports_of(w)
            }),
        forall|o: Identity, m: Identity| #[trigger]
            final(chain).balance_of(o, m) == old(chain).balance_of(o, m),
        forall|id: u64| #[trigger] final(chain).offer_of(id) == old(chain).offer_of(id),
        final(chain).token_accounts@ == old(chain).token_accounts@,
        final(chain).offers@ == old(chain).offers@,
{
    let bal_from = chain.native_balance(from);
    if bal_from < amount {
        return Err(());
    }
    if from == to {
        return Ok(());
    }
    let bal_to = chain.native_balance(to);
    if amount > u64::MAX - bal_to {
        return Err(());
    }
    chain.set_native_balance(from, bal_from - amount);
    chain.set_native_balance(to, bal_to + amount);
    Ok(())
}

/// The shared tail of settlement and cancellation: withdraw the vault's full
/// balance to `token_recipient`, close the vault (its reserve goes to
/// `rent_recipient`), and destroy the Offer record (its reserve goes back to
/// the maker).  The caller has already established that every credit fits.
pub(crate) fn release_escrow(
    chain: &mut Chain,
    idx: usize,
    token_recipient: Identity,
    rent_recipient: Identity,
)
    requires
        old(chain).wf(),
        idx < old(chain).offers@.len(),
        old(chain).balance_of(
            token_recipient,
            old(chain).offers@[idx as int].offer.token_mint_a,
        ) + old(chain).offers@[idx as int].vault_amount <= u64::MAX,
        rent_recipient == old(chain).offers@[idx as int].offer.maker ==> old(chain).lamports_of(
            rent_recipient,
        ) + VAULT_RENT + OFFER_RENT <= u64::MAX,
        rent_recipient != old(chain).offers@[idx as int].offer.maker ==> old(chain).lamports_of(
            rent_recipient,
        ) + VAULT_RENT <= u64::MAX && old(chain).lamports_of(
            old(chain).offers@[idx as int].offer.maker,
        ) + OFFER_RENT <= u64::MAX,
    ensures
        final(chain).wf(),
        forall|id2: u64| #[trigger]
            final(chain).offer_of(id2) == (if id2 == old(chain).offers@[idx as int].offer.id {
                None::<OpenOffer>
            } else {
                old(chain).offer_of(id2)
            }),
        forall|o: Identity, m: Identity| #[trigger]
            final(chain).balance_of(o, m) == (if o == token_recipient && m == old(
                chain,
            ).offers@[idx as int].offer.token_mint_a {
                (old(chain).balance_of(o, m) + old(chain).offers@[idx as int].vault_amount) as u64
            } else {
                old(chain).balance_of(o, m)
            }),
        forall|w: Identity| #[trigger]
            final(chain).lamports_of(w) == (if w == rent_recipient && w == old(
                chain,
            ).offers@[idx as int].offer.maker {
                (old(chain).lamports_of(w) + VAULT_RENT + OFFER_RENT) as u64
            } else if w == rent_recipient {
                (old(chain).lamports_of(w) + VAULT_RENT) as u64
            } else if w == old(chain).offers@[idx as int].offer.maker {
                (old(chain).lamports_of(w) + OFFER_RENT) as u64
            } else {
                old(chain).lamports_of(w)
            }),
{
    let oo = chain.offers[idx];
    let maker = oo.offer.maker;
    let mint_a = oo.offer.token_mint_a;
    let bal = chain.token_balance(token_recipient, mint_a);
    chain.set_token_balance(token_recipient, mint_a, bal + oo.vault_amount);
    chain.remove_offer_at(idx);
    let l1 = chain.native_balance(rent_recipient);
    chain.set_native_balance(rent_recipient, l1 + VAULT_RENT);
    let l2 = chain.native_balance(maker);
    chain.set_native_balance(maker, l2 + OFFER_RENT);
}

} // verus!
