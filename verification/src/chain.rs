use vstd::prelude::*;

use crate::state::{Identity, OpenOffer, Offer, TokenAccount, NativeAccount};

verus! {

// ---------------------------------------------------------------------------
// The ledger model.
//
// Token holdings and native-currency holdings are total maps: an identity
// that appears in no account entry simply holds zero.  The sequences below
// are sparse representations of those maps; the first entry for a key gives
// the key's value.  Offer records are looked up by their id, which plays the
// role of the record's deterministic address.
// ---------------------------------------------------------------------------

/// Whether one token-account entry belongs to the given owner and mint.
pub open spec fn tok_matches(t: TokenAccount, owner: Identity, mint: Identity) -> bool {
    t.owner == owner && t.mint == mint
}

/// Balance of `owner`'s holding of `mint`: the first matching entry, or zero
/// when there is none.
pub open spec fn spec_token_balance(s: Seq<TokenAccount>, owner: Identity, mint: Identity) -> u64
    decreases s.len(),
{
    if s.len() == 0 {
        0u64
    } else if tok_matches(s[0], owner, mint) {
        s[0].amount
    } else {
        spec_token_balance(s.drop_first(), owner, mint)
    }
}

/// Native-currency balance of `owner`: the first matching entry, or zero.
pub open spec fn spec_lamports(s: Seq<NativeAccount>, owner: Identity) -> u64
    decreases s.len(),
{
    if s.len() == 0 {
        0u64
    } else if s[0].owner == owner {
        s[0].lamports
    } else {
        spec_lamports(s.drop_first(), owner)
    }
}

/// The open offer stored under `id`, if any: the first entry whose record
/// carries that id.
pub open spec fn spec_offer(s: Seq<OpenOffer>, id: u64) -> Option<OpenOffer>
    decreases s.len(),
{
    if s.len() == 0 {
        None
    } else if s[0].offer.id == id {
        Some(s[0])
    } else {
        spec_offer(s.drop_first(), id)
    }
}

/// No two open offers share an id: each deterministic address holds at most
/// one record.
pub open spec fn offers_unique(s: Seq<OpenOffer>) -> bool {
    forall|a: int, b: int|
        #![trigger s[a], s[b]]
        0 <= a < s.len() && 0 <= b < s.len() && a != b ==> s[a].offer.id != s[b].offer.id
}

/// Every open offer satisfies the escrow validity conditions.
pub open spec fn offers_valid(s: Seq<OpenOffer>) -> bool {
    forall|i: int| 0 <= i < s.len() ==> (#[trigger] s[i]).valid()
}

// ---------------------------------------------------------------------------
// Lemmas about the sparse-map representation.
// ---------------------------------------------------------------------------

proof fn lemma_token_balance_no_match(s: Seq<TokenAccount>, owner: Identity, mint: Identity)
    requires
        forall|j: int| 0 <= j < s.len() ==> !tok_matches(#[trigger] s[j], owner, mint),
    ensures
        spec_token_balance(s, owner, mint) == 0,
    decreases s.len(),
{
    if s.len() > 0 {
        assert(!tok_matches(s[0], owner, mint));
        assert forall|j: int|
            0 <= j < s.drop_first().len() implies !tok_matches(
            #[trigger] s.drop_first()[j],
            owner,
            mint,
        ) by {
            assert(s.drop_first()[j] == s[j + 1]);
        }
        lemma_token_balance_no_match(s.drop_first(), owner, mint);
    }
}

proof fn lemma_token_balance_first_match(s: Seq<TokenAccount>, i: int, owner: Identity, mint: Identity)
    requires
        0 <= i < s.len(),
        tok_matches(s[i], owner, mint),
        forall|j: int| 0 <= j < i ==> !tok_matches(#[trigger] s[j], owner, mint),
    ensures
        spec_token_balance(s, owner, mint) == s[i].amount,
    decreases i,
{
    if i > 0 {
        assert(!tok_matches(s[0], owner, mint));
        assert(s.drop_first()[i - 1] == s[i]);
        assert forall|j: int|
            0 <= j < i - 1 implies !tok_matches(#[trigger] s.drop_first()[j], owner, mint) by {
            assert(s.drop_first()[j] == s[j + 1]);
        }
        lemma_token_balance_first_match(s.drop_first(), i - 1, owner, mint);
    }
}

proof fn lemma_token_balance_update(
    s: Seq<TokenAccount>,
    i: int,
    e: TokenAccount,
    o: Identity,
    m: Identity,
)
    requires
        0 <= i < s.len(),
        tok_matches(s[i], e.owner, e.mint),
        forall|j: int| 0 <= j < i ==> !tok_matches(#[trigger] s[j], e.owner, e.mint),
    ensures
        spec_token_balance(s.update(i, e), o, m) == if o == e.owner && m == e.mint {
            e.amount
        } else {
            spec_token_balance(s, o, m)
        },
    decreases i,
{
    let t = s.update(i, e);
    if i == 0 {
        assert(t[0] == e);
        if !(o == e.owner && m == e.mint) {
            assert(!tok_matches(t[0], o, m));
            assert(!tok_matches(s[0], o, m));
            assert(t.drop_first() =~= s.drop_first());
        }
    } else {
        assert(t[0] == s[0]);
        if tok_matches(s[0], o, m) {
            assert(!(o == e.owner && m == e.mint));
        } else {
            assert(t.drop_first() =~= s.drop_first().update(i - 1, e));
            assert(s.drop_first()[i - 1] == s[i]);
            assert forall|j: int|
                0 <= j < i - 1 implies !tok_matches(
                #[trigger] s.drop_first()[j],
                e.owner,
                e.mint,
            ) by {
                assert(s.drop_first()[j] == s[j + 1]);
            }
            lemma_token_balance_update(s.drop_first(), i - 1, e, o, m);
        }
    }
}

proof fn lemma_token_balance_push_absent(s: Seq<TokenAccount>, e: TokenAccount)
    requires
        forall|j: int| 0 <= j < s.len() ==> !tok_matches(#[trigger] s[j], e.owner, e.mint),
    ensures
        spec_token_balance(s.push(e), e.owner, e.mint) == e.amount,
    decreases s.len(),
{
    let t = s.push(e);
    if s.len() == 0 {
        assert(t[0] == e);
    } else {
        assert(t[0] == s[0]);
        assert(!tok_matches(t[0], e.owner, e.mint));
        assert(t.drop_first() =~= s.drop_first().push(e));
        assert forall|j: int|
            0 <= j < s.drop_first().len() implies !tok_matches(
            #[trigger] s.drop_first()[j],
            e.owner,
            e.mint,
        ) by {
            assert(s.drop_first()[j] == s[j + 1]);
        }
        lemma_token_balance_push_absent(s.drop_first(), e);
    }
}

proof fn lemma_token_balance_push_other(s: Seq<TokenAccount>, e: TokenAccount, o: Identity, m: Identity)
    requires
        !(o == e.owner && m == e.mint),
    ensures
        spec_token_balance(s.push(e), o, m) == spec_token_balance(s, o, m),
    decreases s.len(),
{
    let t = s.push(e);
    if s.len() == 0 {
        assert(t[0] == e);
        assert(!tok_matches(t[0], o, m));
        assert(t.drop_first() =~= Seq::<TokenAccount>::empty());
        assert(spec_token_balance(t, o, m) == spec_token_balance(t.drop_first(), o, m));
        assert(spec_token_balance(t.drop_first(), o, m) == 0);
    } else {
        assert(t[0] == s[0]);
        if tok_matches(s[0], o, m) {
            assert(spec_token_balance(t, o, m) == t[0].amount);
            assert(spec_token_balance(s, o, m) == s[0].amount);
        } else {
            assert(t.drop_first() =~= s.drop_first().push(e));
            lemma_token_balance_push_other(s.drop_first(), e, o, m);
        }
    }
}

proof fn lemma_lamports_no_match(s: Seq<NativeAccount>, owner: Identity)
    requires
        forall|j: int| 0 <= j < s.len() ==> (#[trigger] s[j]).owner != owner,
    ensures
        spec_lamports(s, owner) == 0,
    decreases s.len(),
{
    if s.len() > 0 {
        assert(s[0].owner != owner);
        assert forall|j: int|
            0 <= j < s.drop_first().len() implies (#[trigger] s.drop_first()[j]).owner != owner by {
            assert(s.drop_first()[j] == s[j + 1]);
        }
        lemma_lamports_no_match(s.drop_first(), owner);
    }
}

proof fn lemma_lamports_first_match(s: Seq<NativeAccount>, i: int, owner: Identity)
    requires
        0 <= i < s.len(),
        s[i].owner == owner,
        forall|j: int| 0 <= j < i ==> (#[trigger] s[j]).owner != owner,
    ensures
        spec_lamports(s, owner) == s[i].lamports,
    decreases i,
{
    if i > 0 {
        assert(s.drop_first()[i - 1] == s[i]);
        assert forall|j: int|
            0 <= j < i - 1 implies (#[trigger] s.drop_first()[j]).owner != owner by {
            assert(s.drop_first()[j] == s[j + 1]);
        }
        lemma_lamports_first_match(s.drop_first(), i - 1, owner);
    }
}

proof fn lemma_lamports_update(s: Seq<NativeAccount>, i: int, e: NativeAccount, w: Identity)
    requires
        0 <= i < s.len(),
        s[i].owner == e.owner,
        forall|j: int| 0 <= j < i ==> (#[trigger] s[j]).owner != e.owner,
    ensures
        spec_lamports(s.update(i, e), w) == if w == e.owner {
            e.lamports
        } else {
            spec_lamports(s, w)
        },
    decreases i,
{
    let t = s.update(i, e);
    if i == 0 {
        assert(t[0] == e);
        if w != e.owner {
            assert(t.drop_first() =~= s.drop_first());
        }
    } else {
        assert(t[0] == s[0]);
        if s[0].owner != w {
            assert(t.drop_first() =~= s.drop_first().update(i - 1, e));
            assert(s.drop_first()[i - 1] == s[i]);
            assert forall|j: int|
                0 <= j < i - 1 implies (#[trigger] s.drop_first()[j]).owner != e.owner by {
                assert(s.drop_first()[j] == s[j + 1]);
            }
            lemma_lamports_update(s.drop_first(), i - 1, e, w);
        }
    }
}

proof fn lemma_lamports_push_absent(s: Seq<NativeAccount>, e: NativeAccount)
    requires
        forall|j: int| 0 <= j < s.len() ==> (#[trigger] s[j]).owner != e.owner,
    ensures
        spec_lamports(s.push(e), e.owner) == e.lamports,
    decreases s.len(),
{
    let t = s.push(e);
    if s.len() == 0 {
        assert(t[0] == e);
    } else {
        assert(t[0] == s[0]);
        assert(t.drop_first() =~= s.drop_first().push(e));
        assert forall|j: int|
            0 <= j < s.drop_first().len() implies (#[trigger] s.drop_first()[j]).owner != e.owner by {
            assert(s.drop_first()[j] == s[j + 1]);
        }
        lemma_lamports_push_absent(s.drop_first(), e);
    }
}

proof fn lemma_lamports_push_other(s: Seq<NativeAccount>, e: NativeAccount, w: Identity)
    requires
        w != e.owner,
    ensures
        spec_lamports(s.push(e), w) == spec_lamports(s, w),
    decreases s.len(),
{
    let t = s.push(e);
    if s.len() == 0 {
        assert(t[0] == e);
        assert(t.drop_first() =~= Seq::<NativeAccount>::empty());
        assert(spec_lamports(t, w) == spec_lamports(t.drop_first(), w));
        assert(spec_lamports(t.drop_first(), w) == 0);
    } else {
        assert(t[0] == s[0]);
        if s[0].owner == w {
            assert(spec_lamports(t, w) == t[0].lamports);
            assert(spec_lamports(s, w) == s[0].lamports);
        } else {
            assert(t.drop_first() =~= s.drop_first().push(e));
            lemma_lamports_push_other(s.drop_first(), e, w);
        }
    }
}

proof fn lemma_offer_no_match(s: Seq<OpenOffer>, id: u64)
    requires
        forall|j: int| 0 <= j < s.len() ==> (#[trigger] s[j]).offer.id != id,
    ensures
        spec_offer(s, id).is_none(),
    decreases s.len(),
{
    if s.len() > 0 {
        assert(s[0].offer.id != id);
        assert forall|j: int|
            0 <= j < s.drop_first().len() implies (#[trigger] s.drop_first()[j]).offer.id != id by {
            assert(s.drop_first()[j] == s[j + 1]);
        }
        lemma_offer_no_match(s.drop_first(), id);
    }
}

proof fn lemma_offer_none_no_match(s: Seq<OpenOffer>, id: u64)
    requires
        spec_offer(s, id).is_none(),
    ensures
        forall|j: int| 0 <= j < s.len() ==> (#[trigger] s[j]).offer.id != id,
    decreases s.len(),
{
    if s.len() > 0 {
        lemma_offer_none_no_match(s.drop_first(), id);
        assert forall|j: int| 0 <= j < s.len() implies (#[trigger] s[j]).offer.id != id by {
            if j > 0 {
                assert(s.drop_first()[j - 1] == s[j]);
            }
        }
    }
}

proof fn lemma_offer_first_match(s: Seq<OpenOffer>, i: int, id: u64)
    requires
        0 <= i < s.len(),
        s[i].offer.id == id,
        forall|j: int| 0 <= j < i ==> (#[trigger] s[j]).offer.id != id,
    ensures
        spec_offer(s, id) == Some(s[i]),
    decreases i,
{
    if i > 0 {
        assert(s.drop_first()[i - 1] == s[i]);
        assert forall|j: int|
            0 <= j < i - 1 implies (#[trigger] s.drop_first()[j]).offer.id != id by {
            assert(s.drop_first()[j] == s[j + 1]);
        }
        lemma_offer_first_match(s.drop_first(), i - 1, id);
    }
}

proof fn lemma_offer_push_same(s: Seq<OpenOffer>, e: OpenOffer)
    requires
        spec_offer(s, e.offer.id).is_none(),
    ensures
        spec_offer(s.push(e), e.offer.id) == Some(e),
    decreases s.len(),
{
    let t = s.push(e);
    if s.len() == 0 {
        assert(t[0] == e);
    } else {
        assert(t[0] == s[0]);
        assert(s[0].offer.id != e.offer.id);
        assert(t.drop_first() =~= s.drop_first().push(e));
        lemma_offer_push_same(s.drop_first(), e);
    }
}

proof fn lemma_offer_push_other(s: Seq<OpenOffer>, e: OpenOffer, id2: u64)
    requires
        id2 != e.offer.id,
    ensures
        spec_offer(s.push(e), id2) == spec_offer(s, id2),
    decreases s.len(),
{
    let t = s.push(e);
    if s.len() == 0 {
        assert(t[0] == e);
        assert(t.drop_first() =~= Seq::<OpenOffer>::empty());
        assert(spec_offer(t, id2) == spec_offer(t.drop_first(), id2));
        assert(spec_offer(t.drop_first(), id2).is_none());
    } else {
        assert(t[0] == s[0]);
        if s[0].offer.id == id2 {
            assert(spec_offer(t, id2) == Some(t[0]));
            assert(spec_offer(s, id2) == Some(s[0]));
        } else {
            assert(t.drop_first() =~= s.drop_first().push(e));
            lemma_offer_push_other(s.drop_first(), e, id2);
        }
    }
}

proof fn lemma_offer_remove_same(s: Seq<OpenOffer>, i: int)
    requires
        0 <= i < s.len(),
        forall|j: int| 0 <= j < s.len() && j != i ==> (#[trigger] s[j]).offer.id != s[i].offer.id,
    ensures
        spec_offer(s.remove(i), s[i].offer.id).is_none(),
    decreases i,
{
    s.remove_ensures(i);
    let id = s[i].offer.id;
    if i == 0 {
        assert(s.remove(0) =~= s.drop_first());
        assert forall|j: int|
            0 <= j < s.drop_first().len() implies (#[trigger] s.drop_first()[j]).offer.id != id by {
            assert(s.drop_first()[j] == s[j + 1]);
        }
        lemma_offer_no_match(s.drop_first(), id);
    } else {
        assert(s.remove(i)[0] == s[0]);
        assert(s[0].offer.id != id);
        assert(s.remove(i).drop_first() =~= s.drop_first().remove(i - 1));
        assert(s.drop_first()[i - 1] == s[i]);
        assert forall|j: int|
            0 <= j < s.drop_first().len() && j != i - 1 implies (#[trigger] s.drop_first()[j]).offer.id
            != id by {
            assert(s.drop_first()[j] == s[j + 1]);
        }
        lemma_offer_remove_same(s.drop_first(), i - 1);
    }
}

proof fn lemma_offer_remove_other(s: Seq<OpenOffer>, i: int, id2: u64)
    requires
        0 <= i < s.len(),
        id2 != s[i].offer.id,
    ensures
        spec_offer(s.remove(i), id2) == spec_offer(s, id2),
    decreases i,
{
    s.remove_ensures(i);
    if i == 0 {
        assert(s.remove(0) =~= s.drop_first());
    } else {
        assert(s.remove(i)[0] == s[0]);
        if s[0].offer.id != id2 {
            assert(s.remove(i).drop_first() =~= s.drop_first().remove(i - 1));
            assert(s.drop_first()[i - 1] == s[i]);
            lemma_offer_remove_other(s.drop_first(), i - 1, id2);
        }
    }
}

// ---------------------------------------------------------------------------
// The chain state.
// ---------------------------------------------------------------------------

/// The portion of the execution environment's state that the protocol reads
/// and writes: wallet token holdings, native-currency holdings, and the open
/// escrows, each escrow being an Offer record together with its vault.
pub struct Chain {
    pub token_accounts: Vec<TokenAccount>,
    pub native_accounts: Vec<NativeAccount>,
    pub offers: Vec<OpenOffer>,
}

impl Chain {
    /// Balance of `owner`'s holding of the asset `mint`; an identity with no
    /// account holds zero.
    pub open spec fn balance_of(self, owner: Identity, mint: Identity) -> u64 {
        spec_token_balance(self.token_accounts@, owner, mint)
    }

    /// Native-currency balance of `owner`.
    pub open spec fn lamports_of(self, owner: Identity) -> u64 {
        spec_lamports(self.native_accounts@, owner)
    }

    /// The open offer at the deterministic address derived from `id`, if any.
    pub open spec fn offer_of(self, id: u64) -> Option<OpenOffer> {
        spec_offer(self.offers@, id)
    }

    /// Well-formedness: ids are unique, and every open escrow is valid
    /// (vault balance equals the offered amount, the amount is positive, and
    /// an asset-for-asset payment names a different mint).
    pub open spec fn wf(self) -> bool {
        offers_unique(self.offers@) && offers_valid(self.offers@)
    }

    /// An empty world: no holdings, no offers.
    pub fn new() -> (c: Chain)
        ensures
            c.wf(),
            forall|o: Identity, m: Identity| #[trigger] c.balance_of(o, m) == 0,
            forall|w: Identity| #[trigger] c.lamports_of(w) == 0,
            forall|id: u64| (#[trigger] c.offer_of(id)).is_none(),
    {
        Chain { token_accounts: Vec::new(), native_accounts: Vec::new(), offers: Vec::new() }
    }

    /// Read a token balance.
    pub fn token_balance(&self, owner: Identity, mint: Identity) -> (r: u64)
        ensures
            r == self.balance_of(owner, mint),
    {
        match find_token_idx(&self.token_accounts, owner, mint) {
            Some(i) => {
                proof {
                    lemma_token_balance_first_match(self.token_accounts@, i as int, owner, mint);
                }
                self.token_accounts[i].amount
            },
            None => {
                proof {
                    lemma_token_balance_no_match(self.token_accounts@, owner, mint);
                }
                0
            },
        }
    }

    /// Read a native-currency balance.
    pub fn native_balance(&self, owner: Identity) -> (r: u64)
        ensures
            r == self.lamports_of(owner),
    {
        match find_native_idx(&self.native_accounts, owner) {
            Some(i) => {
                proof {
                    lemma_lamports_first_match(self.native_accounts@, i as int, owner);
                }
                self.native_accounts[i].lamports
            },
            None => {
                proof {
                    lemma_lamports_no_match(self.native_accounts@, owner);
                }
                0
            },
        }
    }

    /// Read the Offer record stored under `id`, if it exists.
    pub fn get_offer(&self, id: u64) -> (r: Option<Offer>)
        ensures
            r == match self.offer_of(id) {
                Some(oo) => Some(oo.offer),
                None => None::<Offer>,
            },
    {
        match self.find_offer(id) {
            Some(i) => Some(self.offers[i].offer),
            None => None,
        }
    }

    /// Whether an offer is currently open under `id`.
    pub fn offer_exists(&self, id: u64) -> (r: bool)
        ensures
            r == self.offer_of(id).is_some(),
    {
        self.find_offer(id).is_some()
    }

    /// Balance of the vault belonging to the offer under `id`; zero when no
    /// such offer is open.
    pub fn vault_balance(&self, id: u64) -> (r: u64)
        ensures
            r == match self.offer_of(id) {
                Some(oo) => oo.vault_amount,
                None => 0u64,
            },
    {
        match self.find_offer(id) {
            Some(i) => self.offers[i].vault_amount,
            None => 0,
        }
    }

    /// Issue tokens: set `owner`'s holding of `mint` to `amount`.  Models the
    /// mint authority distributing supply so that scenarios can be set up.
    pub fn fund_token(&mut self, owner: Identity, mint: Identity, amount: u64)
        ensures
            forall|o: Identity, m: Identity| #[trigger]
                final(self).balance_of(o, m) == if o == owner && m == mint {
                    amount
                } else {
                    old(self).balance_of(o, m)
                },
            forall|w: Identity| #[trigger] final(self).lamports_of(w) == old(self).lamports_of(w),
            forall|id: u64| #[trigger] final(self).offer_of(id) == old(self).offer_of(id),
            final(self).native_accounts@ == old(self).native_accounts@,
            final(self).offers@ == old(self).offers@,
            old(self).wf() ==> final(self).wf(),
    {
        self.set_token_balance(owner, mint, amount);
    }

    /// Set `owner`'s native-currency balance to `lamports`.  Models the
    /// environment funding a wallet so that scenarios can be set up.
    pub fn fund_native(&mut self, owner: Identity, lamports: u64)
        ensures
            forall|w: Identity| #[trigger]
                final(self).lamports_of(w) == if w == owner {
                    lamports
                } else {
                    old(self).lamports_of(w)
                },
            forall|o: Identity, m: Identity| #[trigger]
                final(self).balance_of(o, m) == old(self).balance_of(o, m),
            forall|id: u64| #[trigger] final(self).offer_of(id) == old(self).offer_of(id),
            final(self).token_accounts@ == old(self).token_accounts@,
            final(self).offers@ == old(self).offers@,
            old(self).wf() ==> final(self).wf(),
    {
        self.set_native_balance(owner, lamports);
    }

    /// Write a token balance, creating the account entry if none exists.
    pub(crate) fn set_token_balance(&mut self, owner: Identity, mint: Identity, value: u64)
        ensures
            forall|o: Identity, m: Identity| #[trigger]
                final(self).balance_of(o, m) == if o == owner && m == mint {
                    value
                } else {
                    old(self).balance_of(o, m)
                },
            forall|w: Identity| #[trigger] final(self).lamports_of(w) == old(self).lamports_of(w),
            forall|id: u64| #[trigger] final(self).offer_of(id) == old(self).offer_of(id),
            final(self).native_accounts@ == old(self).native_accounts@,
            final(self).offers@ == old(self).offers@,
    {
        let entry = TokenAccount { owner, mint, amount: value };
        match find_token_idx(&self.token_accounts, owner, mint) {
            Some(i) => {
                self.token_accounts[i] = entry;
                proof {
                    assert forall|o: Identity, m: Identity| #[trigger]
                        self.balance_of(o, m) == if o == owner && m == mint {
                            value
                        } else {
                            old(self).balance_of(o, m)
                        } by {
                        lemma_token_balance_update(
                            old(self).token_accounts@,
                            i as int,
                            entry,
                            o,
                            m,
                        );
                    }
                }
            },
            None => {
                self.token_accounts.push(entry);
                proof {
                    assert forall|o: Identity, m: Identity| #[trigger]
                        self.balance_of(o, m) == if o == owner && m == mint {
                            value
                        } else {
                            old(self).balance_of(o, m)
                        } by {
                        if o == owner && m == mint {
                            lemma_token_balance_push_absent(old(self).token_accounts@, entry);
                        } else {
                            lemma_token_balance_push_other(old(self).token_accounts@, entry, o, m);
                        }
                    }
                }
            },
        }
    }

    /// Write a native balance, creating the account entry if none exists.
    pub(crate) fn set_native_balance(&mut self, owner: Identity, value: u64)
        ensures
            forall|w: Identity| #[trigger]
                final(self).lamports_of(w) == if w == owner {
                    value
                } else {
                    old(self).lamports_of(w)
                },
            forall|o: Identity, m: Identity| #[trigger]
                final(self).balance_of(o, m) == old(self).balance_of(o, m),
            forall|id: u64| #[trigger] final(self).offer_of(id) == old(self).offer_of(id),
            final(self).token_accounts@ == old(self).token_accounts@,
            final(self).offers@ == old(self).offers@,
    {
        let entry = NativeAccount { owner, lamports: value };
        match find_native_idx(&self.native_accounts, owner) {
            Some(i) => {
                self.native_accounts[i] = entry;
                proof {
                    assert forall|w: Identity| #[trigger]
                        self.lamports_of(w) == if w == owner {
                            value
                        } else {
                            old(self).lamports_of(w)
                        } by {
                        lemma_lamports_update(old(self).native_accounts@, i as int, entry, w);
                    }
                }
            },
            None => {
                self.native_accounts.push(entry);
                proof {
                    assert forall|w: Identity| #[trigger]
                        self.lamports_of(w) == if w == owner {
                            value
                        } else {
                            old(self).lamports_of(w)
                        } by {
                        if w == owner {
                            lemma_lamports_push_absent(old(self).native_accounts@, entry);
                        } else {
                            lemma_lamports_push_other(old(self).native_accounts@, entry, w);
                        }
                    }
                }
            },
        }
    }

    /// Find the index of the open offer with the given id.
    pub(crate) fn find_offer(&self, id: u64) -> (r: Option<usize>)
        ensures
            match r {
                Some(i) => i < self.offers@.len() && self.offers@[i as int].offer.id == id
                    && self.offer_of(id) == Some(self.offers@[i as int]),
                None => self.offer_of(id).is_none(),
            },
    {
        let n = self.offers.len();
        let mut i: usize = 0;
        while i < n
            invariant
                n == self.offers@.len(),
                i <= n,
                forall|j: int| 0 <= j < i ==> (#[trigger] self.offers@[j]).offer.id != id,
            decreases n - i,
        {
            if self.offers[i].offer.id == id {
                proof {
                    lemma_offer_first_match(self.offers@, i as int, id);
                }
                return Some(i);
            }
            i = i + 1;
        }
        proof {
            lemma_offer_no_match(self.offers@, id);
        }
        None
    }

    /// Allocate a new offer record and its vault, atomically.
    pub(crate) fn push_offer(&mut self, oo: OpenOffer)
        requires
            old(self).wf(),
            old(self).offer_of(oo.offer.id).is_none(),
            oo.valid(),
        ensures
            final(self).wf(),
            forall|id2: u64| #[trigger]
                final(self).offer_of(id2) == if id2 == oo.offer.id {
                    Some(oo)
                } else {
                    old(self).offer_of(id2)
                },
            forall|o: Identity, m: Identity| #[trigger]
                final(self).balance_of(o, m) == old(self).balance_of(o, m),
            forall|w: Identity| #[trigger] final(self).lamports_of(w) == old(self).lamports_of(w),
            final(self).token_accounts@ == old(self).token_accounts@,
            final(self).native_accounts@ == old(self).native_accounts@,
    {
        proof {
            lemma_offer_none_no_match(self.offers@, oo.offer.id);
        }
        self.offers.push(oo);
        proof {
            let s = old(self).offers@;
            let t = self.offers@;
            assert forall|id2: u64| #[trigger]
                self.offer_of(id2) == if id2 == oo.offer.id {
                    Some(oo)
                } else {
                    old(self).offer_of(id2)
                } by {
                if id2 == oo.offer.id {
                    lemma_offer_push_same(s, oo);
                } else {
                    lemma_offer_push_other(s, oo, id2);
                }
            }
            assert forall|a: int, b: int|
                #![trigger t[a], t[b]]
                0 <= a < t.len() && 0 <= b < t.len() && a != b implies t[a].offer.id
                != t[b].offer.id by {
                if a < s.len() {
                    assert(t[a] == s[a]);
                }
                if b < s.len() {
                    assert(t[b] == s[b]);
                }
            }
            assert forall|k: int| 0 <= k < t.len() implies (#[trigger] t[k]).valid() by {
                if k < s.len() {
                    assert(t[k] == s[k]);
                }
            }
        }
    }

    /// Destroy the offer record at index `i` together with its vault.
    pub(crate) fn remove_offer_at(&mut self, i: usize)
        requires
            old(self).wf(),
            i < old(self).offers@.len(),
        ensures
            final(self).wf(),
            forall|id2: u64| #[trigger]
                final(self).offer_of(id2) == if id2 == old(self).offers@[i as int].offer.id {
                    None::<OpenOffer>
                } else {
                    old(self).offer_of(id2)
                },
            forall|o: Identity, m: Identity| #[trigger]
                final(self).balance_of(o, m) == old(self).balance_of(o, m),
            forall|w: Identity| #[trigger] final(self).lamports_of(w) == old(self).lamports_of(w),
            final(self).token_accounts@ == old(self).token_accounts@,
            final(self).native_accounts@ == old(self).native_accounts@,
    {
        let ghost s = self.offers@;
        self.offers.remove(i);
        proof {
            let t = self.offers@;
            let id = s[i as int].offer.id;
            s.remove_ensures(i as int);
            assert forall|id2: u64| #[trigger]
                self.offer_of(id2) == if id2 == id {
                    None::<OpenOffer>
                } else {
                    old(self).offer_of(id2)
                } by {
                if id2 == id {
                    lemma_offer_remove_same(s, i as int);
                } else {
                    lemma_offer_remove_other(s, i as int, id2);
                }
            }
            assert forall|a: int, b: int|
                #![trigger t[a], t[b]]
                0 <= a < t.len() && 0 <= b < t.len() && a != b implies t[a].offer.id
                != t[b].offer.id by {
                let a2 = if a < i as int { a } else { a + 1 };
                let b2 = if b < i as int { b } else { b + 1 };
                assert(t[a] == s[a2]);
                assert(t[b] == s[b2]);
            }
            assert forall|k: int| 0 <= k < t.len() implies (#[trigger] t[k]).valid() by {
                let k2 = if k < i as int { k } else { k + 1 };
                assert(t[k] == s[k2]);
            }
        }
    }
}

/// First index whose entry belongs to `owner` and `mint`, if any.
fn find_token_idx(v: &Vec<TokenAccount>, owner: Identity, mint: Identity) -> (r: Option<usize>)
    ensures
        match r {
            Some(i) => i < v@.len() && tok_matches(v@[i as int], owner, mint) && (forall|j: int|
                0 <= j < i ==> !tok_matches(#[trigger] v@[j], owner, mint)),
            None => forall|j: int| 0 <= j < v@.len() ==> !tok_matches(#[trigger] v@[j], owner, mint),
        },
{
    let n = v.len();
    let mut i: usize = 0;
    while i < n
        invariant
            n == v@.len(),
            i <= n,
            forall|j: int| 0 <= j < i ==> !tok_matches(#[trigger] v@[j], owner, mint),
        decreases n - i,
    {
        if v[i].owner == owner && v[i].mint == mint {
            return Some(i);
        }
        i = i + 1;
    }
    None
}

/// First index whose entry belongs to `owner`, if any.
fn find_native_idx(v: &Vec<NativeAccount>, owner: Identity) -> (r: Option<usize>)
    ensures
        match r {
            Some(i) => i < v@.len() && v@[i as int].owner == owner && (forall|j: int|
                0 <= j < i ==> (#[trigger] v@[j]).owner != owner),
            None => forall|j: int| 0 <= j < v@.len() ==> (#[trigger] v@[j]).owner != owner,
        },
{
    let n = v.len();
    let mut i: usize = 0;
    while i < n
        invariant
            n == v@.len(),
            i <= n,
            forall|j: int| 0 <= j < i ==> (#[trigger] v@[j]).owner != owner,
        decreases n - i,
    {
        if v[i].owner == owner {
            return Some(i);
        }
        i = i + 1;
    }
    None
}

} // verus!
