use vstd::prelude::*;

verus! {

/// Reserve (rent) in native-currency units attached to an Offer record while
/// it exists; returned to the maker when the record is destroyed.
pub const OFFER_RENT: u64 = 2000000;

/// Reserve (rent) in native-currency units attached to a vault while it
/// exists; returned to the settling taker, or to the maker on cancellation.
pub const VAULT_RENT: u64 = 2039280;

/// The derivation-proof byte stored in every Offer record: the value needed to
/// re-derive the record's and the vault's deterministic addresses.  The model
/// derives addresses from the id alone, so one canonical value suffices.
pub const CANONICAL_BUMP: u8 = 255;

/// A 32-byte identity: a wallet, a mint, or a program-derived address.
#[derive(Clone, Copy, PartialEq, Eq, Structural, Debug)]
pub struct Identity {
    pub hi: u128,
    pub lo: u128,
}

/// What the maker will accept in exchange for the vaulted asset: either a
/// quantity of a second fungible asset, or a native-currency amount.
#[derive(Clone, Copy, PartialEq, Eq, Structural, Debug)]
pub enum PaymentKind {
    Token { mint: Identity, amount: u64 },
    Sol { lamports: u64 },
}

/// The persistent record describing one outstanding escrow.
#[derive(Clone, Copy, PartialEq, Eq, Structural, Debug)]
pub struct Offer {
    /// Identifier chosen by the maker; determines the record's and the
    /// vault's deterministic addresses.
    pub id: u64,
    /// Wallet that created the offer and is entitled to its proceeds or
    /// its refund.
    pub maker: Identity,
    /// Mint of the asset locked in the vault.
    pub token_mint_a: Identity,
    /// Amount of the offered asset locked in the vault.
    pub token_a_amount: u64,
    /// How the maker wishes to be paid.
    pub payment: PaymentKind,
    /// Derivation-proof byte for the deterministic addresses.
    pub bump: u8,
}

/// An Offer record together with the vault it controls.  The two are created
/// together and destroyed together; the vault is owned by the program and can
/// be disposed of only by settlement or cancellation.
#[derive(Clone, Copy, PartialEq, Eq, Structural, Debug)]
pub struct OpenOffer {
    pub offer: Offer,
    /// Balance of the custody vault holding the offered asset.
    pub vault_amount: u64,
}

/// One wallet's holding of one fungible asset.
#[derive(Clone, Copy, PartialEq, Eq, Structural, Debug)]
pub struct TokenAccount {
    pub owner: Identity,
    pub mint: Identity,
    pub amount: u64,
}

/// One wallet's native-currency balance.
#[derive(Clone, Copy, PartialEq, Eq, Structural, Debug)]
pub struct NativeAccount {
    pub owner: Identity,
    pub lamports: u64,
}

impl OpenOffer {
    /// Validity of a single open escrow: the vault balance equals the
    /// recorded offered amount, the offered amount is strictly positive, and
    /// an asset-for-asset payment names a mint different from the offered one.
    pub open spec fn valid(self) -> bool {
        &&& self.vault_amount == self.offer.token_a_amount
        &&& self.offer.token_a_amount > 0
        &&& match self.offer.payment {
            PaymentKind::Token { mint, amount } => mint != self.offer.token_mint_a,
            PaymentKind::Sol { lamports } => true,
        }
    }
}

} // verus!
