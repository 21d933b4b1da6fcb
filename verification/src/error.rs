use vstd::prelude::*;

verus! {

/// The named conditions the protocol's handlers report.  Every failure of one
/// of the four operations that reaches handler logic is one of these; nothing
/// is ever reported as a raw lower-level fault.
#[derive(Clone, Copy, PartialEq, Eq, Structural, Debug)]
pub enum ErrorCode {
    /// Insufficient token balance in the maker's account.
    InsufficientMakerBalance,
    /// Insufficient token balance in the taker's account.
    InsufficientTakerBalance,
    /// The required mint must differ from the offered token's mint.
    InvalidTokenMint,
    /// The offered amount must be greater than zero.
    InvalidAmount,
    /// Failed to close the vault after a sale.
    FailedVaultClosure,
    /// Failed to withdraw tokens from the vault.
    FailedVaultWithdrawal,
    /// Failed to refund tokens from the vault.
    FailedRefundTransfer,
    /// Failed to close the vault during a refund.
    FailedRefundClosure,
    /// The offer does not support this payment method.
    UnsupportedPaymentMethod,
    /// The payment configuration is invalid.
    InvalidPaymentConfiguration,
}

impl ErrorCode {
    /// What each condition means, as a sequence of characters.
    pub open spec fn message_spec(self) -> Seq<char> {
        match self {
            ErrorCode::InsufficientMakerBalance => "Insufficient token balance in maker's account"@,
            ErrorCode::InsufficientTakerBalance => "Insufficient token balance in taker's account"@,
            ErrorCode::InvalidTokenMint => "Invalid token mint - must be different from the offered token"@,
            ErrorCode::InvalidAmount => "Amount must be greater than zero"@,
            ErrorCode::FailedVaultClosure => "Failed to close vault after sale"@,
            ErrorCode::FailedVaultWithdrawal => "Failed to withdraw tokens from vault"@,
            ErrorCode::FailedRefundTransfer => "Failed to refund tokens from vault"@,
            ErrorCode::FailedRefundClosure => "Failed to close vault during refund"@,
            ErrorCode::UnsupportedPaymentMethod => "Offer does not support this payment method"@,
            ErrorCode::InvalidPaymentConfiguration => "Payment configuration is invalid"@,
        }
    }

    /// The human-readable description of the condition.
    pub fn message(&self) -> (m: &'static str)
        ensures
            m@ == self.message_spec(),
    {
        match self {
            ErrorCode::InsufficientMakerBalance => "Insufficient token balance in maker's account",
            ErrorCode::InsufficientTakerBalance => "Insufficient token balance in taker's account",
            ErrorCode::InvalidTokenMint => "Invalid token mint - must be different from the offered token",
            ErrorCode::InvalidAmount => "Amount must be greater than zero",
            ErrorCode::FailedVaultClosure => "Failed to close vault after sale",
            ErrorCode::FailedVaultWithdrawal => "Failed to withdraw tokens from vault",
            ErrorCode::FailedRefundTransfer => "Failed to refund tokens from vault",
            ErrorCode::FailedRefundClosure => "Failed to close vault during refund",
            ErrorCode::UnsupportedPaymentMethod => "Offer does not support this payment method",
            ErrorCode::InvalidPaymentConfiguration => "Payment configuration is invalid",
        }
    }
}

/// How a submitted transaction can fail.  The runtime resolves and
/// authenticates every referenced account before handler logic runs; the
/// first four variants are those runtime rejections, the last carries the
/// named condition a handler reported.
#[derive(Clone, Copy, PartialEq, Eq, Structural, Debug)]
pub enum ChainError {
    /// The referenced Offer record does not exist (never created, or already
    /// settled or cancelled).
    AccountNotFound,
    /// The deterministic address for the requested id is already occupied.
    AccountInUse,
    /// The payer cannot fund the reserves of the accounts being allocated.
    InsufficientFundsForRent,
    /// A relationship constraint between a record and a signer does not hold
    /// (the cancelling signer is not the stored maker).
    ConstraintViolation,
    /// The handler ran and reported a named condition.
    Program(ErrorCode),
}

} // verus!
