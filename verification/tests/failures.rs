use nftmarketplace::{
    close_token_account, make_offer, refund_offer, take_offer, take_offer_with_sol,
    transfer_tokens, Chain, ChainError, ErrorCode, Identity, PaymentKind, TakeOfferWithSol,
    OFFER_RENT, VAULT_RENT,
};

fn ident(n: u64) -> Identity {
    Identity { hi: n as u128, lo: (n as u128) << 64 }
}

fn setup() -> (Chain, Identity, Identity, Identity, Identity) {
    let mut c = Chain::new();
    let maker = ident(1);
    let taker = ident(2);
    let mint_a = ident(100);
    let mint_b = ident(101);
    c.fund_native(maker, 10_000_000);
    c.fund_native(taker, 10_000_000);
    (c, maker, taker, mint_a, mint_b)
}

/// An asset-for-asset offer of 100 A against 50 B under id 1.
fn open_asset_offer(c: &mut Chain, maker: Identity, mint_a: Identity, mint_b: Identity) {
    c.fund_token(maker, mint_a, 100);
    let r = make_offer(c, maker, mint_a, 1, 100, PaymentKind::Token { mint: mint_b, amount: 50 });
    assert_eq!(r, Ok(()));
}

#[test]
fn create_zero_amount_rejected() {
    let (mut c, maker, _taker, mint_a, mint_b) = setup();
    c.fund_token(maker, mint_a, 100);
    let r = make_offer(&mut c, maker, mint_a, 1, 0, PaymentKind::Token { mint: mint_b, amount: 50 });
    assert_eq!(r, Err(ChainError::Program(ErrorCode::InvalidAmount)));
    assert!(c.get_offer(1).is_none());
    assert_eq!(c.token_balance(maker, mint_a), 100);
    assert_eq!(c.native_balance(maker), 10_000_000);
}

#[test]
fn create_same_mint_rejected() {
    let (mut c, maker, _taker, mint_a, _mint_b) = setup();
    c.fund_token(maker, mint_a, 100);
    let r = make_offer(&mut c, maker, mint_a, 1, 100, PaymentKind::Token { mint: mint_a, amount: 50 });
    assert_eq!(r, Err(ChainError::Program(ErrorCode::InvalidTokenMint)));
    assert!(c.get_offer(1).is_none());
    assert_eq!(c.token_balance(maker, mint_a), 100);
}

#[test]
fn create_insufficient_maker_balance_rejected() {
    let (mut c, maker, _taker, mint_a, mint_b) = setup();
    c.fund_token(maker, mint_a, 99);
    let r = make_offer(&mut c, maker, mint_a, 1, 100, PaymentKind::Token { mint: mint_b, amount: 50 });
    assert_eq!(r, Err(ChainError::Program(ErrorCode::InsufficientMakerBalance)));
    assert!(c.get_offer(1).is_none());
    assert_eq!(c.token_balance(maker, mint_a), 99);
}

#[test]
fn create_duplicate_id_conflicts() {
    let (mut c, maker, _taker, mint_a, mint_b) = setup();
    c.fund_token(maker, mint_a, 200);
    let payment = PaymentKind::Token { mint: mint_b, amount: 50 };
    assert_eq!(make_offer(&mut c, maker, mint_a, 1, 100, payment), Ok(()));
    // Reusing an id is an allocation conflict, not a business error.
    assert_eq!(
        make_offer(&mut c, maker, mint_a, 1, 100, payment),
        Err(ChainError::AccountInUse)
    );
    assert_eq!(c.token_balance(maker, mint_a), 100);
    assert_eq!(c.vault_balance(1), 100);
}

#[test]
fn create_insufficient_rent_rejected() {
    let (mut c, maker, _taker, mint_a, mint_b) = setup();
    c.fund_token(maker, mint_a, 100);
    c.fund_native(maker, OFFER_RENT + VAULT_RENT - 1);
    let r = make_offer(&mut c, maker, mint_a, 1, 100, PaymentKind::Token { mint: mint_b, amount: 50 });
    assert_eq!(r, Err(ChainError::InsufficientFundsForRent));
    assert!(c.get_offer(1).is_none());
    assert_eq!(c.token_balance(maker, mint_a), 100);
}

#[test]
fn cross_settlement_rejected() {
    let (mut c, maker, taker, mint_a, mint_b) = setup();
    c.fund_token(maker, mint_a, 110);
    c.fund_token(taker, mint_b, 50);
    assert_eq!(
        make_offer(&mut c, maker, mint_a, 1, 100, PaymentKind::Token { mint: mint_b, amount: 50 }),
        Ok(())
    );
    assert_eq!(
        make_offer(&mut c, maker, mint_a, 2, 10, PaymentKind::Sol { lamports: 5 }),
        Ok(())
    );
    // Asset settlement against the native-currency offer, and native
    // settlement against the asset offer: both refused, nothing mutated.
    assert_eq!(
        take_offer(&mut c, taker, 2),
        Err(ChainError::Program(ErrorCode::UnsupportedPaymentMethod))
    );
    assert_eq!(
        take_offer_with_sol(&mut c, TakeOfferWithSol { taker, offer_id: 1 }),
        Err(ChainError::Program(ErrorCode::UnsupportedPaymentMethod))
    );
    assert_eq!(c.vault_balance(1), 100);
    assert_eq!(c.vault_balance(2), 10);
    assert_eq!(c.token_balance(taker, mint_b), 50);
    assert_eq!(c.token_balance(taker, mint_a), 0);
    assert_eq!(c.native_balance(taker), 10_000_000);
}

#[test]
fn cancel_wrong_signer_rejected() {
    let (mut c, maker, taker, mint_a, mint_b) = setup();
    open_asset_offer(&mut c, maker, mint_a, mint_b);
    let r = refund_offer(&mut c, taker, 1);
    assert_eq!(r, Err(ChainError::ConstraintViolation));
    assert_eq!(c.vault_balance(1), 100);
    assert!(c.get_offer(1).is_some());
    assert_eq!(c.token_balance(taker, mint_a), 0);
    assert_eq!(c.token_balance(maker, mint_a), 0);
}

#[test]
fn insufficient_taker_balance_rejected() {
    let (mut c, maker, taker, mint_a, mint_b) = setup();
    open_asset_offer(&mut c, maker, mint_a, mint_b);
    c.fund_token(taker, mint_b, 49);
    let r = take_offer(&mut c, taker, 1);
    assert_eq!(r, Err(ChainError::Program(ErrorCode::InsufficientTakerBalance)));
    // Offer, vault and every balance are exactly as before the call.
    assert_eq!(c.vault_balance(1), 100);
    assert!(c.get_offer(1).is_some());
    assert_eq!(c.token_balance(taker, mint_b), 49);
    assert_eq!(c.token_balance(taker, mint_a), 0);
    assert_eq!(c.token_balance(maker, mint_b), 0);
    assert_eq!(c.native_balance(taker), 10_000_000);
}

#[test]
fn settle_missing_offer_not_found() {
    let (mut c, _maker, taker, _mint_a, _mint_b) = setup();
    assert_eq!(take_offer(&mut c, taker, 7), Err(ChainError::AccountNotFound));
    assert_eq!(
        take_offer_with_sol(&mut c, TakeOfferWithSol { taker, offer_id: 7 }),
        Err(ChainError::AccountNotFound)
    );
    assert_eq!(refund_offer(&mut c, taker, 7), Err(ChainError::AccountNotFound));
}

#[test]
fn native_payment_shortfall_is_invalid_payment_configuration() {
    let (mut c, maker, taker, mint_a, _mint_b) = setup();
    c.fund_token(maker, mint_a, 10);
    assert_eq!(
        make_offer(&mut c, maker, mint_a, 2, 10, PaymentKind::Sol { lamports: 20_000_000 }),
        Ok(())
    );
    let r = take_offer_with_sol(&mut c, TakeOfferWithSol { taker, offer_id: 2 });
    assert_eq!(r, Err(ChainError::Program(ErrorCode::InvalidPaymentConfiguration)));
    assert_eq!(c.vault_balance(2), 10);
    assert_eq!(c.native_balance(taker), 10_000_000);
}

#[test]
fn maker_credit_overflow_is_insufficient_taker_balance() {
    let (mut c, maker, taker, mint_a, mint_b) = setup();
    open_asset_offer(&mut c, maker, mint_a, mint_b);
    c.fund_token(taker, mint_b, 50);
    c.fund_token(maker, mint_b, u64::MAX);
    let r = take_offer(&mut c, taker, 1);
    assert_eq!(r, Err(ChainError::Program(ErrorCode::InsufficientTakerBalance)));
    assert_eq!(c.vault_balance(1), 100);
    assert_eq!(c.token_balance(maker, mint_b), u64::MAX);
}

#[test]
fn vault_withdrawal_overflow_fails() {
    let (mut c, maker, taker, mint_a, mint_b) = setup();
    open_asset_offer(&mut c, maker, mint_a, mint_b);
    c.fund_token(taker, mint_b, 50);
    c.fund_token(taker, mint_a, u64::MAX);
    let r = take_offer(&mut c, taker, 1);
    assert_eq!(r, Err(ChainError::Program(ErrorCode::FailedVaultWithdrawal)));
    assert_eq!(c.vault_balance(1), 100);
    assert_eq!(c.token_balance(taker, mint_b), 50);
}

#[test]
fn vault_closure_overflow_fails() {
    let (mut c, maker, taker, mint_a, mint_b) = setup();
    open_asset_offer(&mut c, maker, mint_a, mint_b);
    c.fund_token(taker, mint_b, 50);
    c.fund_native(taker, u64::MAX);
    let r = take_offer(&mut c, taker, 1);
    assert_eq!(r, Err(ChainError::Program(ErrorCode::FailedVaultClosure)));
    assert_eq!(c.vault_balance(1), 100);
    assert_eq!(c.native_balance(taker), u64::MAX);
    assert_eq!(c.token_balance(taker, mint_b), 50);
}

#[test]
fn refund_transfer_overflow_fails() {
    let (mut c, maker, _taker, mint_a, mint_b) = setup();
    open_asset_offer(&mut c, maker, mint_a, mint_b);
    c.fund_token(maker, mint_a, u64::MAX);
    let r = refund_offer(&mut c, maker, 1);
    assert_eq!(r, Err(ChainError::Program(ErrorCode::FailedRefundTransfer)));
    assert_eq!(c.vault_balance(1), 100);
    assert_eq!(c.token_balance(maker, mint_a), u64::MAX);
}

#[test]
fn refund_closure_overflow_fails() {
    let (mut c, maker, _taker, mint_a, mint_b) = setup();
    open_asset_offer(&mut c, maker, mint_a, mint_b);
    c.fund_native(maker, u64::MAX);
    let r = refund_offer(&mut c, maker, 1);
    assert_eq!(r, Err(ChainError::Program(ErrorCode::FailedRefundClosure)));
    assert_eq!(c.vault_balance(1), 100);
    assert_eq!(c.native_balance(maker), u64::MAX);
}

#[test]
fn transfer_tokens_moves_and_checks() {
    let (mut c, maker, taker, _mint_a, mint_b) = setup();
    c.fund_token(taker, mint_b, 30);
    assert_eq!(transfer_tokens(&mut c, taker, maker, mint_b, 20), Ok(()));
    assert_eq!(c.token_balance(taker, mint_b), 10);
    assert_eq!(c.token_balance(maker, mint_b), 20);
    // A shortfall moves nothing.
    assert_eq!(transfer_tokens(&mut c, taker, maker, mint_b, 11), Err(()));
    assert_eq!(c.token_balance(taker, mint_b), 10);
    assert_eq!(c.token_balance(maker, mint_b), 20);
}

#[test]
fn error_messages_name_the_condition() {
    assert_eq!(
        ErrorCode::InvalidAmount.message(),
        "Amount must be greater than zero"
    );
    assert_eq!(
        ErrorCode::InvalidTokenMint.message(),
        "Invalid token mint - must be different from the offered token"
    );
    assert_eq!(
        ErrorCode::UnsupportedPaymentMethod.message(),
        "Offer does not support this payment method"
    );
}

#[test]
fn close_token_account_requires_empty() {
    let (mut c, _maker, taker, _mint_a, mint_b) = setup();
    c.fund_token(taker, mint_b, 5);
    assert_eq!(close_token_account(&mut c, taker, mint_b), Err(()));
    assert_eq!(c.token_balance(taker, mint_b), 5);
    c.fund_token(taker, mint_b, 0);
    assert_eq!(close_token_account(&mut c, taker, mint_b), Ok(()));
}
