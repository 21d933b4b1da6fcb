use nftmarketplace::{
    make_offer, refund_offer, take_offer, take_offer_with_sol, Chain, ChainError, Identity,
    PaymentKind, TakeOfferWithSol, CANONICAL_BUMP, OFFER_RENT, VAULT_RENT,
};

fn ident(n: u64) -> Identity {
    Identity { hi: n as u128, lo: (n as u128) << 64 }
}

/// A world with a funded maker and taker and two distinct mints.
fn setup() -> (Chain, Identity, Identity, Identity, Identity) {
    let mut c = Chain::new();
    let maker = ident(1);
    let taker = ident(2);
    let mint_a = ident(100);
    let mint_b = ident(101);
    c.fund_native(maker, 10_000_000);
    c.fund_native(taker, 10_000_000);
    (c, maker, taker, mint_a, mint_b)
}

#[test]
fn create_locks_offered_amount() {
    let (mut c, maker, _taker, mint_a, mint_b) = setup();
    c.fund_token(maker, mint_a, 250);
    let r = make_offer(
        &mut c,
        maker,
        mint_a,
        1,
        100,
        PaymentKind::Token { mint: mint_b, amount: 50 },
    );
    assert_eq!(r, Ok(()));
    assert_eq!(c.vault_balance(1), 100);
    assert_eq!(c.token_balance(maker, mint_a), 150);
    assert_eq!(c.native_balance(maker), 10_000_000 - OFFER_RENT - VAULT_RENT);
    let offer = c.get_offer(1).expect("offer should be open");
    assert_eq!(offer.id, 1);
    assert_eq!(offer.maker, maker);
    assert_eq!(offer.token_mint_a, mint_a);
    assert_eq!(offer.token_a_amount, 100);
    assert_eq!(offer.payment, PaymentKind::Token { mint: mint_b, amount: 50 });
    assert_eq!(offer.bump, CANONICAL_BUMP);
}

#[test]
fn settle_with_asset_scenario() {
    // Maker locks 100 units of asset A against 50 units of asset B.
    let (mut c, maker, taker, mint_a, mint_b) = setup();
    c.fund_token(maker, mint_a, 100);
    c.fund_token(taker, mint_b, 60);
    let r = make_offer(
        &mut c,
        maker,
        mint_a,
        1,
        100,
        PaymentKind::Token { mint: mint_b, amount: 50 },
    );
    assert_eq!(r, Ok(()));
    assert_eq!(c.vault_balance(1), 100);

    let r = take_offer(&mut c, taker, 1);
    assert_eq!(r, Ok(()));
    assert_eq!(c.token_balance(taker, mint_a), 100);
    assert_eq!(c.token_balance(taker, mint_b), 10);
    assert_eq!(c.token_balance(maker, mint_b), 50);
    assert_eq!(c.token_balance(maker, mint_a), 0);
    // The vault's reserve goes to the taker, the record's back to the maker.
    assert_eq!(c.native_balance(taker), 10_000_000 + VAULT_RENT);
    assert_eq!(c.native_balance(maker), 10_000_000 - VAULT_RENT);
    // The offer is no longer resolvable.
    assert!(c.get_offer(1).is_none());
    assert_eq!(c.vault_balance(1), 0);
    assert_eq!(take_offer(&mut c, taker, 1), Err(ChainError::AccountNotFound));
}

#[test]
fn settle_with_native_scenario() {
    // Maker locks 10 units of asset A against 5 native units.
    let (mut c, maker, taker, mint_a, _mint_b) = setup();
    c.fund_token(maker, mint_a, 10);
    let r = make_offer(&mut c, maker, mint_a, 2, 10, PaymentKind::Sol { lamports: 5 });
    assert_eq!(r, Ok(()));
    assert_eq!(c.vault_balance(2), 10);

    let r = take_offer_with_sol(&mut c, TakeOfferWithSol { taker, offer_id: 2 });
    assert_eq!(r, Ok(()));
    assert_eq!(c.token_balance(taker, mint_a), 10);
    assert_eq!(c.token_balance(maker, mint_a), 0);
    assert_eq!(c.native_balance(maker), 10_000_000 - VAULT_RENT + 5);
    assert_eq!(c.native_balance(taker), 10_000_000 + VAULT_RENT - 5);
    assert!(c.get_offer(2).is_none());
    assert_eq!(
        take_offer_with_sol(&mut c, TakeOfferWithSol { taker, offer_id: 2 }),
        Err(ChainError::AccountNotFound)
    );
}

#[test]
fn cancel_restores_maker() {
    let (mut c, maker, _taker, mint_a, mint_b) = setup();
    c.fund_token(maker, mint_a, 75);
    let r = make_offer(
        &mut c,
        maker,
        mint_a,
        3,
        75,
        PaymentKind::Token { mint: mint_b, amount: 5 },
    );
    assert_eq!(r, Ok(()));
    assert_eq!(c.token_balance(maker, mint_a), 0);

    let r = refund_offer(&mut c, maker, 3);
    assert_eq!(r, Ok(()));
    // Asset balance and native balance are back at their pre-offer levels.
    assert_eq!(c.token_balance(maker, mint_a), 75);
    assert_eq!(c.native_balance(maker), 10_000_000);
    assert!(c.get_offer(3).is_none());
    assert_eq!(c.vault_balance(3), 0);
    assert_eq!(refund_offer(&mut c, maker, 3), Err(ChainError::AccountNotFound));
}

#[test]
fn maker_can_take_own_offer() {
    let (mut c, maker, _taker, mint_a, mint_b) = setup();
    c.fund_token(maker, mint_a, 40);
    c.fund_token(maker, mint_b, 50);
    let r = make_offer(
        &mut c,
        maker,
        mint_a,
        4,
        40,
        PaymentKind::Token { mint: mint_b, amount: 50 },
    );
    assert_eq!(r, Ok(()));
    let r = take_offer(&mut c, maker, 4);
    assert_eq!(r, Ok(()));
    // Paying oneself nets to zero; the vault contents and both reserves
    // return to the maker.
    assert_eq!(c.token_balance(maker, mint_a), 40);
    assert_eq!(c.token_balance(maker, mint_b), 50);
    assert_eq!(c.native_balance(maker), 10_000_000);
    assert!(c.get_offer(4).is_none());
}

#[test]
fn offers_are_independent() {
    let (mut c, maker, taker, mint_a, mint_b) = setup();
    c.fund_token(maker, mint_a, 30);
    c.fund_token(taker, mint_b, 9);
    let r = make_offer(
        &mut c,
        maker,
        mint_a,
        10,
        20,
        PaymentKind::Token { mint: mint_b, amount: 9 },
    );
    assert_eq!(r, Ok(()));
    let r = make_offer(&mut c, maker, mint_a, 11, 10, PaymentKind::Sol { lamports: 3 });
    assert_eq!(r, Ok(()));

    let r = take_offer(&mut c, taker, 10);
    assert_eq!(r, Ok(()));
    // The other offer is untouched and still settleable.
    assert_eq!(c.vault_balance(11), 10);
    let offer = c.get_offer(11).expect("second offer still open");
    assert_eq!(offer.token_a_amount, 10);
    let r = take_offer_with_sol(&mut c, TakeOfferWithSol { taker, offer_id: 11 });
    assert_eq!(r, Ok(()));
    assert_eq!(c.token_balance(taker, mint_a), 30);
}
