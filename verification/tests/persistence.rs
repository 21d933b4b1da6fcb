use nftmarketplace::{decode_offer, encode_offer, Identity, Offer, PaymentKind};

fn ident(n: u64) -> Identity {
    Identity { hi: (n as u128) * 77, lo: !(n as u128) }
}

#[test]
fn asset_offer_round_trips() {
    let offer = Offer {
        id: 0x0102030405060708,
        maker: ident(1),
        token_mint_a: ident(2),
        token_a_amount: 12_345_678_901_234,
        payment: PaymentKind::Token { mint: ident(3), amount: u64::MAX },
        bump: 254,
    };
    let bytes = encode_offer(&offer);
    assert_eq!(bytes.len(), 122);
    assert_eq!(bytes[0..8], [8, 7, 6, 5, 4, 3, 2, 1]);
    // Discriminant 0: asset-for-asset.
    assert_eq!(bytes[80], 0);
    assert_eq!(bytes[121], 254);
    assert_eq!(decode_offer(&bytes), Some(offer));
}

#[test]
fn native_offer_round_trips() {
    let offer = Offer {
        id: 9,
        maker: ident(4),
        token_mint_a: ident(5),
        token_a_amount: 10,
        payment: PaymentKind::Sol { lamports: 5 },
        bump: 255,
    };
    let bytes = encode_offer(&offer);
    assert_eq!(bytes.len(), 90);
    // Discriminant 1: native currency.
    assert_eq!(bytes[80], 1);
    assert_eq!(bytes[81..89], [5, 0, 0, 0, 0, 0, 0, 0]);
    assert_eq!(bytes[89], 255);
    assert_eq!(decode_offer(&bytes), Some(offer));
}

#[test]
fn malformed_records_are_rejected() {
    let offer = Offer {
        id: 9,
        maker: ident(4),
        token_mint_a: ident(5),
        token_a_amount: 10,
        payment: PaymentKind::Sol { lamports: 5 },
        bump: 255,
    };
    let mut bytes = encode_offer(&offer);
    // A truncated record does not parse.
    bytes.pop();
    assert_eq!(decode_offer(&bytes), None);
    // Neither does one with an unknown payment tag.
    let mut bytes = encode_offer(&offer);
    bytes[80] = 2;
    assert_eq!(decode_offer(&bytes), None);
    // Nor a tag that contradicts the record's length.
    let mut bytes = encode_offer(&offer);
    bytes[80] = 0;
    assert_eq!(decode_offer(&bytes), None);
}
