use vstd::prelude::*;

use crate::state::{Identity, Offer, PaymentKind};

verus! {

// ---------------------------------------------------------------------------
// Persisted layout of an Offer record.
//
// Every multi-byte field is little-endian.  The record is laid out as
// id (8) | maker (32) | offeredAssetMint (32) | offeredAmount (8) |
// payment tag (1) + payload | derivation-proof byte (1), where tag 0 is the
// asset-for-asset variant {mint (32), amount (8)} and tag 1 is the native
// variant {amount (8)}.
// ---------------------------------------------------------------------------

/// The little-endian bytes of a 64-bit field, least significant first.
#[verifier::opaque]
pub open spec fn u64_le_bytes(x: u64) -> Seq<u8> {
    seq![
        (x % 256) as u8,
        ((x / 256) % 256) as u8,
        ((x / 65536) % 256) as u8,
        ((x / 16777216) % 256) as u8,
        ((x / 4294967296) % 256) as u8,
        ((x / 1099511627776) % 256) as u8,
        ((x / 281474976710656) % 256) as u8,
        ((x / 72057594037927936) % 256) as u8,
    ]
}

/// The 64-bit value read back from eight little-endian bytes.
#[verifier::opaque]
pub open spec fn u64_from_le(b: Seq<u8>) -> u64
    recommends
        b.len() == 8,
{
    (b[0] + b[1] * 256 + b[2] * 65536 + b[3] * 16777216 + b[4] * 4294967296 + b[5]
        * 1099511627776 + b[6] * 281474976710656 + b[7] * 72057594037927936) as u64
}

proof fn lemma_u64_le_bytes_len(x: u64)
    ensures
        u64_le_bytes(x).len() == 8,
{
    reveal(u64_le_bytes);
}

proof fn lemma_u64_le_round_trip(x: u64)
    ensures
        u64_from_le(u64_le_bytes(x)) == x,
{
    reveal(u64_le_bytes);
    reveal(u64_from_le);
    let xi = x as int;
    vstd::arithmetic::div_mod::lemma_div_denominator(xi, 256, 256);
    vstd::arithmetic::div_mod::lemma_div_denominator(xi, 65536, 256);
    vstd::arithmetic::div_mod::lemma_div_denominator(xi, 16777216, 256);
    vstd::arithmetic::div_mod::lemma_div_denominator(xi, 4294967296, 256);
    vstd::arithmetic::div_mod::lemma_div_denominator(xi, 1099511627776, 256);
    vstd::arithmetic::div_mod::lemma_div_denominator(xi, 281474976710656, 256);
    vstd::arithmetic::div_mod::lemma_fundamental_div_mod(xi, 256);
    vstd::arithmetic::div_mod::lemma_fundamental_div_mod(xi / 256, 256);
    vstd::arithmetic::div_mod::lemma_fundamental_div_mod(xi / 65536, 256);
    vstd::arithmetic::div_mod::lemma_fundamental_div_mod(xi / 16777216, 256);
    vstd::arithmetic::div_mod::lemma_fundamental_div_mod(xi / 4294967296, 256);
    vstd::arithmetic::div_mod::lemma_fundamental_div_mod(xi / 1099511627776, 256);
    vstd::arithmetic::div_mod::lemma_fundamental_div_mod(xi / 281474976710656, 256);
    assert(xi / 72057594037927936 < 256);
}

/// Append the eight little-endian bytes of `x`.
fn push_u64_le(out: &mut Vec<u8>, x: u64)
    ensures
        final(out)@ == old(out)@ + u64_le_bytes(x),
{
    out.push((x % 256) as u8);
    out.push(((x / 256) % 256) as u8);
    out.push(((x / 65536) % 256) as u8);
    out.push(((x / 16777216) % 256) as u8);
    out.push(((x / 4294967296) % 256) as u8);
    out.push(((x / 1099511627776) % 256) as u8);
    out.push(((x / 281474976710656) % 256) as u8);
    out.push(((x / 72057594037927936) % 256) as u8);
    proof {
        reveal(u64_le_bytes);
        assert(out@ =~= old(out)@ + u64_le_bytes(x));
    }
}

/// Read the 64-bit field stored at `at`.
fn read_u64_le(bytes: &Vec<u8>, at: usize) -> (r: u64)
    requires
        at + 8 <= bytes.len(),
    ensures
        r == u64_from_le(bytes@.subrange(at as int, at as int + 8)),
{
    proof {
        reveal(u64_from_le);
    }
    let b0 = bytes[at] as u64;
    let b1 = bytes[at + 1] as u64;
    let b2 = bytes[at + 2] as u64;
    let b3 = bytes[at + 3] as u64;
    let b4 = bytes[at + 4] as u64;
    let b5 = bytes[at + 5] as u64;
    let b6 = bytes[at + 6] as u64;
    let b7 = bytes[at + 7] as u64;
    b0 + b1 * 256 + b2 * 65536 + b3 * 16777216 + b4 * 4294967296 + b5 * 1099511627776 + b6
        * 281474976710656 + b7 * 72057594037927936
}

/// The little-endian bytes of a 128-bit field: low 64-bit half first.
#[verifier::opaque]
pub open spec fn u128_le_bytes(x: u128) -> Seq<u8> {
    u64_le_bytes((x % 18446744073709551616) as u64) + u64_le_bytes(
        (x / 18446744073709551616) as u64,
    )
}

/// The 128-bit value read back from sixteen little-endian bytes.
#[verifier::opaque]
pub open spec fn u128_from_le(b: Seq<u8>) -> u128
    recommends
        b.len() == 16,
{
    (u64_from_le(b.subrange(0, 8)) + u64_from_le(b.subrange(8, 16)) * 18446744073709551616) as u128
}

proof fn lemma_u128_le_bytes_len(x: u128)
    ensures
        u128_le_bytes(x).len() == 16,
{
    reveal(u128_le_bytes);
    lemma_u64_le_bytes_len((x % 18446744073709551616) as u64);
    lemma_u64_le_bytes_len((x / 18446744073709551616) as u64);
}

proof fn lemma_u128_le_round_trip(x: u128)
    ensures
        u128_from_le(u128_le_bytes(x)) == x,
{
    reveal(u128_le_bytes);
    reveal(u128_from_le);
    let lo = (x % 18446744073709551616) as u64;
    let hi = (x / 18446744073709551616) as u64;
    assert(x / 18446744073709551616 < 18446744073709551616) by (nonlinear_arith)
        requires
            x <= u128::MAX,
    ;
    lemma_u64_le_bytes_len(lo);
    lemma_u64_le_bytes_len(hi);
    lemma_u64_le_round_trip(lo);
    lemma_u64_le_round_trip(hi);
    vstd::arithmetic::div_mod::lemma_fundamental_div_mod(x as int, 18446744073709551616);
    assert(u128_le_bytes(x).subrange(0, 8) =~= u64_le_bytes(lo));
    assert(u128_le_bytes(x).subrange(8, 16) =~= u64_le_bytes(hi));
}

/// Append the sixteen little-endian bytes of `x`.
fn push_u128_le(out: &mut Vec<u8>, x: u128)
    ensures
        final(out)@ == old(out)@ + u128_le_bytes(x),
{
    push_u64_le(out, (x % 18446744073709551616) as u64);
    push_u64_le(out, (x / 18446744073709551616) as u64);
    proof {
        reveal(u128_le_bytes);
        assert(out@ =~= old(out)@ + u128_le_bytes(x));
    }
}

/// Read the 128-bit field stored at `at`.
fn read_u128_le(bytes: &Vec<u8>, at: usize) -> (r: u128)
    requires
        at + 16 <= bytes.len(),
    ensures
        r == u128_from_le(bytes@.subrange(at as int, at as int + 16)),
{
    let lo = read_u64_le(bytes, at);
    let hi = read_u64_le(bytes, at + 8);
    proof {
        reveal(u128_from_le);
        let whole = bytes@.subrange(at as int, at as int + 16);
        assert(bytes@.subrange(at as int, at as int + 8) =~= whole.subrange(0, 8));
        assert(bytes@.subrange(at as int + 8, at as int + 16) =~= whole.subrange(8, 16));
    }
    lo as u128 + (hi as u128) * 18446744073709551616
}

/// The thirty-two little-endian bytes of an identity: low 128-bit half first.
pub open spec fn identity_le_bytes(w: Identity) -> Seq<u8> {
    u128_le_bytes(w.lo) + u128_le_bytes(w.hi)
}

/// The identity read back from thirty-two little-endian bytes.
pub open spec fn identity_from_le(b: Seq<u8>) -> Identity
    recommends
        b.len() == 32,
{
    Identity { hi: u128_from_le(b.subrange(16, 32)), lo: u128_from_le(b.subrange(0, 16)) }
}

proof fn lemma_identity_le_bytes_len(w: Identity)
    ensures
        identity_le_bytes(w).len() == 32,
{
    lemma_u128_le_bytes_len(w.lo);
    lemma_u128_le_bytes_len(w.hi);
}

proof fn lemma_identity_le_round_trip(w: Identity)
    ensures
        identity_from_le(identity_le_bytes(w)) == w,
{
    lemma_u128_le_bytes_len(w.lo);
    lemma_u128_le_bytes_len(w.hi);
    lemma_u128_le_round_trip(w.lo);
    lemma_u128_le_round_trip(w.hi);
    assert(identity_le_bytes(w).subrange(0, 16) =~= u128_le_bytes(w.lo));
    assert(identity_le_bytes(w).subrange(16, 32) =~= u128_le_bytes(w.hi));
}

/// Append the thirty-two little-endian bytes of `w`.
fn push_identity(out: &mut Vec<u8>, w: Identity)
    ensures
        final(out)@ == old(out)@ + identity_le_bytes(w),
{
    push_u128_le(out, w.lo);
    push_u128_le(out, w.hi);
    proof {
        assert(out@ =~= old(out)@ + identity_le_bytes(w));
    }
}

/// Read the identity stored at `at`.
fn read_identity(bytes: &Vec<u8>, at: usize) -> (r: Identity)
    requires
        at + 32 <= bytes.len(),
    ensures
        r == identity_from_le(bytes@.subrange(at as int, at as int + 32)),
{
    let lo = read_u128_le(bytes, at);
    let hi = read_u128_le(bytes, at + 16);
    proof {
        let whole = bytes@.subrange(at as int, at as int + 32);
        assert(bytes@.subrange(at as int, at as int + 16) =~= whole.subrange(0, 16));
        assert(bytes@.subrange(at as int + 16, at as int + 32) =~= whole.subrange(16, 32));
    }
    Identity { hi, lo }
}

/// The payment variant's wire form: a one-byte tag, then the payload.
/// Tag 0 is the asset-for-asset variant, tag 1 the native variant.
pub open spec fn payment_le_bytes(p: PaymentKind) -> Seq<u8> {
    match p {
        PaymentKind::Token { mint, amount } => seq![0u8] + identity_le_bytes(mint)
            + u64_le_bytes(amount),
        PaymentKind::Sol { lamports } => seq![1u8] + u64_le_bytes(lamports),
    }
}

/// The persisted form of an Offer record.
pub open spec fn offer_le_bytes(o: Offer) -> Seq<u8> {
    u64_le_bytes(o.id) + identity_le_bytes(o.maker) + identity_le_bytes(o.token_mint_a)
        + u64_le_bytes(o.token_a_amount) + payment_le_bytes(o.payment) + seq![o.bump]
}

proof fn lemma_offer_le_bytes_len(o: Offer)
    ensures
        (o.payment matches PaymentKind::Token { .. }) ==> offer_le_bytes(o).len() == 122,
        (o.payment matches PaymentKind::Sol { .. }) ==> offer_le_bytes(o).len() == 90,
{
    lemma_u64_le_bytes_len(o.id);
    lemma_identity_le_bytes_len(o.maker);
    lemma_identity_le_bytes_len(o.token_mint_a);
    lemma_u64_le_bytes_len(o.token_a_amount);
    match o.payment {
        PaymentKind::Token { mint, amount } => {
            lemma_identity_le_bytes_len(mint);
            lemma_u64_le_bytes_len(amount);
        },
        PaymentKind::Sol { lamports } => {
            lemma_u64_le_bytes_len(lamports);
        },
    }
}

#[verifier::rlimit(50)]
proof fn lemma_offer_le_bytes_shape(o: Offer)
    ensures
        offer_le_bytes(o).subrange(0, 8) == u64_le_bytes(o.id),
        offer_le_bytes(o).subrange(8, 40) == identity_le_bytes(o.maker),
        offer_le_bytes(o).subrange(40, 72) == identity_le_bytes(o.token_mint_a),
        offer_le_bytes(o).subrange(72, 80) == u64_le_bytes(o.token_a_amount),
        offer_le_bytes(o)[80] == (match o.payment {
            PaymentKind::Token { .. } => 0u8,
            PaymentKind::Sol { .. } => 1u8,
        }),
        match o.payment {
            PaymentKind::Token { mint, amount } => offer_le_bytes(o).subrange(81, 113)
                == identity_le_bytes(mint) && offer_le_bytes(o).subrange(113, 121)
                == u64_le_bytes(amount) && offer_le_bytes(o)[121] == o.bump,
            PaymentKind::Sol { lamports } => offer_le_bytes(o).subrange(81, 89) == u64_le_bytes(
                lamports,
            ) && offer_le_bytes(o)[89] == o.bump,
        },
{
    lemma_offer_le_bytes_len(o);
    lemma_u64_le_bytes_len(o.id);
    lemma_identity_le_bytes_len(o.maker);
    lemma_identity_le_bytes_len(o.token_mint_a);
    lemma_u64_le_bytes_len(o.token_a_amount);
    assert(offer_le_bytes(o).subrange(0, 8) =~= u64_le_bytes(o.id));
    assert(offer_le_bytes(o).subrange(8, 40) =~= identity_le_bytes(o.maker));
    assert(offer_le_bytes(o).subrange(40, 72) =~= identity_le_bytes(o.token_mint_a));
    assert(offer_le_bytes(o).subrange(72, 80) =~= u64_le_bytes(o.token_a_amount));
    match o.payment {
        PaymentKind::Token { mint, amount } => {
            lemma_identity_le_bytes_len(mint);
            lemma_u64_le_bytes_len(amount);
            assert(offer_le_bytes(o).subrange(81, 113) =~= identity_le_bytes(mint));
            assert(offer_le_bytes(o).subrange(113, 121) =~= u64_le_bytes(amount));
        },
        PaymentKind::Sol { lamports } => {
            lemma_u64_le_bytes_len(lamports);
            assert(offer_le_bytes(o).subrange(81, 89) =~= u64_le_bytes(lamports));
        },
    }
}

/// Serialize an Offer record into its persisted form.
pub fn encode_offer(o: &Offer) -> (r: Vec<u8>)
    ensures
        r@ == offer_le_bytes(*o),
{
    let mut out: Vec<u8> = Vec::new();
    push_u64_le(&mut out, o.id);
    push_identity(&mut out, o.maker);
    push_identity(&mut out, o.token_mint_a);
    push_u64_le(&mut out, o.token_a_amount);
    match o.payment {
        PaymentKind::Token { mint, amount } => {
            out.push(0u8);
            push_identity(&mut out, mint);
            push_u64_le(&mut out, amount);
        },
        PaymentKind::Sol { lamports } => {
            out.push(1u8);
            push_u64_le(&mut out, lamports);
        },
    }
    out.push(o.bump);
    proof {
        assert(out@ =~= offer_le_bytes(*o));
    }
    out
}

/// Deserialize a persisted Offer record.  On the exact byte form written by
/// [`encode_offer`] this returns precisely the encoded record; bytes of the
/// wrong length or with an unknown payment tag are rejected.
pub fn decode_offer(bytes: &Vec<u8>) -> (r: Option<Offer>)
    ensures
        forall|o: Offer| bytes@ == offer_le_bytes(o) ==> r == Some(o),
{
    let n = bytes.len();
    if n != 90 && n != 122 {
        proof {
            assert forall|o: Offer| bytes@ != offer_le_bytes(o) by {
                lemma_offer_le_bytes_len(o);
            }
        }
        return None;
    }
    let tag = bytes[80];
    if (tag == 0 && n != 122) || (tag == 1 && n != 90) || tag > 1 {
        proof {
            assert forall|o: Offer| bytes@ != offer_le_bytes(o) by {
                lemma_offer_le_bytes_len(o);
                lemma_offer_le_bytes_shape(o);
            }
        }
        return None;
    }
    let id = read_u64_le(bytes, 0);
    let maker = read_identity(bytes, 8);
    let token_mint_a = read_identity(bytes, 40);
    let token_a_amount = read_u64_le(bytes, 72);
    if tag == 0 {
        let mint = read_identity(bytes, 81);
        let amount = read_u64_le(bytes, 113);
        let bump = bytes[121];
        let built = Offer {
            id,
            maker,
            token_mint_a,
            token_a_amount,
            payment: PaymentKind::Token { mint, amount },
            bump,
        };
        proof {
            assert forall|o: Offer| bytes@ == offer_le_bytes(o) implies Some(built) == Some(
                o,
            ) by {
                lemma_offer_le_bytes_len(o);
                lemma_offer_le_bytes_shape(o);
                lemma_u64_le_round_trip(o.id);
                lemma_identity_le_round_trip(o.maker);
                lemma_identity_le_round_trip(o.token_mint_a);
                lemma_u64_le_round_trip(o.token_a_amount);
                match o.payment {
                    PaymentKind::Token { mint: mint2, amount: amount2 } => {
                        lemma_identity_le_round_trip(mint2);
                        lemma_u64_le_round_trip(amount2);
                    },
                    PaymentKind::Sol { .. } => {},
                }
            }
        }
        Some(built)
    } else {
        let lamports = read_u64_le(bytes, 81);
        let bump = bytes[89];
        let built = Offer {
            id,
            maker,
            token_mint_a,
            token_a_amount,
            payment: PaymentKind::Sol { lamports },
            bump,
        };
        proof {
            assert forall|o: Offer| bytes@ == offer_le_bytes(o) implies Some(built) == Some(
                o,
            ) by {
                lemma_offer_le_bytes_len(o);
                lemma_offer_le_bytes_shape(o);
                lemma_u64_le_round_trip(o.id);
                lemma_identity_le_round_trip(o.maker);
                lemma_identity_le_round_trip(o.token_mint_a);
                lemma_u64_le_round_trip(o.token_a_amount);
                match o.payment {
                    PaymentKind::Sol { lamports: lamports2 } => {
                        lemma_u64_le_round_trip(lamports2);
                    },
                    PaymentKind::Token { .. } => {},
                }
            }
        }
        Some(built)
    }
}

} // verus!
