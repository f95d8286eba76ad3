use ticket_sales::error::TicketError;
use ticket_sales::price::{price_for, Decimal};
use ticket_sales::ticket::MINT_FEE;

fn dec(negative: bool, mantissa: u128, scale: u32) -> Decimal {
    Decimal { negative, mantissa, scale }
}

const ONE: u128 = 1_000_000_000_000_000_000_000_000;

#[test]
fn whole_price_converts_exactly() {
    assert_eq!(price_for(&dec(false, 100, 2), 0), Ok(ONE));
    assert_eq!(price_for(&dec(false, 100, 2), MINT_FEE), Ok(ONE + MINT_FEE));
}

#[test]
fn fractional_price_converts_exactly() {
    assert_eq!(price_for(&dec(false, 15, 1), 7), Ok(ONE + ONE / 2 + 7));
    assert_eq!(price_for(&dec(false, 0, 0), 5), Ok(5));
}

#[test]
fn rounding_is_half_away_from_zero() {
    // 0.5 minimal units rounds up, 0.49 down, 1.5 up, 2.5 up.
    assert_eq!(price_for(&dec(false, 5, 25), 0), Ok(1));
    assert_eq!(price_for(&dec(false, 49, 26), 0), Ok(0));
    assert_eq!(price_for(&dec(false, 15, 25), 0), Ok(2));
    assert_eq!(price_for(&dec(false, 25, 25), 0), Ok(3));
    assert_eq!(price_for(&dec(false, 24, 25), 0), Ok(2));
}

#[test]
fn price_is_deterministic() {
    let d = dec(false, 123_456_789, 30);
    let a = price_for(&d, MINT_FEE);
    let b = price_for(&d, MINT_FEE);
    assert_eq!(a, b);
    assert_eq!(a, Ok(123 + MINT_FEE));
}

#[test]
fn negative_price_is_invalid() {
    assert_eq!(price_for(&dec(true, 1, 2), 0), Err(TicketError::InvalidPrice));
    // Negative zero is zero.
    assert_eq!(price_for(&dec(true, 0, 2), 3), Ok(3));
}

#[test]
fn price_beyond_u128_is_invalid() {
    assert_eq!(price_for(&dec(false, u128::MAX, 0), 0), Err(TicketError::InvalidPrice));
    assert_eq!(price_for(&dec(false, 0, 0), u128::MAX), Ok(u128::MAX));
    assert_eq!(price_for(&dec(false, 1, 24), u128::MAX), Err(TicketError::InvalidPrice));
}

#[test]
fn tiny_price_with_huge_scale_rounds_to_zero() {
    assert_eq!(price_for(&dec(false, u128::MAX, 80), 9), Ok(9));
}
