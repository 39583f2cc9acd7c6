use streamswap::decimal::{multiply_ratio, Decimal256};
use streamswap::error::ContractError;
use streamswap::stream::mul_floor;

fn atomics(value: u128) -> Decimal256 {
    Decimal256::from_ratio(value, 1_000_000_000_000_000_000)
}

fn largest() -> Decimal256 {
    Decimal256::from_be_bytes([0xff; 32])
}

#[test]
fn from_ratio_rounds_down_to_eighteen_digits() {
    assert_eq!(Decimal256::from_ratio(1, 3), atomics(333_333_333_333_333_333));
    assert_eq!(Decimal256::from_ratio(2, 3), atomics(666_666_666_666_666_666));
    assert_eq!(Decimal256::from_ratio(7, 2), atomics(3_500_000_000_000_000_000));
    assert_eq!(Decimal256::from_ratio(0, 5), Decimal256::zero());
    assert_eq!(Decimal256::from_ratio(5, 5), Decimal256::one());
}

#[test]
fn from_ratio_takes_the_whole_range_of_128_bits() {
    let big = Decimal256::from_ratio(u128::MAX, 1);
    assert_eq!(big.to_uint_floor(), Ok(u128::MAX));
    assert_eq!(big, Decimal256::from_integer(u128::MAX));
}

#[test]
fn checked_from_ratio_refuses_a_zero_denominator() {
    assert_eq!(Decimal256::checked_from_ratio(1, 0), Err(ContractError::DivisionByZero));
    assert_eq!(Decimal256::checked_from_ratio(1, 4), Ok(Decimal256::from_ratio(25, 100)));
}

#[test]
fn bytes_spell_the_atomic_units_most_significant_first() {
    let mut expected = [0u8; 32];
    expected[24..].copy_from_slice(&1_000_000_000_000_000_000u64.to_be_bytes());
    assert_eq!(Decimal256::one().to_be_bytes(), expected);
    assert_eq!(Decimal256::from_be_bytes(expected), Decimal256::one());
    assert_eq!(Decimal256::zero().to_be_bytes(), [0u8; 32]);
}

#[test]
fn checked_add_adds() {
    let half = Decimal256::from_ratio(1, 2);
    assert_eq!(half.checked_add(half), Ok(Decimal256::one()));
    assert_eq!(
        Decimal256::from_integer(2).checked_add(Decimal256::from_ratio(1, 4)),
        Ok(Decimal256::from_ratio(9, 4))
    );
}

#[test]
fn checked_add_refuses_more_than_256_bits() {
    assert_eq!(largest().checked_add(atomics(1)), Err(ContractError::ArithmeticOverflow));
    assert_eq!(largest().checked_add(Decimal256::zero()), Ok(largest()));
}

#[test]
fn checked_sub_subtracts() {
    let quarter = Decimal256::from_ratio(1, 4);
    assert_eq!(Decimal256::one().checked_sub(quarter), Ok(Decimal256::from_ratio(3, 4)));
    assert_eq!(quarter.checked_sub(quarter), Ok(Decimal256::zero()));
}

#[test]
fn checked_sub_refuses_a_negative_difference() {
    let quarter = Decimal256::from_ratio(1, 4);
    assert_eq!(quarter.checked_sub(Decimal256::one()), Err(ContractError::ArithmeticOverflow));
}

#[test]
fn checked_mul_rounds_the_product_down() {
    let third = Decimal256::from_ratio(1, 3);
    assert_eq!(
        Decimal256::from_integer(3).checked_mul(third),
        Ok(atomics(999_999_999_999_999_999))
    );
    assert_eq!(third.checked_mul(third), Ok(atomics(111_111_111_111_111_110)));
    assert_eq!(atomics(1).checked_mul(atomics(999_999_999_999_999_999)), Ok(Decimal256::zero()));
    assert_eq!(
        Decimal256::from_ratio(3, 2).checked_mul(Decimal256::from_ratio(5, 2)),
        Ok(Decimal256::from_ratio(15, 4))
    );
}

#[test]
fn checked_mul_refuses_more_than_256_bits() {
    assert_eq!(largest().checked_mul(largest()), Err(ContractError::ArithmeticOverflow));
    assert_eq!(largest().checked_mul(Decimal256::one()), Ok(largest()));
    assert_eq!(
        largest().checked_mul(atomics(1_000_000_000_000_000_001)),
        Err(ContractError::ArithmeticOverflow)
    );
}

#[test]
fn to_uint_floor_drops_the_fraction() {
    assert_eq!(Decimal256::from_ratio(7, 2).to_uint_floor(), Ok(3));
    assert_eq!(Decimal256::from_ratio(999, 1000).to_uint_floor(), Ok(0));
    assert_eq!(Decimal256::from_integer(12).to_uint_floor(), Ok(12));
}

#[test]
fn to_uint_floor_refuses_more_than_128_bits() {
    assert_eq!(largest().to_uint_floor(), Err(ContractError::ArithmeticOverflow));
    let just_over = Decimal256::from_integer(u128::MAX).checked_add(Decimal256::one()).unwrap();
    assert_eq!(just_over.to_uint_floor(), Err(ContractError::ArithmeticOverflow));
    let just_under = Decimal256::from_integer(u128::MAX)
        .checked_add(atomics(999_999_999_999_999_999))
        .unwrap();
    assert_eq!(just_under.to_uint_floor(), Ok(u128::MAX));
}

#[test]
fn multiply_ratio_forms_the_product_in_256_bits() {
    assert_eq!(multiply_ratio(10, 3, 4), Ok(7));
    assert_eq!(multiply_ratio(u128::MAX, u128::MAX, u128::MAX), Ok(u128::MAX));
    assert_eq!(multiply_ratio(u128::MAX, 2, 1), Err(ContractError::ArithmeticOverflow));
    assert_eq!(multiply_ratio(u128::MAX, 2, 2), Ok(u128::MAX));
    assert_eq!(multiply_ratio(5, 0, 3), Ok(0));
    assert_eq!(multiply_ratio(5, 7, 0), Err(ContractError::DivisionByZero));
}

#[test]
fn mul_floor_multiplies_an_amount_by_a_decimal() {
    assert_eq!(mul_floor(7, Decimal256::from_ratio(1, 3)), Ok(2));
    assert_eq!(mul_floor(100, Decimal256::from_ratio(1, 100)), Ok(1));
    assert_eq!(mul_floor(99, Decimal256::from_ratio(1, 100)), Ok(0));
    assert_eq!(mul_floor(u128::MAX, Decimal256::one()), Ok(u128::MAX));
    assert_eq!(mul_floor(u128::MAX, Decimal256::from_integer(2)), Err(ContractError::ArithmeticOverflow));
    assert_eq!(mul_floor(2, largest()), Err(ContractError::ArithmeticOverflow));
    assert_eq!(mul_floor(0, largest()), Ok(0));
}
