use crate::error::ContractError;
use vstd::prelude::*;

verus! {

/// Number of atomic units in one whole: 10^18.
pub open spec fn decimal_fractional() -> nat {
    1_000_000_000_000_000_000
}

/// First natural number that does not fit in 256 bits: 2^256.
pub open spec fn uint256_limit() -> nat {
    0x1_0000_0000_0000_0000_0000_0000_0000_0000_0000_0000_0000_0000_0000_0000_0000_0000nat
}

/// The number that a sequence of bytes spells, most significant byte first.
pub open spec fn be_value(bytes: Seq<u8>) -> nat
    decreases bytes.len(),
{
    if bytes.len() == 0 {
        0
    } else {
        be_value(bytes.drop_last()) * 256 + bytes.last() as nat
    }
}

/// A non-negative fixed-point number with 18 fractional digits and a 256-bit
/// magnitude, held as the 32 big-endian bytes of its atomic units.
///
/// Its view is the number of atomic units, so that the number it stands for
/// is `self@ / 10^18`.
#[derive(Clone, Copy, Debug, PartialEq, Eq)]
pub struct Decimal256 {
    bytes: [u8; 32],
}

impl View for Decimal256 {
    type V = nat;

    closed spec fn view(&self) -> nat {
        be_value(self.bytes@)
    }
}

/// `cosmwasm_std::Decimal256::from_ratio`: the quotient of two integers,
/// rounded down to 18 fractional digits. It panics on a zero denominator,
/// which `requires` leaves out; with 128-bit arguments it cannot overflow.
#[verifier::external_body]
fn outside_from_ratio(numerator: u128, denominator: u128) -> (r: Decimal256)
    requires
        denominator != 0,
    ensures
        r@ == (numerator as nat * decimal_fractional()) / (denominator as nat),
{
    let d = cosmwasm_std::Decimal256::from_ratio(numerator, denominator);
    Decimal256 { bytes: d.atomics().to_be_bytes() }
}

/// `cosmwasm_std::Decimal256::checked_add`: the sum of the atomic units, or
/// nothing where the sum needs more than 256 bits.
#[verifier::external_body]
fn outside_checked_add(a: Decimal256, b: Decimal256) -> (r: Option<Decimal256>)
    ensures
        r is Some <==> a@ + b@ < uint256_limit(),
        r is Some ==> r->0@ == a@ + b@,
{
    let x = cosmwasm_std::Decimal256::new(cosmwasm_std::Uint256::from_be_bytes(a.bytes));
    let y = cosmwasm_std::Decimal256::new(cosmwasm_std::Uint256::from_be_bytes(b.bytes));
    match x.checked_add(y) {
        Ok(z) => Some(Decimal256 { bytes: z.atomics().to_be_bytes() }),
        Err(_) => None,
    }
}

/// `cosmwasm_std::Decimal256::checked_sub`: the difference of the atomic units,
/// or nothing where the second operand is the larger.
#[verifier::external_body]
fn outside_checked_sub(a: Decimal256, b: Decimal256) -> (r: Option<Decimal256>)
    ensures
        r is Some <==> b@ <= a@,
        r is Some ==> r->0@ == a@ - b@,
{
    let x = cosmwasm_std::Decimal256::new(cosmwasm_std::Uint256::from_be_bytes(a.bytes));
    let y = cosmwasm_std::Decimal256::new(cosmwasm_std::Uint256::from_be_bytes(b.bytes));
    match x.checked_sub(y) {
        Ok(z) => Some(Decimal256 { bytes: z.atomics().to_be_bytes() }),
        Err(_) => None,
    }
}

/// `cosmwasm_std::Decimal256::checked_mul`: the product of the atomic units
/// divided by 10^18 and rounded down, or nothing where that quotient needs
/// more than 256 bits. The product itself is formed in 512 bits.
#[verifier::external_body]
fn outside_checked_mul(a: Decimal256, b: Decimal256) -> (r: Option<Decimal256>)
    ensures
        r is Some <==> (a@ * b@) / decimal_fractional() < uint256_limit(),
        r is Some ==> r->0@ == (a@ * b@) / decimal_fractional(),
{
    let x = cosmwasm_std::Decimal256::new(cosmwasm_std::Uint256::from_be_bytes(a.bytes));
    let y = cosmwasm_std::Decimal256::new(cosmwasm_std::Uint256::from_be_bytes(b.bytes));
    match x.checked_mul(y) {
        Ok(z) => Some(Decimal256 { bytes: z.atomics().to_be_bytes() }),
        Err(_) => None,
    }
}

/// `cosmwasm_std::Decimal256::to_uint_floor`, narrowed to 128 bits by
/// `Uint128::try_from`: the whole part, or nothing where it needs more than
/// 128 bits.
#[verifier::external_body]
fn outside_floor(a: Decimal256) -> (r: Option<u128>)
    ensures
        r is Some <==> a@ / decimal_fractional() <= u128::MAX,
        r is Some ==> r->0 == a@ / decimal_fractional(),
{
    let x = cosmwasm_std::Decimal256::new(cosmwasm_std::Uint256::from_be_bytes(a.bytes));
    match cosmwasm_std::Uint128::try_from(x.to_uint_floor()) {
        Ok(whole) => Some(whole.u128()),
        Err(_) => None,
    }
}

/// `cosmwasm_std::Uint128::checked_multiply_ratio`: `value * numerator /
/// denominator`, rounded down, with the product formed in 256 bits; nothing
/// where the denominator is zero or the quotient needs more than 128 bits.
#[verifier::external_body]
fn outside_multiply_ratio(value: u128, numerator: u128, denominator: u128) -> (r: Option<u128>)
    ensures
        r == (if denominator != 0 && ratio_floor(
            value as nat,
            numerator as nat,
            denominator as nat,
        ) <= u128::MAX {
            Some(ratio_floor(value as nat, numerator as nat, denominator as nat) as u128)
        } else {
            None
        }),
{
    match cosmwasm_std::Uint128::new(value).checked_multiply_ratio(numerator, denominator) {
        Ok(q) => Some(q.u128()),
        Err(_) => None,
    }
}

/// What `multiply_ratio` returns where it succeeds.
pub open spec fn ratio_floor(value: nat, numerator: nat, denominator: nat) -> nat {
    (value * numerator) / denominator
}

/// `value * numerator / denominator`, rounded down. The product may exceed
/// 128 bits; only the quotient has to fit.
pub fn multiply_ratio(value: u128, numerator: u128, denominator: u128) -> (r: Result<
    u128,
    ContractError,
>)
    ensures
        denominator == 0 ==> r == Err::<u128, ContractError>(ContractError::DivisionByZero),
        denominator != 0 && ratio_floor(value as nat, numerator as nat, denominator as nat)
            > u128::MAX ==> r == Err::<u128, ContractError>(ContractError::ArithmeticOverflow),
        denominator != 0 && ratio_floor(value as nat, numerator as nat, denominator as nat)
            <= u128::MAX ==> r == Ok::<u128, ContractError>(
            ratio_floor(value as nat, numerator as nat, denominator as nat) as u128,
        ),
{
    if denominator == 0 {
        return Err(ContractError::DivisionByZero);
    }
    match outside_multiply_ratio(value, numerator, denominator) {
        Some(q) => Ok(q),
        None => Err(ContractError::ArithmeticOverflow),
    }
}

/// 256 to the power of `n`.
pub open spec fn pow256(n: nat) -> nat
    decreases n,
{
    if n == 0 {
        1
    } else {
        256 * pow256((n - 1) as nat)
    }
}

/// A sequence of bytes spells a number below 256 to the power of its length.
pub proof fn lemma_be_value_bound(bytes: Seq<u8>)
    ensures
        be_value(bytes) < pow256(bytes.len()),
    decreases bytes.len(),
{
    if bytes.len() > 0 {
        lemma_be_value_bound(bytes.drop_last());
    }
}

proof fn lemma_pow256_of_32()
    ensures
        pow256(32) == uint256_limit(),
{
    reveal_with_fuel(pow256, 33);
}

impl Decimal256 {
    /// Every decimal fits 256 bits.
    pub proof fn lemma_fits(self)
        ensures
            self@ < uint256_limit(),
    {
        lemma_be_value_bound(self.bytes@);
        lemma_pow256_of_32();
    }

    /// The 32 bytes of the atomic units, most significant first.
    pub fn to_be_bytes(&self) -> (bytes: [u8; 32])
        ensures
            be_value(bytes@) == self@,
    {
        self.bytes
    }

    /// The decimal whose atomic units the 32 bytes spell, most significant first.
    pub fn from_be_bytes(bytes: [u8; 32]) -> (r: Decimal256)
        ensures
            r@ == be_value(bytes@),
    {
        Decimal256 { bytes }
    }

    /// The ratio `numerator / denominator`, rounded down to 18 fractional digits.
    pub fn from_ratio(numerator: u128, denominator: u128) -> (r: Decimal256)
        requires
            denominator != 0,
        ensures
            r@ == (numerator as nat * decimal_fractional()) / (denominator as nat),
    {
        outside_from_ratio(numerator, denominator)
    }

    /// The ratio `numerator / denominator`, or `DivisionByZero`.
    pub fn checked_from_ratio(numerator: u128, denominator: u128) -> (r: Result<
        Decimal256,
        ContractError,
    >)
        ensures
            denominator == 0 ==> r == Err::<Decimal256, ContractError>(
                ContractError::DivisionByZero,
            ),
            denominator != 0 ==> r is Ok && r->Ok_0@ == (numerator as nat * decimal_fractional())
                / (denominator as nat),
    {
        if denominator == 0 {
            Err(ContractError::DivisionByZero)
        } else {
            Ok(outside_from_ratio(numerator, denominator))
        }
    }

    /// The decimal 0.
    pub fn zero() -> (r: Decimal256)
        ensures
            r@ == 0,
    {
        outside_from_ratio(0, 1)
    }

    /// The decimal 1.
    pub fn one() -> (r: Decimal256)
        ensures
            r@ == decimal_fractional(),
    {
        outside_from_ratio(1, 1)
    }

    /// The decimal that stands for a whole number.
    pub fn from_integer(value: u128) -> (r: Decimal256)
        ensures
            r@ == value as nat * decimal_fractional(),
    {
        outside_from_ratio(value, 1)
    }

    /// The sum, or `ArithmeticOverflow` where it needs more than 256 bits.
    pub fn checked_add(self, other: Decimal256) -> (r: Result<Decimal256, ContractError>)
        ensures
            self@ + other@ < uint256_limit() ==> r is Ok && r->Ok_0@ == self@ + other@,
            self@ + other@ >= uint256_limit() ==> r == Err::<Decimal256, ContractError>(
                ContractError::ArithmeticOverflow,
            ),
    {
        match outside_checked_add(self, other) {
            Some(sum) => Ok(sum),
            None => Err(ContractError::ArithmeticOverflow),
        }
    }

    /// The difference, or `ArithmeticOverflow` where `other` is the larger.
    pub fn checked_sub(self, other: Decimal256) -> (r: Result<Decimal256, ContractError>)
        ensures
            other@ <= self@ ==> r is Ok && r->Ok_0@ == self@ - other@,
            other@ > self@ ==> r == Err::<Decimal256, ContractError>(
                ContractError::ArithmeticOverflow,
            ),
    {
        match outside_checked_sub(self, other) {
            Some(difference) => Ok(difference),
            None => Err(ContractError::ArithmeticOverflow),
        }
    }

    /// The product, rounded down to 18 fractional digits, or
    /// `ArithmeticOverflow` where it needs more than 256 bits.
    pub fn checked_mul(self, other: Decimal256) -> (r: Result<Decimal256, ContractError>)
        ensures
            (self@ * other@) / decimal_fractional() < uint256_limit() ==> r is Ok && r->Ok_0@ == (
            self@ * other@) / decimal_fractional(),
            (self@ * other@) / decimal_fractional() >= uint256_limit() ==> r == Err::<
                Decimal256,
                ContractError,
            >(ContractError::ArithmeticOverflow),
    {
        match outside_checked_mul(self, other) {
            Some(product) => Ok(product),
            None => Err(ContractError::ArithmeticOverflow),
        }
    }

    /// The whole part, or `ArithmeticOverflow` where it needs more than 128 bits.
    pub fn to_uint_floor(self) -> (r: Result<u128, ContractError>)
        ensures
            self@ / decimal_fractional() <= u128::MAX ==> r == Ok::<u128, ContractError>(
                (self@ / decimal_fractional()) as u128,
            ),
            self@ / decimal_fractional() > u128::MAX ==> r == Err::<u128, ContractError>(
                ContractError::ArithmeticOverflow,
            ),
    {
        match outside_floor(self) {
            Some(whole) => Ok(whole),
            None => Err(ContractError::ArithmeticOverflow),
        }
    }
}

} // verus!
