use crate::error::ContractError;
use vstd::prelude::*;

verus! {

/// Why no address could be derived, as `cosmwasm_std` tells it.
#[derive(Clone, Copy, Debug, PartialEq, Eq, Structural)]
pub enum AddressFault {
    InvalidChecksumLength,
    InvalidSaltLength,
}

/// The canonical address at which the host instantiates a contract from a
/// code checksum, the creator's canonical address and a salt: a hash of the
/// three.
pub uninterp spec fn instantiate2_address_bytes(
    checksum: Seq<u8>,
    creator: Seq<u8>,
    salt: Seq<u8>,
) -> Seq<u8>;

/// Whether checksum and salt have lengths from which an address is derived:
/// 32 bytes, and 1 to 64 bytes.
pub open spec fn derivable(checksum: Seq<u8>, salt: Seq<u8>) -> bool {
    checksum.len() == 32 && 1 <= salt.len() <= 64
}

/// `cosmwasm_std::instantiate2_address`: it refuses a checksum that is not
/// 32 bytes long, then a salt that is empty or longer than 64 bytes, and
/// else returns the address, which depends on the three arguments alone.
#[verifier::external_body]
fn outside_instantiate2_address(checksum: &Vec<u8>, creator: &Vec<u8>, salt: &Vec<u8>) -> (r:
    Result<Vec<u8>, AddressFault>)
    ensures
        match r {
            Ok(address) => derivable(checksum@, salt@) && address@ == instantiate2_address_bytes(
                checksum@,
                creator@,
                salt@,
            ),
            Err(AddressFault::InvalidChecksumLength) => checksum@.len() != 32,
            Err(AddressFault::InvalidSaltLength) => checksum@.len() == 32 && !derivable(
                checksum@,
                salt@,
            ),
        },
{
    let creator = cosmwasm_std::CanonicalAddr::from(creator.as_slice());
    match cosmwasm_std::instantiate2_address(checksum, &creator, salt) {
        Ok(address) => Ok(address.to_vec()),
        Err(cosmwasm_std::Instantiate2AddressError::InvalidChecksumLength) => Err(
            AddressFault::InvalidChecksumLength,
        ),
        Err(cosmwasm_std::Instantiate2AddressError::InvalidSaltLength) => Err(
            AddressFault::InvalidSaltLength,
        ),
    }
}

/// The canonical address of the vesting contract that the salt fixes, or
/// `InvalidSalt` where checksum or salt have a length from which none is
/// derived.
pub fn vesting_address(checksum: &Vec<u8>, creator: &Vec<u8>, salt: &Vec<u8>) -> (r: Result<
    Vec<u8>,
    ContractError,
>)
    ensures
        derivable(checksum@, salt@) ==> r is Ok && r->Ok_0@ == instantiate2_address_bytes(
            checksum@,
            creator@,
            salt@,
        ),
        !derivable(checksum@, salt@) ==> r == Err::<Vec<u8>, ContractError>(
            ContractError::InvalidSalt,
        ),
{
    match outside_instantiate2_address(checksum, creator, salt) {
        Ok(address) => Ok(address),
        Err(_) => Err(ContractError::InvalidSalt),
    }
}

} // verus!
