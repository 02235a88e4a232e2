use vstd::prelude::*;
use vstd::bytes::spec_u64_from_le_bytes;
use crate::codec::decimal_from;
use crate::error::LendingError;
use crate::math::Decimal;
use crate::pubkey::{Pubkey, PUBKEY_BYTES};
use crate::state::bool_of_byte;

verus! {

broadcast use vstd::array::group_array_axioms;

/// Reads a boolean from the front of `input`, returning it and the rest.
/// Only 0 and 1 are booleans.
pub fn unpack_bool<'a>(input: &'a [u8]) -> (r: Result<(bool, &'a [u8]), LendingError>)
    ensures
        input@.len() == 0 ==> r == Err::<(bool, &[u8]), LendingError>(LendingError::DecodeError),
        input@.len() > 0 ==> match bool_of_byte(input@[0]) {
            Ok(b) => r is Ok && r->Ok_0.0 == b && r->Ok_0.1@ == input@.subrange(1, input@.len() as int),
            Err(e) => r == Err::<(bool, &[u8]), LendingError>(e),
        },
{
    let (value, rest) = match unpack_u8(input) {
        Ok(p) => p,
        Err(e) => return Err(e),
    };
    if value == 0 {
        Ok((false, rest))
    } else if value == 1 {
        Ok((true, rest))
    } else {
        Err(LendingError::DecodeError)
    }
}

/// Reads a decimal (16 little-endian bytes) from the front of `input`,
/// returning it and the rest.
pub fn unpack_decimal<'a>(input: &'a [u8]) -> (r: Result<(Decimal, &'a [u8]), LendingError>)
    ensures
        input@.len() < 16 ==> r == Err::<(Decimal, &[u8]), LendingError>(LendingError::DecodeError),
        input@.len() >= 16 ==> r is Ok && r->Ok_0.0 == decimal_from(input@.subrange(0, 16))
            && r->Ok_0.1@ == input@.subrange(16, input@.len() as int),
{
    if input.len() < 16 {
        return Err(LendingError::DecodeError);
    }
    let (bytes, rest) = input.split_at(16);
    Ok((Decimal(vstd::bytes::u128_from_le_bytes(bytes)), rest))
}

/// Reads a `u64` (8 little-endian bytes) from the front of `input`,
/// returning it and the rest.
pub fn unpack_u64<'a>(input: &'a [u8]) -> (r: Result<(u64, &'a [u8]), LendingError>)
    ensures
        input@.len() < 8 ==> r == Err::<(u64, &[u8]), LendingError>(LendingError::DecodeError),
        input@.len() >= 8 ==> r is Ok && r->Ok_0.0 == spec_u64_from_le_bytes(input@.subrange(0, 8))
            && r->Ok_0.1@ == input@.subrange(8, input@.len() as int),
{
    if input.len() < 8 {
        return Err(LendingError::DecodeError);
    }
    let (bytes, rest) = input.split_at(8);
    Ok((vstd::bytes::u64_from_le_bytes(bytes), rest))
}

/// Reads one byte from the front of `input`, returning it and the rest.
pub fn unpack_u8<'a>(input: &'a [u8]) -> (r: Result<(u8, &'a [u8]), LendingError>)
    ensures
        input@.len() == 0 ==> r == Err::<(u8, &[u8]), LendingError>(LendingError::DecodeError),
        input@.len() > 0 ==> r is Ok && r->Ok_0.0 == input@[0]
            && r->Ok_0.1@ == input@.subrange(1, input@.len() as int),
{
    if input.len() == 0 {
        return Err(LendingError::DecodeError);
    }
    let (bytes, rest) = input.split_at(1);
    Ok((bytes[0], rest))
}

/// Reads 32 bytes from the front of `input`, returning them and the rest.
pub fn unpack_bytes32<'a>(input: &'a [u8]) -> (r: Result<([u8; 32], &'a [u8]), LendingError>)
    ensures
        input@.len() < 32 ==> r == Err::<([u8; 32], &[u8]), LendingError>(LendingError::DecodeError),
        input@.len() >= 32 ==> r is Ok && r->Ok_0.0@ == input@.subrange(0, 32)
            && r->Ok_0.1@ == input@.subrange(32, input@.len() as int),
{
    if input.len() < 32 {
        return Err(LendingError::DecodeError);
    }
    let (bytes, rest) = input.split_at(32);
    let a = crate::codec::get_bytes32(bytes, 0);
    assert(bytes@.subrange(0, 32) =~= bytes@);
    Ok((a, rest))
}

/// Reads an address from the front of `input`, returning it and the rest.
pub fn unpack_pubkey<'a>(input: &'a [u8]) -> (r: Result<(Pubkey, &'a [u8]), LendingError>)
    ensures
        input@.len() < 32 ==> r == Err::<(Pubkey, &[u8]), LendingError>(LendingError::DecodeError),
        input@.len() >= 32 ==> r is Ok && r->Ok_0.0.0@ == input@.subrange(0, 32)
            && r->Ok_0.1@ == input@.subrange(32, input@.len() as int),
{
    if input.len() < PUBKEY_BYTES {
        return Err(LendingError::DecodeError);
    }
    match unpack_bytes32(input) {
        Ok((key, rest)) => Ok((Pubkey(key), rest)),
        Err(e) => Err(e),
    }
}

} // verus!
