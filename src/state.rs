use vstd::prelude::*;
use vstd::bytes::{spec_u128_from_le_bytes, spec_u128_to_le_bytes};
use crate::error::LendingError;
use crate::math::Decimal;

verus! {

broadcast use vstd::array::group_array_axioms;

/// Current version of the records this library writes.
pub const PROGRAM_VERSION: u8 = 1;

/// Version byte of a record that was never initialized.
pub const UNINITIALIZED_VERSION: u8 = 0;

/// Slots in a year, for turning a yearly rate into a per-slot one.
pub const SLOTS_PER_YEAR: u64 = 78840000;

/// Collateral is first minted one for one against liquidity.
pub const INITIAL_COLLATERAL_RATIO: u64 = 1;

/// Capacity of a reserve's host fee receiver list.
pub const HOST_FEE_RECEIVER_COUNT: usize = 5;

/// The byte that stores a boolean.
pub open spec fn bool_byte(b: bool) -> u8 {
    if b {
        1
    } else {
        0
    }
}

/// The boolean a stored byte stands for; only 0 and 1 are valid.
pub open spec fn bool_of_byte(b: u8) -> Result<bool, LendingError> {
    if b == 0 {
        Ok(false)
    } else if b == 1 {
        Ok(true)
    } else {
        Err(LendingError::DecodeError)
    }
}

/// Writes a boolean as one byte.
pub fn pack_bool(boolean: bool, dst: &mut [u8; 1])
    ensures
        final(dst)@ == seq![bool_byte(boolean)],
{
    let b: u8 = if boolean { 1 } else { 0 };
    dst[0] = b;
    assert(dst@ =~= seq![bool_byte(boolean)]);
}

/// Reads a boolean from one byte, rejecting anything but 0 and 1.
pub fn unpack_bool(src: &[u8; 1]) -> (r: Result<bool, LendingError>)
    ensures
        r == bool_of_byte(src@[0]),
{
    let b = src[0];
    if b == 0 {
        Ok(false)
    } else if b == 1 {
        Ok(true)
    } else {
        Err(LendingError::DecodeError)
    }
}

/// Writes a decimal as its raw value in 16 little-endian bytes.
pub fn pack_decimal(decimal: Decimal, dst: &mut [u8; 16])
    ensures
        final(dst)@ == spec_u128_to_le_bytes(decimal.0),
{
    let v = vstd::bytes::u128_to_le_bytes(decimal.0);
    let mut i: usize = 0;
    while i < 16
        invariant
            i <= 16,
            v@ == spec_u128_to_le_bytes(decimal.0),
            v@.len() == 16,
            forall|j: int| 0 <= j < i ==> dst@[j] == v@[j],
        decreases 16 - i,
    {
        dst[i] = v[i];
        i = i + 1;
    }
    assert(dst@ =~= v@);
}

/// Reads a decimal from its raw value in 16 little-endian bytes.
pub fn unpack_decimal(src: &[u8; 16]) -> (r: Decimal)
    ensures
        r.0 == spec_u128_from_le_bytes(src@),
{
    Decimal(vstd::bytes::u128_from_le_bytes(vstd::array::array_as_slice(src)))
}

} // verus!
