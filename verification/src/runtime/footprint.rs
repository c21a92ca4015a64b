//! Resident-memory footprints and their checked accounting.

use vstd::prelude::*;

verus! {

/// Resident memory reserved by a loaded model or an active request.
#[derive(Clone, Copy, Debug, PartialEq, Eq, Structural)]
pub struct MemoryFootprint {
    /// Host bytes holding model weights.
    pub host_weight_bytes: u64,
    /// Device bytes holding model weights.
    pub device_weight_bytes: u64,
    /// Host bytes of working buffers.
    pub host_working_bytes: u64,
    /// Device bytes of working buffers.
    pub device_working_bytes: u64,
    /// Key/value cache bytes per context token.
    pub cache_bytes_per_token: u64,
}

impl Default for MemoryFootprint {
    fn default() -> (footprint: Self)
        ensures
            footprint == (MemoryFootprint {
                host_weight_bytes: 0,
                device_weight_bytes: 0,
                host_working_bytes: 0,
                device_working_bytes: 0,
                cache_bytes_per_token: 0,
            }),
    {
        MemoryFootprint {
            host_weight_bytes: 0,
            device_weight_bytes: 0,
            host_working_bytes: 0,
            device_working_bytes: 0,
            cache_bytes_per_token: 0,
        }
    }
}

/// Memory accounting left the range of its integers.
#[derive(Clone, Copy, Debug, PartialEq, Eq, Structural)]
pub enum MemoryArithmeticError {
    /// Aggregate memory accounting overflowed its integer representation.
    MemoryArithmeticOverflow,
    /// Aggregate memory accounting underflowed, indicating an internal invariant failure.
    MemoryArithmeticUnderflow,
}

/// Every field of `left + right` fits in a `u64`.
pub open spec fn addition_fits(left: MemoryFootprint, right: MemoryFootprint) -> bool {
    &&& left.host_weight_bytes + right.host_weight_bytes <= u64::MAX
    &&& left.device_weight_bytes + right.device_weight_bytes <= u64::MAX
    &&& left.host_working_bytes + right.host_working_bytes <= u64::MAX
    &&& left.device_working_bytes + right.device_working_bytes <= u64::MAX
    &&& left.cache_bytes_per_token + right.cache_bytes_per_token <= u64::MAX
}

/// Every field of `right` is at most the same field of `left`.
pub open spec fn subtraction_fits(left: MemoryFootprint, right: MemoryFootprint) -> bool {
    &&& right.host_weight_bytes <= left.host_weight_bytes
    &&& right.device_weight_bytes <= left.device_weight_bytes
    &&& right.host_working_bytes <= left.host_working_bytes
    &&& right.device_working_bytes <= left.device_working_bytes
    &&& right.cache_bytes_per_token <= left.cache_bytes_per_token
}

/// The field-wise sum.
pub open spec fn footprint_sum(left: MemoryFootprint, right: MemoryFootprint) -> MemoryFootprint {
    MemoryFootprint {
        host_weight_bytes: (left.host_weight_bytes + right.host_weight_bytes) as u64,
        device_weight_bytes: (left.device_weight_bytes + right.device_weight_bytes) as u64,
        host_working_bytes: (left.host_working_bytes + right.host_working_bytes) as u64,
        device_working_bytes: (left.device_working_bytes + right.device_working_bytes) as u64,
        cache_bytes_per_token: (left.cache_bytes_per_token + right.cache_bytes_per_token) as u64,
    }
}

/// The field-wise difference.
pub open spec fn footprint_difference(left: MemoryFootprint, right: MemoryFootprint) -> MemoryFootprint {
    MemoryFootprint {
        host_weight_bytes: (left.host_weight_bytes - right.host_weight_bytes) as u64,
        device_weight_bytes: (left.device_weight_bytes - right.device_weight_bytes) as u64,
        host_working_bytes: (left.host_working_bytes - right.host_working_bytes) as u64,
        device_working_bytes: (left.device_working_bytes - right.device_working_bytes) as u64,
        cache_bytes_per_token: (left.cache_bytes_per_token - right.cache_bytes_per_token) as u64,
    }
}

/// Adds two footprints field by field, failing when any field overflows.
pub fn checked_add_footprint(left: MemoryFootprint, right: MemoryFootprint) -> (result: Result<
    MemoryFootprint,
    MemoryArithmeticError,
>)
    ensures
        addition_fits(left, right) ==> result == Ok::<MemoryFootprint, MemoryArithmeticError>(
            footprint_sum(left, right),
        ),
        !addition_fits(left, right) ==> result == Err::<MemoryFootprint, MemoryArithmeticError>(
            MemoryArithmeticError::MemoryArithmeticOverflow,
        ),
{
    let overflow = MemoryArithmeticError::MemoryArithmeticOverflow;
    let host_weight_bytes = match left.host_weight_bytes.checked_add(right.host_weight_bytes) {
        Some(sum) => sum,
        None => return Err(overflow),
    };
    let device_weight_bytes = match left.device_weight_bytes.checked_add(right.device_weight_bytes) {
        Some(sum) => sum,
        None => return Err(overflow),
    };
    let host_working_bytes = match left.host_working_bytes.checked_add(right.host_working_bytes) {
        Some(sum) => sum,
        None => return Err(overflow),
    };
    let device_working_bytes = match left.device_working_bytes.checked_add(
        right.device_working_bytes,
    ) {
        Some(sum) => sum,
        None => return Err(overflow),
    };
    let cache_bytes_per_token = match left.cache_bytes_per_token.checked_add(
        right.cache_bytes_per_token,
    ) {
        Some(sum) => sum,
        None => return Err(overflow),
    };
    Ok(
        MemoryFootprint {
            host_weight_bytes,
            device_weight_bytes,
            host_working_bytes,
            device_working_bytes,
            cache_bytes_per_token,
        },
    )
}

/// Subtracts two footprints field by field, failing when any field underflows.
pub fn checked_sub_footprint(left: MemoryFootprint, right: MemoryFootprint) -> (result: Result<
    MemoryFootprint,
    MemoryArithmeticError,
>)
    ensures
        subtraction_fits(left, right) ==> result == Ok::<MemoryFootprint, MemoryArithmeticError>(
            footprint_difference(left, right),
        ),
        !subtraction_fits(left, right) ==> result == Err::<MemoryFootprint, MemoryArithmeticError>(
            MemoryArithmeticError::MemoryArithmeticUnderflow,
        ),
{
    let underflow = MemoryArithmeticError::MemoryArithmeticUnderflow;
    let host_weight_bytes = match left.host_weight_bytes.checked_sub(right.host_weight_bytes) {
        Some(difference) => difference,
        None => return Err(underflow),
    };
    let device_weight_bytes = match left.device_weight_bytes.checked_sub(right.device_weight_bytes) {
        Some(difference) => difference,
        None => return Err(underflow),
    };
    let host_working_bytes = match left.host_working_bytes.checked_sub(right.host_working_bytes) {
        Some(difference) => difference,
        None => return Err(underflow),
    };
    let device_working_bytes = match left.device_working_bytes.checked_sub(
        right.device_working_bytes,
    ) {
        Some(difference) => difference,
        None => return Err(underflow),
    };
    let cache_bytes_per_token = match left.cache_bytes_per_token.checked_sub(
        right.cache_bytes_per_token,
    ) {
        Some(difference) => difference,
        None => return Err(underflow),
    };
    Ok(
        MemoryFootprint {
            host_weight_bytes,
            device_weight_bytes,
            host_working_bytes,
            device_working_bytes,
            cache_bytes_per_token,
        },
    )
}

/// Releasing what was admitted restores the reservation: subtracting a
/// footprint from a sum that included it never underflows and gives back
/// the footprint before the addition.
pub proof fn lemma_release_undoes_admission(reserved: MemoryFootprint, admitted: MemoryFootprint)
    requires
        addition_fits(reserved, admitted),
    ensures
        subtraction_fits(footprint_sum(reserved, admitted), admitted),
        footprint_difference(footprint_sum(reserved, admitted), admitted) == reserved,
{
}

} // verus!
