//! Checked accounting of resident-memory footprints.

use llm_app::runtime::footprint::{
    MemoryArithmeticError, MemoryFootprint, checked_add_footprint, checked_sub_footprint,
};

fn footprint(base: u64) -> MemoryFootprint {
    MemoryFootprint {
        host_weight_bytes: base,
        device_weight_bytes: base + 1,
        host_working_bytes: base + 2,
        device_working_bytes: base + 3,
        cache_bytes_per_token: base + 4,
    }
}

#[test]
fn footprints_add_and_subtract_field_by_field() {
    let sum = checked_add_footprint(footprint(10), footprint(100));
    assert_eq!(
        sum,
        Ok(MemoryFootprint {
            host_weight_bytes: 110,
            device_weight_bytes: 112,
            host_working_bytes: 114,
            device_working_bytes: 116,
            cache_bytes_per_token: 118,
        })
    );
    assert_eq!(checked_sub_footprint(sum.unwrap(), footprint(100)), Ok(footprint(10)));
    assert_eq!(
        checked_add_footprint(MemoryFootprint::default(), footprint(7)),
        Ok(footprint(7))
    );
}

#[test]
fn accounting_outside_u64_fails() {
    let mut large = MemoryFootprint::default();
    large.cache_bytes_per_token = u64::MAX;
    assert_eq!(
        checked_add_footprint(large, footprint(0)),
        Err(MemoryArithmeticError::MemoryArithmeticOverflow)
    );
    assert_eq!(
        checked_sub_footprint(footprint(0), footprint(1)),
        Err(MemoryArithmeticError::MemoryArithmeticUnderflow)
    );
}
