use spsc_ring::index::{consumer_step, next_index, producer_step};
use spsc_ring::layout::{
    indexing_adjusted_capacity, mid_to_origin_ptr, next_multiple_of, plan_backing_store,
    BackingPlan, MemLayout,
};

const CONTROL: MemLayout = MemLayout { size: 8, align: 4 };

#[test]
fn slot_count_is_capacity_plus_two() {
    assert_eq!(indexing_adjusted_capacity(1), 3);
    assert_eq!(indexing_adjusted_capacity(4096), 4098);
}

#[test]
fn rounds_up_to_multiple() {
    assert_eq!(next_multiple_of(8, 4), 8);
    assert_eq!(next_multiple_of(9, 4), 12);
    assert_eq!(next_multiple_of(0, 16), 0);
    assert_eq!(next_multiple_of(8, 16), 16);
    assert_eq!(next_multiple_of(5, 3), 6);
}

#[test]
fn plans_backing_store() {
    let u64_layout = MemLayout { size: 8, align: 8 };
    assert_eq!(
        plan_backing_store(CONTROL, u64_layout, 16),
        BackingPlan { midpoint: 8, total_size: 8 + 8 * 18, align: 8 }
    );
    let byte = MemLayout { size: 1, align: 1 };
    assert_eq!(
        plan_backing_store(CONTROL, byte, 1),
        BackingPlan { midpoint: 8, total_size: 11, align: 4 }
    );
    let wide = MemLayout { size: 32, align: 32 };
    assert_eq!(
        plan_backing_store(CONTROL, wide, 2),
        BackingPlan { midpoint: 32, total_size: 32 + 32 * 4, align: 32 }
    );
}

#[test]
fn recovers_origin_from_first_slot() {
    let u64_layout = MemLayout { size: 8, align: 8 };
    assert_eq!(mid_to_origin_ptr(4096 + 8, CONTROL, u64_layout), 4096);
    let wide = MemLayout { size: 32, align: 32 };
    assert_eq!(mid_to_origin_ptr(4096 + 32, CONTROL, wide), 4096);
    assert_eq!(mid_to_origin_ptr(100, CONTROL, MemLayout { size: 1, align: 1 }), 92);
}

#[test]
fn index_wraps_at_slot_count() {
    assert_eq!(next_index(0, 3), 1);
    assert_eq!(next_index(1, 3), 2);
    assert_eq!(next_index(2, 3), 0);
}

#[test]
fn initial_indices_are_empty_and_not_full() {
    // Three slots: write starts at 0, read at 2.
    assert_eq!(producer_step(3, 0, 2), Some(1));
    assert_eq!(consumer_step(3, 2, 0), None);
}

#[test]
fn full_and_empty_by_index_equality() {
    // One item held in slot 0: write is 1, read is 2.
    assert_eq!(producer_step(3, 1, 2), None);
    assert_eq!(consumer_step(3, 2, 1), Some(0));
    // After consuming it: read is 0, write is 1.
    assert_eq!(consumer_step(3, 0, 1), None);
    assert_eq!(producer_step(3, 1, 0), Some(2));
}
