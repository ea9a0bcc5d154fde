use matvec_jit::instructions::{
    ElementLayout, ScalarRegister, SimpleAddress, VectorKind, VectorRegister,
};
use matvec_jit::register_alloc::RegisterAlloc;

#[test]
fn lane_counts_of_the_four_tiers() {
    assert_eq!(VectorKind::SingleXmm.f64_width(), 1);
    assert_eq!(VectorKind::Xmm.f64_width(), 2);
    assert_eq!(VectorKind::Ymm.f64_width(), 4);
    assert_eq!(VectorKind::Zmm.f64_width(), 8);
}

#[test]
fn vector_register_keeps_index_and_kind() {
    let register = VectorRegister::new(30, VectorKind::Ymm);
    assert_eq!(register.index(), 30);
    assert_eq!(register.kind, VectorKind::Ymm);
    assert_eq!(VectorRegister::new(0, VectorKind::Zmm).index(), 0);
}

#[test]
fn scalar_register_keeps_index() {
    assert_eq!(ScalarRegister::new(11).index(), 11);
    assert_eq!(ScalarRegister::new(0).index(), 0);
}

#[test]
fn address_for_type_takes_layout_from_the_type() {
    let base = ScalarRegister::new(3);
    let address = SimpleAddress::for_type::<f64>(base, -24);
    assert_eq!(address.base_register, base);
    assert_eq!(address.offset, -24);
    assert_eq!(address.layout.size, std::mem::size_of::<f64>());
    assert_eq!(address.layout.align, std::mem::align_of::<f64>());
    let narrow = SimpleAddress::for_type::<u16>(base, 6);
    assert_eq!(narrow.layout, ElementLayout { size: 2, align: 2 });
}

#[test]
fn float64_address_is_that_of_the_float_type() {
    let base = ScalarRegister::new(1);
    assert_eq!(SimpleAddress::for_float64(base, 40), SimpleAddress::for_type::<f64>(base, 40));
    assert_eq!(ElementLayout::float64(), ElementLayout::for_type::<f64>());
    assert_eq!(ElementLayout::float64(), ElementLayout { size: 8, align: 8 });
}

#[test]
fn new_allocator_has_all_registers_free() {
    let alloc = RegisterAlloc::new(4);
    assert_eq!(alloc.free_count(), 4);
    assert!(alloc.is_free(0));
    assert!(alloc.is_free(3));
    assert!(!alloc.is_free(4));
    assert_eq!(RegisterAlloc::new(0).free_count(), 0);
    assert_eq!(RegisterAlloc::new(255).free_count(), 255);
}

#[test]
fn acquire_takes_the_highest_register_first() {
    let mut alloc = RegisterAlloc::new(3);
    assert_eq!(alloc.acquire(), Some(2));
    assert!(!alloc.is_free(2));
    assert_eq!(alloc.free_count(), 2);
    assert_eq!(alloc.acquire(), Some(1));
    assert_eq!(alloc.acquire(), Some(0));
    assert_eq!(alloc.free_count(), 0);
}

#[test]
fn acquire_on_an_empty_allocator_gives_none() {
    let mut alloc = RegisterAlloc::new(1);
    assert_eq!(alloc.acquire(), Some(0));
    assert_eq!(alloc.acquire(), None);
    assert_eq!(alloc.free_count(), 0);
    assert_eq!(alloc.acquire(), None);
}

#[test]
fn released_register_is_acquired_next() {
    let mut alloc = RegisterAlloc::new(4);
    assert_eq!(alloc.acquire(), Some(3));
    assert_eq!(alloc.acquire(), Some(2));
    alloc.release(3);
    assert!(alloc.is_free(3));
    assert_eq!(alloc.free_count(), 3);
    assert_eq!(alloc.acquire(), Some(3));
    alloc.release(2);
    assert_eq!(alloc.acquire(), Some(2));
    assert_eq!(alloc.acquire(), Some(1));
}

#[test]
fn clone_and_restore_bring_back_the_free_registers() {
    let mut alloc = RegisterAlloc::new(5);
    assert_eq!(alloc.acquire(), Some(4));
    let snapshot = alloc.clone();
    assert_eq!(alloc.acquire(), Some(3));
    assert_eq!(alloc.acquire(), Some(2));
    alloc.restore(snapshot);
    assert_eq!(alloc.free_count(), 4);
    assert!(alloc.is_free(3));
    assert!(!alloc.is_free(4));
    assert_eq!(alloc.acquire(), Some(3));
}

#[test]
fn allocator_keeps_the_count_it_was_made_with() {
    let mut alloc = RegisterAlloc::new(7);
    assert_eq!(alloc.registers(), 7);
    alloc.acquire();
    assert_eq!(alloc.registers(), 7);
    assert_eq!(alloc.clone().registers(), 7);
    assert_eq!(RegisterAlloc::new(0).registers(), 0);
}

#[test]
fn next_registers_are_held_to_a_bound() {
    let mut alloc = RegisterAlloc::new(6);
    assert!(alloc.next_are_below(6, 6));
    assert!(alloc.next_are_below(100, 6));
    assert!(!alloc.next_are_below(1, 5));
    assert!(alloc.next_are_below(0, 0));
    assert_eq!(alloc.acquire(), Some(5));
    assert!(alloc.next_are_below(1, 5));
    assert!(alloc.next_are_below(5, 5));
    assert!(!alloc.next_are_below(2, 4));
    assert_eq!(alloc.acquire(), Some(4));
    alloc.release(5);
    // Free, from the top of the stack: 5, 3, 2, 1, 0.
    assert!(!alloc.next_are_below(1, 5));
    assert!(alloc.next_are_below(1, 6));
    assert!(alloc.next_are_below(0, 5));
    assert!(RegisterAlloc::new(0).next_are_below(3, 0));
}
