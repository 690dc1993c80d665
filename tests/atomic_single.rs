use arena::{ArenaBox, ArenaError, AtomicSingleArena};

#[test]
fn atomic_single_allocation() {
    let arena = AtomicSingleArena::new(64).unwrap();
    let start_ptr = arena.get_free_pointer_mut();
    let arena_2 = arena.clone();
    let arena_3 = arena.clone();

    // the two owners take turns; each allocation is one step under the lock
    for _i in 0..32 {
        arena_2.allocate(&10_i8.to_le_bytes(), 1);
        arena_3.allocate(&20_i8.to_le_bytes(), 1);
    }

    // the owners have allocated all 64 bytes
    // further allocations should fail
    assert!(arena.allocate(&0i32.to_le_bytes(), 4).is_none());

    // all values should be 10 or 20
    let memory = arena.memory();
    let arena_values = &memory[start_ptr..start_ptr + 64];
    for val in arena_values.iter().cloned() {
        assert!(val == 10 || val == 20)
    }

    // keep alive until the end
    drop(arena);
}

#[test]
fn shared_chunk_fills_exactly() {
    let arena = AtomicSingleArena::new(64).unwrap();
    let other = arena.clone();
    let mut addresses = Vec::new();
    for i in 0..64u8 {
        let owner = if i % 3 == 0 { &arena } else { &other };
        let h = owner.allocate(&[i], 1).unwrap();
        addresses.push(h.address());
    }
    addresses.sort();
    assert_eq!(addresses, (0..64usize).collect::<Vec<_>>());
    assert_eq!(arena.remaining_capacity(), 0);
    assert!(other.allocate(&[1u8], 1).is_none());
    assert!(arena.allocate(&[1u8], 1).is_none());
    assert_eq!(arena.allocation_count(), 64);
    assert_eq!(other.size(), 64);
}

#[test]
fn shared_chunk_aligns_and_refuses_zero_capacity() {
    assert!(AtomicSingleArena::new(0).is_none());
    let arena = AtomicSingleArena::new_unchecked(16);
    assert_eq!(arena.get_start_pointer_mut(), 0);
    let _a = arena.allocate(&[1u8], 1).unwrap();
    let b = arena.allocate(&7u32.to_le_bytes(), 4).unwrap();
    assert_eq!(b.address(), 4);
    assert_eq!(arena.get_free_pointer_mut(), 8);
    assert_eq!(arena.get(&b), Ok(7u32.to_le_bytes().to_vec()));
    let z = arena.allocate(&[], 4).unwrap();
    assert!(z.is_detached());
    assert_eq!(arena.remaining_capacity(), 8);
}

#[test]
fn shared_chunk_release_and_errors() {
    let arena = AtomicSingleArena::new(16).unwrap();
    let a = arena.allocate(&[1u8, 2], 1).unwrap();
    let b = arena.allocate(&[3u8], 1).unwrap();
    assert_eq!(arena.allocation_count(), 2);
    assert_eq!(arena.release(a), Ok(()));
    assert_eq!(arena.allocation_count(), 1);
    assert_eq!(arena.into_inner(b), Ok(vec![3u8]));
    assert_eq!(arena.allocation_count(), 0);

    // a handle this chunk never gave out
    assert_eq!(arena.release(ArenaBox::new(0, 0, 1)), Err(ArenaError::CounterCorruption));
    assert_eq!(arena.get(&ArenaBox::new(0, 10, 4)), Err(ArenaError::UnknownHandle));
    assert_eq!(arena.into_inner(ArenaBox::new(0, 10, 4)), Err(ArenaError::UnknownHandle));
    assert_eq!(arena.into_inner(ArenaBox::new(0, 0, 1)), Err(ArenaError::CounterCorruption));
    assert_eq!(arena.release(ArenaBox::new_zero_sized()), Ok(()));
    assert_eq!(arena.allocation_count(), 0);
}
