use arena::{Arena, SingleArena, CHUNK_SIZE};

#[test]
fn zero_sized_test() {
    let mut arena = Arena::new();

    let zst: [u8; 0] = [];
    assert_eq!(std::mem::size_of::<()>(), 0);

    for _i in 0..1_000 {
        let _ = arena.allocate(&zst, 1);
    }

    // no memory is actually allocated, therefore no chunks
    assert_eq!(arena.chunks().len(), 0);
}

#[test]
fn allocate_three_chunks() {
    let integers_per_chunk = CHUNK_SIZE;
    let mut arena = Arena::new();

    for _i in 0..(integers_per_chunk * 3) {
        let _ = arena.allocate(&[255u8], 1);
    }

    assert_eq!(arena.chunks().len(), 3);
    assert!(arena.chunks().last().unwrap().remaining_capacity() < 8);
}

#[test]
fn arena_handles_keep_values_across_growth() {
    let mut arena = Arena::new();
    let mut handles = Vec::new();
    for i in 0..3000u32 {
        handles.push(arena.allocate(&i.to_le_bytes(), 4));
    }
    // 3000 four-byte objects need 12000 bytes: three chunks of 4096
    assert_eq!(arena.chunks().len(), 3);
    for (i, h) in handles.iter().enumerate() {
        assert_eq!(arena.get(h), &(i as u32).to_le_bytes()[..]);
        assert_eq!(h.address() % 4, 0);
    }
}

#[test]
fn arena_large_object_gets_its_own_chunk() {
    let mut arena = Arena::new();
    let small = arena.allocate(&[1u8], 1);
    let big_data = vec![7u8; 5000];
    let big = arena.allocate(&big_data, 1);
    assert_eq!(arena.chunks().len(), 2);
    assert_eq!(arena.chunks().get(1).size(), 5000);
    assert_eq!(arena.chunks().get(1).remaining_capacity(), 0);
    assert_eq!(big.chunk(), Some(1));
    assert_eq!(small.chunk(), Some(0));
    assert_eq!(arena.get(&big), &big_data[..]);
    assert_eq!(arena.get(&small), &[1u8][..]);
}

#[test]
fn arena_pads_for_alignment() {
    let mut arena = Arena::new();
    let a = arena.allocate(&[1u8], 1);
    let b = arena.allocate(&[2u8, 0, 0, 0, 0, 0, 0, 0], 8);
    assert_eq!(a.address(), 0);
    assert_eq!(b.address(), 8);
    assert_eq!(arena.chunks().last().unwrap().remaining_capacity(), CHUNK_SIZE - 16);
}

#[test]
fn arena_grows_when_padding_does_not_fit() {
    let mut arena = Arena::new();
    let filler = vec![0u8; CHUNK_SIZE - 3];
    let _f = arena.allocate(&filler, 1);
    // two bytes fit unaligned, but alignment 4 needs one byte of padding
    // too many, so a new chunk is made
    let h = arena.allocate(&[9u8, 9], 4);
    assert_eq!(arena.chunks().len(), 2);
    assert_eq!(h.chunk(), Some(1));
    assert_eq!(h.address(), 0);
}

#[test]
fn arena_release_and_into_inner_adjust_count() {
    let mut arena = Arena::new();
    let a = arena.allocate(&[1u8, 2], 1);
    let b = arena.allocate(&[3u8], 1);
    assert_eq!(arena.chunks().last().unwrap().allocation_count(), 2);
    let v = arena.into_inner(a);
    assert_eq!(v, vec![1u8, 2]);
    assert_eq!(arena.chunks().last().unwrap().allocation_count(), 1);
    arena.release(b);
    assert_eq!(arena.chunks().last().unwrap().allocation_count(), 0);
    let z = arena.allocate(&[], 1);
    assert!(z.is_detached());
    assert_eq!(arena.into_inner(z), Vec::<u8>::new());
    assert_eq!(arena.chunks().last().unwrap().allocation_count(), 0);
}

#[test]
fn arena_set_rewrites_only_its_object() {
    let mut arena = Arena::new();
    let a = arena.allocate(&[1u8, 1], 1);
    let b = arena.allocate(&[2u8, 2], 1);
    arena.set(&a, &[5u8, 6]);
    assert_eq!(arena.get(&a), &[5u8, 6][..]);
    assert_eq!(arena.get(&b), &[2u8, 2][..]);
}

#[test]
fn arena_chunks_are_plain_chunks() {
    let mut arena = Arena::new();
    let _ = arena.allocate(&[4u8], 1);
    let chunk: &SingleArena = arena.chunks().last().unwrap();
    assert_eq!(chunk.size(), CHUNK_SIZE);
    assert_eq!(chunk.memory()[0], 4);
}

#[test]
fn arena_set_then_read_and_release() {
    let mut arena = Arena::new();
    let a = arena.allocate(&[1u8, 1], 1);
    let b = arena.allocate(&[2u8], 1);
    arena.set(&a, &[8u8, 9]);
    assert_eq!(arena.get(&a), &[8u8, 9][..]);
    assert_eq!(arena.get(&b), &[2u8][..]);
    assert_eq!(arena.chunks().last().unwrap().remaining_capacity(), CHUNK_SIZE - 3);
    assert_eq!(arena.into_inner(a), vec![8u8, 9]);
    arena.release(b);
    assert_eq!(arena.chunks().last().unwrap().allocation_count(), 0);
}
