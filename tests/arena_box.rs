use arena::{Arena, ArenaBox};

struct Foo(bool);

impl Drop for Foo {
    fn drop(&mut self) {
        // the bool will be false if it hasnt been dropped yet
        assert!(!self.0);
        self.0 = true;
    }
}

#[test]
fn into_inner_test() {
    // into_inner hands the object out once; its teardown then runs once
    let mut arena = Arena::new();
    let allocation = arena.allocate(&[Foo(false).0 as u8], 1);
    let bytes = arena.into_inner(allocation);
    let foo = Foo(bytes[0] != 0);
    assert_eq!(arena.chunks().last().unwrap().allocation_count(), 0);
    drop(foo);
}

#[test]
fn drop_notify_arena_test() {
    let mut arena = Arena::new();

    let allocation = arena.allocate(&1i32.to_le_bytes(), 4);
    assert_eq!(arena.chunks().last().unwrap().allocation_count(), 1);

    let second_allocation = arena.allocate(&2i32.to_le_bytes(), 4);
    assert_eq!(arena.chunks().last().unwrap().allocation_count(), 2);

    arena.release(allocation);
    assert_eq!(arena.chunks().last().unwrap().allocation_count(), 1);

    arena.release(second_allocation);
    assert_eq!(arena.chunks().last().unwrap().allocation_count(), 0);
}

#[test]
fn handle_constructors() {
    let z = ArenaBox::new_zero_sized();
    assert_eq!(z.address(), 0);
    assert_eq!(z.len(), 0);
    assert_eq!(z.chunk(), None);
    assert!(z.is_detached());

    let h = ArenaBox::new(2, 40, 8);
    assert_eq!(h.address(), 40);
    assert_eq!(h.len(), 8);
    assert_eq!(h.chunk(), Some(2));
    assert!(!h.is_detached());
    let moved = h.in_chunk(5);
    assert_eq!(moved.chunk(), Some(5));
    assert_eq!(moved.address(), 40);
}
