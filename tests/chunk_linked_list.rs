use arena::layout::align_offset;
use arena::UnshrinkableLinkedList;

#[test]
fn list_only_grows() {
    let mut list = UnshrinkableLinkedList::new();
    assert_eq!(list.len(), 0);
    assert!(list.last().is_none());
    list.push(3u32);
    list.push(4u32);
    assert_eq!(list.len(), 2);
    assert_eq!(list.last(), Some(&4));
    *list.last_mut() = 5;
    *list.get_mut(0) = 6;
    assert_eq!(*list.get(0), 6);
    assert_eq!(*list.get(1), 5);
}

#[test]
fn align_offset_values() {
    assert_eq!(align_offset(0, 8), 0);
    assert_eq!(align_offset(1, 8), 7);
    assert_eq!(align_offset(8, 8), 0);
    assert_eq!(align_offset(13, 4), 3);
    assert_eq!(align_offset(10, 3), 2);
    assert_eq!(align_offset(10, 1), 0);
}

#[test]
fn list_from_vec_keeps_order() {
    let list = UnshrinkableLinkedList::from(vec![1u8, 2, 3]);
    assert_eq!(list.len(), 3);
    assert_eq!(*list.get(0), 1);
    assert_eq!(list.last(), Some(&3));
}
