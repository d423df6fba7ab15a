use playground::linked_list::{DoublyLinkedList, Node};
use playground::linked_list_v2;

#[test]
fn append_keeps_order() {
    let mut list: DoublyLinkedList<i32> = DoublyLinkedList::new();
    for value in [32, 23, 7, 6, 3453, 7657] {
        list.append(value);
    }
    assert_eq!(list.len(), 6);
    let read: Vec<i32> = (0..list.len()).map(|i| *list.get_at(i)).collect();
    assert_eq!(read, vec![32, 23, 7, 6, 3453, 7657]);
}

#[test]
fn empty_list_has_no_elements() {
    let list: DoublyLinkedList<u8> = DoublyLinkedList::new();
    assert_eq!(list.len(), 0);
}

#[test]
fn single_element() {
    let mut list = DoublyLinkedList::new();
    list.append('a');
    assert_eq!(list.len(), 1);
    assert_eq!(*list.get_at(0), 'a');
}

#[test]
fn write_then_read_changes_one_position() {
    let mut list = DoublyLinkedList::new();
    list.append(1);
    list.append(2);
    list.append(3);
    *list.get_at_mut(1) = 20;
    assert_eq!(*list.get_at(0), 1);
    assert_eq!(*list.get_at(1), 20);
    assert_eq!(*list.get_at(2), 3);
    assert_eq!(list.len(), 3);
}

#[test]
fn append_after_write_goes_to_the_end() {
    let mut list = DoublyLinkedList::new();
    list.append(5u64);
    list.append(6);
    *list.get_at_mut(0) = 50;
    list.append(7);
    assert_eq!(*list.get_at(2), 7);
    assert_eq!(*list.get_at(0), 50);
}

#[test]
fn node_links() {
    let node = Node::new(4);
    assert_eq!(*node.deref(), 4);
    let mut second = Node::new_with_prev(5, &Some(0));
    second.set_next(2);
    assert_eq!(*second.deref(), 5);
}

#[test]
fn second_list_links_first_and_last() {
    let mut list = linked_list_v2::DoublyLinkedList::new();
    assert_eq!(list.first, None);
    assert_eq!(list.last, None);
    list.append(2);
    assert_eq!(list.first, Some(0));
    assert_eq!(list.last, None);
    list.append(3);
    assert_eq!(list.last, Some(1));
    list.append(4);
    assert_eq!(list.first, Some(0));
    assert_eq!(list.last, Some(2));
}

#[test]
fn second_list_node_fields() {
    let node = linked_list_v2::Node { data: 2, next: None, prev: None };
    let copy = node;
    assert_eq!(copy.data, 2);
    assert_eq!(node.next, None);
}

#[test]
fn lengths_count_appends() {
    for k in 0..20usize {
        let mut list: DoublyLinkedList<usize> = DoublyLinkedList::new();
        for e in 0..k {
            list.append(e * 3);
        }
        assert_eq!(list.len(), k);
        let read: Vec<usize> = (0..list.len()).map(|i| *list.get_at(i)).collect();
        assert_eq!(read, (0..k).map(|e| e * 3).collect::<Vec<_>>());
    }
}
