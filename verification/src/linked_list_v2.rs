//! The second doubly linked list: plain `Copy` nodes in an arena, whose `next` and
//! `prev` fields name neighbouring nodes by index.
use vstd::prelude::*;
use crate::linked_list::{next_of, prev_of};

verus! {

/// A node: an element and the indices of its neighbours.
#[derive(Clone, Copy)]
pub struct Node<T> {
    pub data: T,
    pub next: Option<usize>,
    pub prev: Option<usize>,
}

/// A doubly linked list: `first` names the first node, `last` the final node once
/// the list holds two elements or more.
pub struct DoublyLinkedList<T> {
    pub first: Option<usize>,
    pub last: Option<usize>,
    len: usize,
    nodes: Vec<Node<T>>,
}

impl<T> View for DoublyLinkedList<T> {
    type V = Seq<T>;

    /// The elements from first to last.
    closed spec fn view(&self) -> Seq<T> {
        self.nodes@.map_values(|n: Node<T>| n.data)
    }
}

impl<T> DoublyLinkedList<T> {
    /// The arena holds `len` nodes in list order, each linked to its neighbours.
    pub closed spec fn wf(&self) -> bool {
        &&& self.nodes@.len() == self.len
        &&& self.first == (if self.len > 0 { Some(0usize) } else { None })
        &&& self.last == (if self.len >= 2 { Some((self.len - 1) as usize) } else { None })
        &&& forall|i: int| 0 <= i < self.len ==> {
            &&& (#[trigger] self.nodes@[i]).next == next_of(i, self.len as int)
            &&& self.nodes@[i].prev == prev_of(i)
        }
    }

    /// The value of the public field `first`.
    pub closed spec fn first_index(&self) -> Option<usize> {
        self.first
    }

    /// The value of the public field `last`.
    pub closed spec fn last_index(&self) -> Option<usize> {
        self.last
    }

    /// The node at position `i` of the arena.
    pub closed spec fn node_at(&self, i: int) -> Node<T> {
        self.nodes@[i]
    }

    /// What well-formedness means: `first` names the node at position 0 once there
    /// is one, `last` the final node once there are two, and each node holds the
    /// element at its position, with `next` naming the node after it (none after the
    /// final one) and `prev` the node before it (none before the first).
    pub proof fn lemma_wf_shape(&self)
        requires
            self.wf(),
        ensures
            self.first_index() == (if self@.len() > 0 { Some(0usize) } else { None }),
            self.last_index() == (if self@.len() >= 2 { Some((self@.len() - 1) as usize) } else { None }),
            forall|i: int|
                0 <= i < self@.len() ==> {
                    &&& (#[trigger] self.node_at(i)).data == self@[i]
                    &&& self.node_at(i).next == next_of(i, self@.len() as int)
                    &&& self.node_at(i).prev == prev_of(i)
                },
    {
    }

    /// An empty list.
    pub fn new() -> (list: Self)
        ensures
            list.wf(),
            list@ == Seq::<T>::empty(),
            list.first_index() is None,
            list.last_index() is None,
    {
        Self { first: None, last: None, len: 0, nodes: Vec::new() }
    }

    /// Adds `element` after the last element.
    pub fn append(&mut self, element: T)
        requires
            old(self).wf(),
            old(self)@.len() < usize::MAX,
        ensures
            final(self).wf(),
            final(self)@ == old(self)@.push(element),
            final(self).first_index() == Some(0usize),
            old(self)@.len() > 0 ==> final(self).first_index() == old(self).first_index(),
            final(self).last_index() == (if old(self)@.len() > 0 {
                Some(old(self)@.len() as usize)
            } else {
                None
            }),
            final(self).node_at(old(self)@.len() as int) == (Node {
                data: element,
                next: None,
                prev: prev_of(old(self)@.len() as int),
            }),
    {
        let ghost old_nodes = self.nodes@;
        if self.len == 0 {
            self.nodes.push(Node { data: element, next: None, prev: None });
            self.first = Some(0);
            self.len = 1;
        } else if self.len == 1 {
            self.nodes.push(Node { data: element, next: None, prev: self.first });
            self.last = Some(1);
            self.nodes[0].next = Some(1);
            self.len = 2;
        } else {
            let new_index = self.len;
            self.nodes.push(Node { data: element, next: None, prev: self.last });
            let last = self.len - 1;
            self.nodes[last].next = Some(new_index);
            self.last = Some(new_index);
            self.len = self.len + 1;
        }
        assert(self@ =~= old_nodes.map_values(|n: Node<T>| n.data).push(element));
    }
}

} // verus!
