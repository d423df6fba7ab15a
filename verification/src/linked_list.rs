//! A doubly linked list whose nodes live in an arena and point at their neighbours
//! by index. The list only grows at its end, and is read by walking the `next` links.
use vstd::prelude::*;

verus! {

/// A node of the list: an element and the indices of its neighbours.
pub struct Node<T> {
    data: T,
    next: Option<usize>,
    prev: Option<usize>,
}

impl<T> Node<T> {
    /// The element held by this node.
    pub closed spec fn value(&self) -> T {
        self.data
    }

    /// The index of the following node, if any.
    pub closed spec fn next_link(&self) -> Option<usize> {
        self.next
    }

    /// The index of the preceding node, if any.
    pub closed spec fn prev_link(&self) -> Option<usize> {
        self.prev
    }

    /// A node with no neighbours.
    pub fn new(element: T) -> (node: Self)
        ensures
            node.value() == element,
            node.next_link() is None,
            node.prev_link() is None,
    {
        Self { prev: None, next: None, data: element }
    }

    /// A node that follows the node `prev` points at; `prev` must point somewhere.
    pub fn new_with_prev(element: T, prev: &Option<usize>) -> (node: Self)
        requires
            prev is Some,
        ensures
            node.value() == element,
            node.next_link() is None,
            node.prev_link() == *prev,
    {
        Self { data: element, next: None, prev: Some(prev.unwrap()) }
    }

    /// Links this node to the node at index `next`.
    pub fn set_next(&mut self, next: usize)
        ensures
            final(self).next_link() == Some(next),
            final(self).value() == old(self).value(),
            final(self).prev_link() == old(self).prev_link(),
    {
        self.next = Some(next);
    }

    /// The element held by this node.
    pub fn deref(&self) -> (r: &T)
        ensures
            *r == self.value(),
    {
        &self.data
    }
}

/// A doubly linked list. The first node is `first`; `last` names the final node
/// once the list holds two elements or more.
pub struct DoublyLinkedList<T> {
    first: Option<usize>,
    last: Option<usize>,
    len: usize,
    nodes: Vec<Node<T>>,
}

/// The index of the node after position `i` in a list of `len` nodes.
pub open spec fn next_of(i: int, len: int) -> Option<usize> {
    if i + 1 < len { Some((i + 1) as usize) } else { None }
}

/// The index of the node before position `i`.
pub open spec fn prev_of(i: int) -> Option<usize> {
    if i > 0 { Some((i - 1) as usize) } else { None }
}

impl<T> View for DoublyLinkedList<T> {
    type V = Seq<T>;

    /// The elements from first to last.
    closed spec fn view(&self) -> Seq<T> {
        self.nodes@.map_values(|n: Node<T>| n.data)
    }
}

impl<T> DoublyLinkedList<T> {
    /// The list is well formed: the arena holds `len` nodes in list order, each
    /// linked to its neighbours, `first` names node 0 and `last` the final node
    /// once there are two.
    pub closed spec fn wf(&self) -> bool {
        &&& self.nodes@.len() == self.len
        &&& self.first == (if self.len > 0 { Some(0usize) } else { None })
        &&& self.last == (if self.len >= 2 { Some((self.len - 1) as usize) } else { None })
        &&& forall|i: int| 0 <= i < self.len ==> {
            &&& (#[trigger] self.nodes@[i]).next == next_of(i, self.len as int)
            &&& self.nodes@[i].prev == prev_of(i)
        }
    }

    /// The index of the final node, as the list records it.
    pub closed spec fn last_index(&self) -> Option<usize> {
        self.last
    }

    /// The index of the first node, as the list records it.
    pub closed spec fn first_index(&self) -> Option<usize> {
        self.first
    }

    /// The `next` link of the node at position `i`.
    pub closed spec fn next_at(&self, i: int) -> Option<usize> {
        self.nodes@[i].next
    }

    /// The `prev` link of the node at position `i`.
    pub closed spec fn prev_at(&self, i: int) -> Option<usize> {
        self.nodes@[i].prev
    }

    /// What well-formedness means for the links: `first` names the node at position
    /// 0 once there is one, `last` the final node once there are two, and each node's
    /// `next` names the node after it (none after the final one) and its `prev` the
    /// node before it (none before the first). Walking `next` from `first` thus
    /// visits the `len` nodes in order and stops after the final one.
    pub proof fn lemma_wf_shape(&self)
        requires
            self.wf(),
        ensures
            self.first_index() == (if self@.len() > 0 { Some(0usize) } else { None }),
            self.last_index() == (if self@.len() >= 2 {
                Some((self@.len() - 1) as usize)
            } else {
                None
            }),
            forall|i: int|
                0 <= i < self@.len() ==> #[trigger] self.next_at(i) == next_of(i, self@.len() as int)
                    && self.prev_at(i) == prev_of(i),
    {
    }
}

impl<T: Copy> DoublyLinkedList<T> {
    /// An empty list.
    pub fn new() -> (list: Self)
        ensures
            list.wf(),
            list@ == Seq::<T>::empty(),
            list.first_index() is None,
            list.last_index() is None,
    {
        Self { first: None, last: None, len: 0, nodes: Vec::new() }
    }

    /// The number of elements.
    pub fn len(&self) -> (n: usize)
        requires
            self.wf(),
        ensures
            n == self@.len(),
    {
        self.len
    }

    /// Adds `element` after the last element.
    pub fn append(&mut self, element: T)
        requires
            old(self).wf(),
            old(self)@.len() < usize::MAX,
        ensures
            final(self).wf(),
            final(self)@ == old(self)@.push(element),
            final(self).first_index() == Some(0usize),
            old(self)@.len() > 0 ==> final(self).first_index() == old(self).first_index(),
            final(self).last_index() == (if old(self)@.len() > 0 {
                Some(old(self)@.len() as usize)
            } else {
                None
            }),
            final(self).next_at(old(self)@.len() as int) is None,
            final(self).prev_at(old(self)@.len() as int) == prev_of(old(self)@.len() as int),
    {
        let ghost old_nodes = self.nodes@;
        if self.len == 0 {
            let new_node = Node::new(element);
            self.nodes.push(new_node);
            self.first = Some(0);
            self.len = self.len + 1;
        } else if self.len == 1 {
            let new_node = Node::new_with_prev(element, &self.first);
            self.nodes.push(new_node);
            self.last = Some(1);
            self.nodes[0].set_next(1);
            self.len = self.len + 1;
        } else {
            let new_node = Node::new_with_prev(element, &self.last);
            let new_index = self.len;
            self.nodes.push(new_node);
            let last = self.len - 1;
            self.nodes[last].set_next(new_index);
            self.last = Some(new_index);
            self.len = self.len + 1;
        }
        assert(self@ =~= old_nodes.map_values(|n: Node<T>| n.data).push(element));
    }

    /// The arena index of the node at position `index`, found by walking the
    /// links from the first node.
    fn walk_to(&self, index: usize) -> (node: usize)
        requires
            self.wf(),
            index < self@.len(),
        ensures
            node == index,
    {
        let mut element = self.first;
        let mut counter: usize = 0;
        while counter != self.len && counter != index
            invariant
                self.wf(),
                index < self.len,
                counter <= index,
                element == Some(counter),
            decreases index - counter,
        {
            if let Some(element_val) = element {
                element = self.nodes[element_val].next;
            }
            counter = counter + 1;
        }
        match element {
            Some(element_val) => element_val,
            None => {
                proof {
                    assert(false);
                }
                0
            },
        }
    }

    /// The element at position `index`, found by walking the links from the first node.
    pub fn get_at(&self, index: usize) -> (r: &T)
        requires
            self.wf(),
            index < self@.len(),
        ensures
            *r == self@[index as int],
    {
        let node = self.walk_to(index);
        &self.nodes[node].data
    }

    /// Mutable access to the element at position `index`; writing through the
    /// reference changes that element and nothing else.
    pub fn get_at_mut(&mut self, index: usize) -> (r: &mut T)
        requires
            old(self).wf(),
            index < old(self)@.len(),
        ensures
            *r == old(self)@[index as int],
            final(self).wf(),
            final(self)@ == old(self)@.update(index as int, *final(r)),
    {
        let node = self.walk_to(index);
        &mut self.nodes[node].data
    }
}

} // verus!

verus! {

/// Reading after appending: the list is one longer, its new last element is the
/// appended one, and the elements before it are unchanged.
pub proof fn law_append_then_get<T>(
    before: DoublyLinkedList<T>,
    after: DoublyLinkedList<T>,
    element: T,
)
    requires
        after@ == before@.push(element),
    ensures
        after@.len() == before@.len() + 1,
        after@[before@.len() as int] == element,
        forall|i: int| 0 <= i < before@.len() ==> after@[i] == before@[i],
{
}

/// Reading after writing through `get_at_mut`: the written position holds the new
/// value and every other position is unchanged.
pub proof fn law_write_then_get<T>(
    before: DoublyLinkedList<T>,
    after: DoublyLinkedList<T>,
    index: int,
    value: T,
)
    requires
        0 <= index < before@.len(),
        after@ == before@.update(index, value),
    ensures
        after@.len() == before@.len(),
        after@[index] == value,
        forall|i: int| 0 <= i < before@.len() && i != index ==> after@[i] == before@[i],
{
}

/// The lists after the first `k` appends hold the first `k` elements.
proof fn lemma_appends_prefix<T>(lists: Seq<DoublyLinkedList<T>>, elems: Seq<T>, k: int)
    requires
        lists.len() == elems.len() + 1,
        lists[0]@ == Seq::<T>::empty(),
        forall|i: int|
            1 <= i <= elems.len() ==> #[trigger] lists[i]@ == lists[i - 1]@.push(elems[i - 1]),
        0 <= k <= elems.len(),
    ensures
        lists[k]@ == elems.take(k),
    decreases k,
{
    if k > 0 {
        lemma_appends_prefix(lists, elems, k - 1);
        assert(lists[k]@ == lists[k - 1]@.push(elems[k - 1]));
        assert(elems.take(k - 1).push(elems[k - 1]) =~= elems.take(k));
    } else {
        assert(elems.take(0) =~= Seq::<T>::empty());
    }
}

/// A list made by `new` and then `k` appends, the `i`-th of them appending
/// `elems[i]`, holds exactly `elems` in order, so its `len` is `k`. Here `lists[i]`
/// is the list after `i` appends: `lists[0]` is what `new` gives, and each later one
/// is what `append` makes of the one before.
pub proof fn law_len_after_appends<T>(lists: Seq<DoublyLinkedList<T>>, elems: Seq<T>)
    requires
        lists.len() == elems.len() + 1,
        lists[0]@ == Seq::<T>::empty(),
        forall|i: int|
            1 <= i <= elems.len() ==> #[trigger] lists[i]@ == lists[i - 1]@.push(elems[i - 1]),
    ensures
        lists[elems.len() as int]@ == elems,
        lists[elems.len() as int]@.len() == elems.len(),
{
    lemma_appends_prefix(lists, elems, elems.len() as int);
    assert(elems.take(elems.len() as int) =~= elems);
}

} // verus!
