//! The ring list: representation, invariant, and the list operations.

use vstd::prelude::*;

verus! {

use vstd::std_specs::cmp::PartialEqSpec;

/// One arena slot: a stored value plus the slot indices of the successor
/// and predecessor nodes in the ring.
pub struct Node<T> {
    pub data: T,
    pub next: usize,
    pub prev: usize,
}

/// The ways `remove_index` can fail.  `NotFound` is defensive: the ring
/// invariant proves the traversal always finds an in-bounds index, so a
/// well-formed list never reports it.
#[derive(Clone, Copy, PartialEq, Eq, Structural, Debug)]
pub enum ListError {
    EmptyList,
    IndexOutOfBounds,
    NotFound,
}

impl ListError {
    /// The diagnostic text of the error.
    pub fn message(&self) -> (s: &'static str)
        ensures
            s@ == (match self {
                ListError::EmptyList => "The list is empty, nothing was done"@,
                ListError::IndexOutOfBounds => "Index out of bounds"@,
                ListError::NotFound => "The index couldn't be found, nothing was done."@,
            }),
    {
        match self {
            ListError::EmptyList => "The list is empty, nothing was done",
            ListError::IndexOutOfBounds => "Index out of bounds",
            ListError::NotFound => "The index couldn't be found, nothing was done.",
        }
    }
}

/// A doubly-linked list with a circular sentinel, stored in an arena.
///
/// Slot 0 of `nodes` is the sentinel; it is always present and never
/// counts as content.  `order` is the ghost sequence of the slots of the
/// real nodes, front to back.  `free` holds the slots released by
/// `remove_index`, ready for reuse by `add`.
pub struct List<T> {
    pub size: usize,
    pub nodes: Vec<Node<T>>,
    pub free: Vec<usize>,
    pub order: Ghost<Seq<usize>>,
}

impl<T> View for List<T> {
    type V = Seq<T>;

    /// The stored values in front-to-back order.
    open spec fn view(&self) -> Seq<T> {
        Seq::new(self.order@.len(), |k: int| self.nodes@[self.order@[k] as int].data)
    }
}

impl<T> List<T> {
    /// A real node's slot: inside the arena and distinct from the sentinel.
    pub open spec fn slot_in_range(&self, i: usize) -> bool {
        1 <= i < self.nodes@.len()
    }

    /// The slot that follows ring position `k` (the sentinel once the last
    /// position is passed).
    pub open spec fn succ_slot(&self, k: int) -> usize {
        if k + 1 < self.order@.len() as int {
            self.order@[k + 1]
        } else {
            0
        }
    }

    /// The slot that precedes ring position `k` (the sentinel before the
    /// first position).
    pub open spec fn pred_slot(&self, k: int) -> usize {
        if k >= 1 {
            self.order@[k - 1]
        } else {
            0
        }
    }

    /// The node at ring position `k` points forward to its successor and
    /// backward to its predecessor.
    pub open spec fn link_ok(&self, k: int) -> bool {
        &&& self.nodes@[self.order@[k] as int].next == self.succ_slot(k)
        &&& self.nodes@[self.order@[k] as int].prev == self.pred_slot(k)
    }

    /// Well-formedness: the ring invariant.
    ///
    /// The real nodes occupy distinct non-sentinel slots; the free slots are
    /// distinct, disjoint from the ring, and together with the ring account
    /// for every slot but the sentinel; the sentinel points forward to the
    /// front and backward to the back (to itself when the list is empty);
    /// and every real node is linked to its ring neighbours in both
    /// directions.
    pub open spec fn wf(&self) -> bool {
        let r = self.order@;
        &&& self.size == r.len()
        &&& self.nodes@.len() >= 1
        &&& self.size + self.free@.len() == self.nodes@.len() - 1
        &&& (forall|k: int| 0 <= k < r.len() ==> self.slot_in_range(#[trigger] r[k]))
        &&& r.no_duplicates()
        &&& (forall|k: int|
            0 <= k < self.free@.len() ==> self.slot_in_range(#[trigger] self.free@[k]))
        &&& self.free@.no_duplicates()
        &&& (forall|k: int| 0 <= k < self.free@.len() ==> !r.contains(#[trigger] self.free@[k]))
        &&& self.nodes@[0].next == (if r.len() == 0 {
            0usize
        } else {
            r[0]
        })
        &&& self.nodes@[0].prev == (if r.len() == 0 {
            0usize
        } else {
            r[r.len() - 1]
        })
        &&& (forall|k: int| 0 <= k < r.len() ==> #[trigger] self.link_ok(k))
    }

    /// The arena slot of the sentinel node.
    pub fn sentinel(&self) -> (r: usize)
        ensures
            r == 0usize,
    {
        0
    }

    /// The successor link of the node in slot `i`.
    pub fn next_of(&self, i: usize) -> (r: usize)
        requires
            i < self.nodes@.len(),
        ensures
            r == self.nodes@[i as int].next,
    {
        self.nodes[i].next
    }

    /// The predecessor link of the node in slot `i`.
    pub fn prev_of(&self, i: usize) -> (r: usize)
        requires
            i < self.nodes@.len(),
        ensures
            r == self.nodes@[i as int].prev,
    {
        self.nodes[i].prev
    }

    /// The value stored in slot `i`.
    pub fn data_of(&self, i: usize) -> (r: &T)
        requires
            i < self.nodes@.len(),
        ensures
            *r == self.nodes@[i as int].data,
    {
        &self.nodes[i].data
    }
}

impl<T: PartialEq + Default> List<T> {
    /// The sentinel's stored value is one the element type's default
    /// constructor allows; it is never read as list content.
    pub open spec fn sentinel_default(&self) -> bool {
        call_ensures(T::default, (), self.nodes@[0].data)
    }

    /// Constructs an empty list: a freshly allocated sentinel whose
    /// successor and predecessor are itself, and a size of zero.
    pub fn new_list() -> (l: List<T>)
        ensures
            l.wf(),
            l.sentinel_default(),
            l@ =~= Seq::<T>::empty(),
            l.size == 0,
            l.nodes@.len() == 1,
            l.nodes@[0].next == 0,
            l.nodes@[0].prev == 0,
            l.free@.len() == 0,
    {
        let mut nodes: Vec<Node<T>> = Vec::new();
        nodes.push(Node { data: T::default(), next: 0, prev: 0 });
        List { size: 0, nodes, free: Vec::new(), order: Ghost(Seq::empty()) }
    }

    /// Inserts `data` at the front: the new node stands immediately after
    /// the sentinel, before every node added earlier.  Always succeeds.
    pub fn add(&mut self, data: T)
        requires
            old(self).wf(),
        ensures
            final(self).wf(),
            final(self)@ == seq![data] + old(self)@,
            final(self).size == old(self).size + 1,
            final(self).nodes@[0].data == old(self).nodes@[0].data,
    {
        let ghost r_old = self.order@;
        // The previous front node, or the sentinel itself if the list is
        // empty.
        let front = self.nodes[0].next;
        let node = Node { data, next: front, prev: 0 };
        let slot: usize;
        match self.free.pop() {
            Some(s) => {
                slot = s;
                self.nodes[s] = node;
            },
            None => {
                slot = self.nodes.len();
                self.nodes.push(node);
            },
        }
        // Repoint the old front's predecessor at the new node; when the
        // list was empty the sentinel is its own front, and its
        // predecessor must come to the new node as well.
        if front != 0 {
            self.nodes[front].prev = slot;
        } else {
            self.nodes[0].prev = slot;
        }
        self.nodes[0].next = slot;
        // The ring and the free list partition the non-sentinel slots, so
        // `size` is below the arena length and the increment cannot
        // overflow.
        let n = self.nodes.len();
        assert(self.size < n);
        self.size = self.size + 1;
        self.order = Ghost(seq![slot] + r_old);
        proof {
            assert(forall|k: int| 0 <= k < self.order@.len() ==> #[trigger] self.link_ok(k)) by {
                assert(self.link_ok(0));
                assert forall|k: int| 1 <= k < self.order@.len() implies #[trigger] self.link_ok(
                    k,
                ) by {
                    assert(old(self).link_ok(k - 1));
                }
            }
            assert(self@ =~= seq![data] + old(self)@);
        }
    }

    /// Removes and returns the value at position `index`, counting from the
    /// front.  Fails with `EmptyList` on an empty list and with
    /// `IndexOutOfBounds` when `index >= size`, leaving the list unchanged
    /// in both cases; `NotFound` is a defensive signal the ring invariant
    /// proves unreachable.
    pub fn remove_index(&mut self, index: usize) -> (r: Result<T, ListError>)
        requires
            old(self).wf(),
        ensures
            final(self).wf(),
            final(self).nodes@[0].data == old(self).nodes@[0].data,
            match r {
                Ok(v) => {
                    &&& index < old(self)@.len()
                    &&& v == old(self)@[index as int]
                    &&& final(self)@ == old(self)@.remove(index as int)
                    &&& final(self).size == old(self).size - 1
                },
                Err(ListError::EmptyList) => old(self).size == 0 && *final(self) == *old(self),
                Err(ListError::IndexOutOfBounds) => old(self).size > 0 && index >= old(self).size
                    && *final(self) == *old(self),
                Err(ListError::NotFound) => false,
            },
            r is Ok <==> index < old(self).size,
    {
        if self.size == 0 {
            return Err(ListError::EmptyList);
        }
        if index >= self.size {
            return Err(ListError::IndexOutOfBounds);
        }
        let ghost r_old = self.order@;
        let mut cur = self.nodes[0].next;
        let mut i: usize = 0;
        loop
            invariant
                *self == *old(self),
                self.wf(),
                i <= index,
                index < self.order@.len(),
                cur == self.order@[i as int],
            ensures
                *self == *old(self),
                self.wf(),
                i == index,
                cur == self.order@[index as int],
            decreases index - i,
        {
            // Defensive bound: were the ring malformed, the walk would
            // stop rather than loop; the invariant `i <= index < size`
            // proves the branch dead.
            if i == self.size {
                return Err(ListError::NotFound);
            }
            if i == index {
                break;
            }
            proof {
                assert(self.link_ok(i as int));
            }
            cur = self.nodes[cur].next;
            i = i + 1;
        }
        proof {
            assert(self.link_ok(index as int));
        }
        let prev = self.nodes[cur].prev;
        let next = self.nodes[cur].next;
        proof {
            if index >= 1 {
                assert(self.slot_in_range(r_old[index as int - 1]));
            }
            if index as int + 1 < r_old.len() {
                assert(self.slot_in_range(r_old[index as int + 1]));
            }
        }
        self.nodes[prev].next = next;
        self.nodes[next].prev = prev;
        // Move the stored value out; the freed slot keeps a default-valued
        // placeholder until `add` reuses it.
        let mut removed = Node { data: T::default(), next: 0, prev: 0 };
        core::mem::swap(&mut removed, &mut self.nodes[cur]);
        self.free.push(cur);
        self.size = self.size - 1;
        self.order = Ghost(r_old.remove(index as int));
        proof {
            let r = r_old;
            let rn = self.order@;
            assert(forall|k: int| 0 <= k < index ==> rn[k] == r[k]);
            assert(forall|k: int| index <= k < rn.len() ==> rn[k] == r[k + 1]);
            assert(rn.no_duplicates());
            assert forall|k: int|
                0 <= k < self.free@.len() implies self.slot_in_range(
                #[trigger] self.free@[k],
            ) && !rn.contains(self.free@[k]) by {
                // A slot of the new ring came from the old ring, so it is
                // neither an old free slot nor the removed one.
                if rn.contains(self.free@[k]) {
                    let j = choose|j: int| 0 <= j < rn.len() && rn[j] == self.free@[k];
                    assert(r.contains(rn[j]));
                }
            }
            assert(self.free@.no_duplicates()) by {
                assert(r.contains(r[index as int]));
            }
            assert forall|k: int| 0 <= k < rn.len() implies #[trigger] self.link_ok(k) by {
                if k < index - 1 {
                    assert(old(self).link_ok(k));
                } else if k == index - 1 {
                    assert(old(self).link_ok(k));
                } else if k == index {
                    assert(old(self).link_ok(k + 1));
                } else {
                    assert(old(self).link_ok(k + 1));
                }
            }
            assert(self@ =~= old(self)@.remove(index as int));
        }
        Ok(removed.data)
    }

    /// Linear search from the front, comparing stored values by equality.
    /// Returns the position of the first match, or `None` when no node
    /// matches; never an error, and no mutation.
    ///
    /// Where `T`'s equality follows its specification (as it does for the
    /// primitive types), the result is pinned exactly: the first position
    /// whose value equals `data`, or `None` when none does.
    pub fn index_of(&self, data: T) -> (r: Option<usize>)
        requires
            self.wf(),
        ensures
            T::obeys_eq_spec() ==> match r {
                Some(i) => i < self@.len() && self@[i as int].eq_spec(&data) && (forall|j: int|
                    0 <= j < i ==> !(#[trigger] self@[j].eq_spec(&data))),
                None => forall|j: int| 0 <= j < self@.len() ==> !(#[trigger] self@[j].eq_spec(&data)),
            },
            r matches Some(i) ==> i < self.size,
    {
        let mut cur = self.nodes[0].next;
        let mut index: usize = 0;
        while index < self.size
            invariant
                self.wf(),
                index <= self.size,
                index < self.size ==> cur == self.order@[index as int],
                T::obeys_eq_spec() ==> forall|j: int|
                    0 <= j < index ==> !(#[trigger] self@[j].eq_spec(&data)),
            decreases self.size - index,
        {
            if self.nodes[cur].data == data {
                return Some(index);
            }
            proof {
                assert(self.link_ok(index as int));
            }
            cur = self.nodes[cur].next;
            index = index + 1;
        }
        None
    }

    /// Whether the list holds no real nodes.
    pub fn is_empty(&self) -> (r: bool)
        ensures
            r == (self.size == 0),
            self.wf() ==> r == (self@.len() == 0),
    {
        self.size == 0
    }
}

} // verus!
