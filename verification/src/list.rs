//! Singly linked list.
//!
//! Shared-ownership node graphs cannot carry contracts, so the nodes live
//! in owned contiguous storage (an arena) and link to each other by index:
//! `data[i]` and `next[i]` together form node `i`, and `head` names the
//! first node of the chain.  A ghost sequence records the indices in list
//! order, which makes the view of the list — its elements from front to
//! back — a direct function of the state.

use vstd::prelude::*;

verus! {

/// Singly linked list over an arena of nodes chained by index.
pub struct LinkedList<T> {
    data: Vec<T>,
    next: Vec<Option<usize>>,
    head: Option<usize>,
    order: Ghost<Seq<usize>>,
}

impl<T> View for LinkedList<T> {
    type V = Seq<T>;

    closed spec fn view(&self) -> Seq<T> {
        Seq::new(self.order@.len(), |k: int| self.data@[self.order@[k] as int])
    }
}

impl<T> LinkedList<T> {
    /// Well-formedness: one next link per node, the ghost order lists
    /// distinct valid indices, the head is the first of them, and each
    /// listed node links to the next one (the last to nothing).
    pub closed spec fn wf(self) -> bool {
        &&& self.data@.len() == self.next@.len()
        &&& self.head == if self.order@.len() == 0 {
            None::<usize>
        } else {
            Some(self.order@[0])
        }
        &&& forall|k: int|
            #![trigger self.order@[k]]
            0 <= k < self.order@.len() ==> self.order@[k] < self.data@.len()
        &&& forall|a: int, b: int|
            0 <= a < b < self.order@.len() ==> self.order@[a] != self.order@[b]
        &&& forall|k: int|
            #![trigger self.order@[k]]
            0 <= k < self.order@.len() ==> self.next@[self.order@[k] as int] == if k + 1
                < self.order@.len() {
                Some(self.order@[k + 1])
            } else {
                None::<usize>
            }
    }

    /// Creates an empty list.
    pub fn new() -> (result: Self)
        ensures
            result.wf(),
            result@ == Seq::<T>::empty(),
    {
        let result = LinkedList {
            data: Vec::new(),
            next: Vec::new(),
            head: None,
            order: Ghost(Seq::empty()),
        };
        proof {
            assert(result@ =~= Seq::<T>::empty());
        }
        result
    }

    /// Pushes an element at the front of the list.
    pub fn push(&mut self, data: T)
        requires
            old(self).wf(),
        ensures
            final(self).wf(),
            final(self)@ == seq![data] + old(self)@,
    {
        let idx = self.data.len();
        self.next.push(self.head);
        self.data.push(data);
        self.head = Some(idx);
        proof {
            self.order = Ghost(seq![idx] + self.order@);
            assert(self@ =~= seq![data] + old(self)@);
        }
    }

    /// Inserts an element right after the `n`-th one (counting from zero
    /// at the front); a list with no `n`-th element is left unchanged.
    #[verifier::rlimit(50)]
    pub fn insert_after(&mut self, n: usize, data: T)
        requires
            old(self).wf(),
        ensures
            final(self).wf(),
            n < old(self)@.len() ==> final(self)@ == old(self)@.take(n as int + 1) + seq![data]
                + old(self)@.skip(n as int + 1),
            n >= old(self)@.len() ==> final(self)@ == old(self)@,
    {
        let ghost order0 = self.order@;
        let mut current: Option<usize> = self.head;
        let mut step: usize = 0;
        while step < n
            invariant
                old(self).wf(),
                *self == *old(self),
                order0 == self.order@,
                step <= n,
                current == if (step as int) < order0.len() {
                    Some(order0[step as int])
                } else {
                    None::<usize>
                },
            decreases n - step,
        {
            match current {
                Some(node_idx) => {
                    proof {
                        assert(node_idx == order0[step as int]);
                        assert(self.next@[order0[step as int] as int] == if step as int + 1
                            < order0.len() {
                            Some(order0[step as int + 1])
                        } else {
                            None::<usize>
                        });
                    }
                    current = self.next[node_idx];
                    step += 1;
                }
                None => {
                    return ;
                }
            }
        }
        match current {
            Some(nth_idx) => {
                let new_idx = self.data.len();
                let successor = self.next[nth_idx];
                self.data.push(data);
                self.next.push(successor);
                self.next[nth_idx] = Some(new_idx);
                proof {
                    let o1 = order0.take(n as int + 1) + seq![new_idx] + order0.skip(n as int + 1);
                    self.order = Ghost(o1);
                    assert(nth_idx == order0[n as int]);
                    assert forall|k: int| 0 <= k < o1.len() implies {
                        &&& #[trigger] o1[k] < self.data@.len()
                        &&& self.next@[o1[k] as int] == if k + 1 < o1.len() {
                            Some(o1[k + 1])
                        } else {
                            None::<usize>
                        }
                    } by {
                        if k <= n as int {
                            assert(o1[k] == order0[k]);
                            if k < n as int {
                                assert(order0[k] != order0[n as int]);
                            }
                        } else if k == n + 1 {
                            assert(o1[k] == new_idx);
                        } else {
                            assert(o1[k] == order0[k - 1]);
                            assert(order0[k - 1] != order0[n as int]);
                        }
                    }
                    assert forall|a: int, b: int| 0 <= a < b < o1.len() implies o1[a] != o1[b] by {
                        if a != n + 1 && b != n + 1 {
                            let a0 = if a <= n as int {
                                a
                            } else {
                                a - 1
                            };
                            let b0 = if b <= n as int {
                                b
                            } else {
                                b - 1
                            };
                            assert(o1[a] == order0[a0] && o1[b] == order0[b0]);
                        } else {
                            assert(o1[n + 1] == new_idx);
                        }
                    }
                    assert(final(self)@ =~= old(self)@.take(n as int + 1) + seq![data]
                        + old(self)@.skip(n as int + 1));
                }
            }
            None => {
            }
        }
    }
}

impl<T: Clone> LinkedList<T> {
    /// Hands out an iterator over the list: a front-to-back walk whose
    /// elements are clones of the list's elements.
    pub fn iter(&self) -> (it: Iter<T>)
        requires
            self.wf(),
        ensures
            it.remaining().len() == self@.len(),
            forall|i: int|
                0 <= i < self@.len() ==> cloned::<T>(self@[i], #[trigger] it.remaining()[i]),
    {
        let ghost order0 = self.order@;
        let mut items: Vec<T> = Vec::new();
        let mut current: Option<usize> = self.head;
        let ghost mut step: int = 0;
        while current.is_some()
            invariant
                self.wf(),
                order0 == self.order@,
                0 <= step <= order0.len(),
                current == if step < order0.len() {
                    Some(order0[step])
                } else {
                    None::<usize>
                },
                items@.len() == step,
                forall|i: int| 0 <= i < step ==> cloned::<T>(self@[i], #[trigger] items@[i]),
            decreases order0.len() - step,
        {
            match current {
                Some(node_idx) => {
                    proof {
                        assert(node_idx == order0[step]);
                        assert(self.next@[order0[step] as int] == if step + 1 < order0.len() {
                            Some(order0[step + 1])
                        } else {
                            None::<usize>
                        });
                        assert(self@[step] == self.data@[order0[step] as int]);
                    }
                    let element = self.data[node_idx].clone();
                    items.push(element);
                    current = self.next[node_idx];
                    proof {
                        step = step + 1;
                    }
                }
                None => {
                }
            }
        }
        Iter { items }
    }
}

/// Iterator over a linked list: the not-yet-delivered elements, front
/// first.
pub struct Iter<T> {
    items: Vec<T>,
}

impl<T> Iter<T> {
    /// The elements not yet handed out, in order.
    pub closed spec fn remaining(self) -> Seq<T> {
        self.items@
    }

    /// Hands out the next element, front to back; absence once the walk is
    /// exhausted.
    pub fn next(&mut self) -> (result: Option<T>)
        ensures
            old(self).remaining().len() == 0 ==> result is None && final(self).remaining()
                == old(self).remaining(),
            old(self).remaining().len() > 0 ==> result == Some(old(self).remaining()[0])
                && final(self).remaining() == old(self).remaining().skip(1),
    {
        if self.items.len() == 0 {
            None
        } else {
            let element = self.items.remove(0);
            proof {
                assert(old(self).remaining().remove(0) =~= old(self).remaining().skip(1));
            }
            Some(element)
        }
    }
}

} // verus!
