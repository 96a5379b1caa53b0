//! A focus-tracking ordered sequence.
use vstd::prelude::*;
use std::collections::VecDeque;

verus! {

/// An ordered sequence with a focus cursor.
///
/// The cursor is an index into the sequence. A well-formed ring keeps it below
/// the length, and at zero while the ring is empty. Every operation keeps a
/// well-formed ring well-formed.
#[derive(Debug)]
pub struct Ring<T> {
    elements: VecDeque<T>,
    focused: usize,
}

/// The cursor of a ring after the element at `idx` has left it: the cursor
/// stays with the focused element when an earlier one leaves, moves to the
/// element before when the focused one leaves, never past the start, and does
/// not move when a later one leaves.
pub open spec fn focus_after_removal(focused: nat, idx: nat) -> nat {
    if idx <= focused && focused > 0 {
        (focused - 1) as nat
    } else {
        focused
    }
}

/// `VecDeque::get_mut` of the standard library: a mutable borrow of the
/// element at `index`, counted from the front, or none where `index` is no
/// index of an element. The deque changes at that index only, and only
/// through the borrow.
#[verifier::external_body]
fn deque_get_mut<T>(elements: &mut VecDeque<T>, index: usize) -> (r: Option<&mut T>)
    ensures
        index >= old(elements)@.len() ==> r.is_none() && final(elements)@ == old(elements)@,
        index < old(elements)@.len() ==> match r {
            Some(e) => {
                &&& *e == old(elements)@[index as int]
                &&& final(elements)@ == old(elements)@.update(index as int, *final(e))
            },
            None => false,
        },
{
    elements.get_mut(index)
}

impl<T> View for Ring<T> {
    type V = Seq<T>;

    closed spec fn view(&self) -> Seq<T> {
        self.elements@
    }
}

impl<T> Ring<T> {
    /// The raw cursor: the focused index, or zero for an empty ring.
    pub closed spec fn spec_focused_idx(&self) -> usize {
        self.focused
    }

    /// The number of elements.
    pub open spec fn spec_len(&self) -> usize {
        self@.len() as usize
    }

    /// The focus invariant.
    pub open spec fn wf(&self) -> bool {
        if self@.len() == 0 {
            self.spec_focused_idx() == 0
        } else {
            self.spec_focused_idx() < self@.len()
        }
    }

    /// The focused index: none for an empty ring, else the cursor.
    pub open spec fn spec_focused_index(&self) -> Option<usize> {
        if self@.len() == 0 {
            None
        } else {
            Some(self.spec_focused_idx())
        }
    }

    /// An empty ring.
    pub fn new() -> (r: Self)
        ensures
            r@ == Seq::<T>::empty(),
            r.spec_focused_idx() == 0,
            r.wf(),
    {
        Ring { elements: VecDeque::new(), focused: 0 }
    }

    /// A ring of the given elements with its cursor at `focused`, or at
    /// the start where `focused` is no index of an element.
    pub fn from_parts(elements: VecDeque<T>, focused: usize) -> (r: Self)
        ensures
            r@ == elements@,
            r.spec_focused_idx() == if focused < elements@.len() {
                focused
            } else {
                0
            },
            r.wf(),
    {
        let focused = if focused < elements.len() {
            focused
        } else {
            0
        };
        Ring { elements, focused }
    }

    /// Whether the ring keeps the focus invariant.
    pub fn is_well_formed(&self) -> (b: bool)
        ensures
            b == self.wf(),
    {
        if self.elements.len() == 0 {
            self.focused == 0
        } else {
            self.focused < self.elements.len()
        }
    }

    /// The number of elements.
    #[verifier::when_used_as_spec(spec_len)]
    pub fn len(&self) -> (n: usize)
        ensures
            n == self@.len(),
    {
        self.elements.len()
    }

    /// Whether the ring has no elements.
    pub fn is_empty(&self) -> (b: bool)
        ensures
            b == (self@.len() == 0),
    {
        self.elements.len() == 0
    }

    /// The elements in order.
    pub fn elements(&self) -> (v: &VecDeque<T>)
        ensures
            v@ == self@,
    {
        &self.elements
    }

    /// The element at `idx`, if there is one.
    pub fn get(&self, idx: usize) -> (r: Option<&T>)
        ensures
            idx < self@.len() ==> r == Some(&self@[idx as int]),
            idx >= self@.len() ==> r.is_none(),
    {
        if idx < self.elements.len() {
            Some(&self.elements[idx])
        } else {
            None
        }
    }

    /// A mutable borrow of the element at `idx`. The ring changes at that
    /// index only, and its cursor stays.
    pub fn get_mut(&mut self, idx: usize) -> (r: Option<&mut T>)
        ensures
            idx >= old(self)@.len() ==> r.is_none() && *final(self) == *old(self),
            idx < old(self)@.len() ==> match r {
                Some(e) => {
                    &&& *e == old(self)@[idx as int]
                    &&& final(self)@ == old(self)@.update(idx as int, *final(e))
                    &&& final(self).spec_focused_idx() == old(self).spec_focused_idx()
                },
                None => false,
            },
    {
        if idx < self.elements.len() {
            deque_get_mut(&mut self.elements, idx)
        } else {
            None
        }
    }

    /// A mutable borrow of the element at `idx`, which must exist.
    pub fn index_mut(&mut self, idx: usize) -> (e: &mut T)
        requires
            idx < old(self)@.len(),
        ensures
            *e == old(self)@[idx as int],
            final(self)@ == old(self)@.update(idx as int, *final(e)),
            final(self).spec_focused_idx() == old(self).spec_focused_idx(),
    {
        deque_get_mut(&mut self.elements, idx).unwrap()
    }

    /// The raw cursor: the focused index, or zero for an empty ring.
    #[verifier::when_used_as_spec(spec_focused_idx)]
    pub fn focused_idx(&self) -> (idx: usize)
        ensures
            idx == self.spec_focused_idx(),
    {
        self.focused
    }

    /// The focused index: none for an empty ring, else the cursor, which
    /// lies below the length.
    #[verifier::when_used_as_spec(spec_focused_index)]
    pub fn focused_index(&self) -> (r: Option<usize>)
        requires
            self.wf(),
        ensures
            r == self.spec_focused_index(),
            r.is_none() <==> self@.len() == 0,
            r matches Some(idx) ==> idx < self@.len(),
    {
        if self.elements.len() == 0 {
            None
        } else {
            Some(self.focused)
        }
    }

    /// The focused element, if the cursor points at one.
    pub fn focused(&self) -> (r: Option<&T>)
        ensures
            self.spec_focused_idx() < self@.len() ==> r == Some(
                &self@[self.spec_focused_idx() as int],
            ),
            self.spec_focused_idx() >= self@.len() ==> r.is_none(),
    {
        self.get(self.focused)
    }

    /// A mutable borrow of the focused element, if the cursor points at one.
    pub fn focused_mut(&mut self) -> (r: Option<&mut T>)
        ensures
            old(self).spec_focused_idx() >= old(self)@.len() ==> r.is_none() && *final(self)
                == *old(self),
            old(self).spec_focused_idx() < old(self)@.len() ==> match r {
                Some(e) => {
                    &&& *e == old(self)@[old(self).spec_focused_idx() as int]
                    &&& final(self)@ == old(self)@.update(
                        old(self).spec_focused_idx() as int,
                        *final(e),
                    )
                    &&& final(self).spec_focused_idx() == old(self).spec_focused_idx()
                },
                None => false,
            },
    {
        let idx = self.focused;
        self.get_mut(idx)
    }

    /// Moves the cursor to `idx`. An index at or past the length is ignored.
    pub fn focus(&mut self, idx: usize)
        ensures
            final(self)@ == old(self)@,
            final(self).spec_focused_idx() == if idx < old(self)@.len() {
                idx
            } else {
                old(self).spec_focused_idx()
            },
            old(self).wf() ==> final(self).wf(),
    {
        if idx < self.elements.len() {
            self.focused = idx;
        }
    }

    /// Inserts `item` at `idx`, shifting later elements up. The cursor keeps
    /// its index.
    pub fn insert(&mut self, idx: usize, item: T)
        requires
            idx <= old(self)@.len(),
        ensures
            final(self)@ == old(self)@.insert(idx as int, item),
            final(self).spec_focused_idx() == old(self).spec_focused_idx(),
            old(self).wf() ==> final(self).wf(),
    {
        self.elements.insert(idx, item);
    }

    /// Appends `item`. The cursor keeps its index.
    pub fn push_back(&mut self, item: T)
        ensures
            final(self)@ == old(self)@.push(item),
            final(self).spec_focused_idx() == old(self).spec_focused_idx(),
            old(self).wf() ==> final(self).wf(),
    {
        self.elements.push_back(item);
    }

    /// Removes and returns the element at `idx`; an index at or past the
    /// length removes nothing. The cursor moves as [`focus_after_removal`]
    /// says.
    pub fn remove(&mut self, idx: usize) -> (r: Option<T>)
        ensures
            idx >= old(self)@.len() ==> r.is_none() && *final(self) == *old(self),
            idx < old(self)@.len() ==> {
                &&& r == Some(old(self)@[idx as int])
                &&& final(self)@ == old(self)@.remove(idx as int)
                &&& final(self).spec_focused_idx() == focus_after_removal(
                    old(self).spec_focused_idx() as nat,
                    idx as nat,
                )
            },
            old(self).wf() ==> final(self).wf(),
    {
        if idx < self.elements.len() {
            let item = self.elements.remove(idx);
            if idx <= self.focused && self.focused > 0 {
                self.focused = self.focused - 1;
            }
            item
        } else {
            None
        }
    }

    /// Exchanges the elements at `i` and `j`. The cursor keeps its index.
    pub fn swap(&mut self, i: usize, j: usize)
        requires
            i < old(self)@.len(),
            j < old(self)@.len(),
        ensures
            final(self)@ == old(self)@.update(i as int, old(self)@[j as int]).update(
                j as int,
                old(self)@[i as int],
            ),
            final(self).spec_focused_idx() == old(self).spec_focused_idx(),
            old(self).wf() ==> final(self).wf(),
    {
        if i != j {
            let lo = if i < j { i } else { j };
            let hi = if i < j { j } else { i };
            let upper = self.elements.remove(hi).unwrap();
            let lower = self.elements.remove(lo).unwrap();
            self.elements.insert(lo, upper);
            self.elements.insert(hi, lower);
            assert(self.elements@ =~= old(self).elements@.update(
                i as int,
                old(self).elements@[j as int],
            ).update(j as int, old(self).elements@[i as int]));
        } else {
            assert(self.elements@ =~= old(self).elements@.update(
                i as int,
                old(self).elements@[j as int],
            ).update(j as int, old(self).elements@[i as int]));
        }
    }

    /// Grows the ring to `new_len` elements by appending clones of `fill`. A
    /// ring that already has `new_len` elements or more is left as it is.
    /// The cursor keeps its index.
    pub fn resize(&mut self, new_len: usize, fill: T) where T: Clone
        ensures
            final(self)@.len() == if new_len > old(self)@.len() {
                new_len as nat
            } else {
                old(self)@.len()
            },
            final(self)@.subrange(0, old(self)@.len() as int) == old(self)@,
            forall|i: int|
                old(self)@.len() <= i < final(self)@.len() ==> cloned::<T>(
                    fill,
                    #[trigger] final(self)@[i],
                ),
            final(self).spec_focused_idx() == old(self).spec_focused_idx(),
            old(self).wf() ==> final(self).wf(),
    {
        if new_len > self.elements.len() {
            self.elements.resize(new_len, fill);
        } else {
            assert(self.elements@.subrange(0, self.elements@.len() as int) =~= self.elements@);
        }
    }
}

/// The focus invariant in terms of the focused index: a well-formed ring has
/// no focused index exactly when it is empty, and else one below its
/// length.
pub proof fn lemma_focus_invariant<T>(ring: Ring<T>)
    requires
        ring.wf(),
    ensures
        ring.spec_focused_index().is_none() <==> ring@.len() == 0,
        ring.spec_focused_index() matches Some(idx) ==> idx < ring@.len(),
{
}

impl<T> Default for Ring<T> {
    fn default() -> (r: Self)
        ensures
            r@ == Seq::<T>::empty(),
            r.spec_focused_idx() == 0,
            r.wf(),
    {
        Ring::new()
    }
}

impl<T: Clone> Clone for Ring<T> {
    fn clone(&self) -> (r: Self)
        ensures
            r@.len() == self@.len(),
            forall|i: int| 0 <= i < self@.len() ==> cloned::<T>(self@[i], #[trigger] r@[i]),
            r.spec_focused_idx() == self.spec_focused_idx(),
    {
        Ring { elements: self.elements.clone(), focused: self.focused }
    }
}

} // verus!
