//! The layout strategy as far as the arrangement logic reads it.
use vstd::prelude::*;

verus! {

/// The built-in arrangements.
#[derive(Clone, Copy, Debug, PartialEq, Eq, Structural)]
pub enum DefaultLayout {
    BSP,
    Columns,
    Rows,
    VerticalStack,
    HorizontalStack,
    UltrawideVerticalStack,
}

/// A user-supplied grid description, reduced to what the arrangement logic
/// reads of it: the first tiling slot of its primary column, if it has a
/// primary column.
#[derive(Clone, Copy, Debug, PartialEq, Eq, Structural)]
pub struct CustomLayout {
    pub primary_slot: Option<usize>,
}

/// The active arrangement strategy.
#[derive(Clone, Copy, Debug, PartialEq, Eq, Structural)]
pub enum Layout {
    Default(DefaultLayout),
    Custom(CustomLayout),
}

/// An axis along which a layout can be mirrored.
#[derive(Clone, Copy, Debug, PartialEq, Eq, Structural)]
pub enum Axis {
    Horizontal,
    Vertical,
    HorizontalAndVertical,
}

/// A direction in which to step through a ring.
#[derive(Clone, Copy, Debug, PartialEq, Eq, Structural)]
pub enum CycleDirection {
    Previous,
    Next,
}

/// A direction on screen in which to move the focus or a container.
#[derive(Clone, Copy, Debug, PartialEq, Eq, Structural)]
pub enum OperationDirection {
    Left,
    Right,
    Up,
    Down,
}

impl Layout {
    /// The tiling slot that holds the primary container: slot zero for every
    /// built-in layout, and for a custom layout the first slot of its primary
    /// column.
    pub open spec fn spec_primary_slot_index(&self) -> Option<usize> {
        match self {
            Layout::Default(_) => Some(0usize),
            Layout::Custom(custom) => custom.primary_slot,
        }
    }

    /// The tiling slot that holds the primary container.
    #[verifier::when_used_as_spec(spec_primary_slot_index)]
    pub fn primary_slot_index(&self) -> (r: Option<usize>)
        ensures
            r == self.spec_primary_slot_index(),
    {
        match self {
            Layout::Default(_) => Some(0),
            Layout::Custom(custom) => custom.primary_slot,
        }
    }
}

impl CycleDirection {
    /// The index one step from `idx` in a ring of `len` elements, wrapping
    /// round at either end.
    pub open spec fn step_from(self, idx: nat, len: nat) -> nat {
        match self {
            CycleDirection::Previous => ((idx + len - 1) % (len as int)) as nat,
            CycleDirection::Next => ((idx + 1) as int % (len as int)) as nat,
        }
    }

    /// The index one step from `idx` in a ring of `len` elements, wrapping
    /// round at either end.
    pub fn next_idx(&self, idx: usize, len: usize) -> (r: usize)
        requires
            len > 0,
        ensures
            r == self.step_from(idx as nat, len as nat),
            r < len,
    {
        let at = idx % len;
        proof {
            let q = idx as int / len as int;
            vstd::arithmetic::div_mod::lemma_fundamental_div_mod(idx as int, len as int);
            vstd::arithmetic::div_mod::lemma_mod_multiples_vanish(q, at + 1, len as int);
            vstd::arithmetic::div_mod::lemma_mod_multiples_vanish(q, at + len - 1, len as int);
            assert(idx + 1 == len * q + (at + 1));
            assert(idx + len - 1 == len * q + (at + len - 1));
            if at == 0 {
                vstd::arithmetic::div_mod::lemma_small_mod((len - 1) as nat, len as nat);
            } else {
                vstd::arithmetic::div_mod::lemma_mod_add_multiples_vanish(at - 1, len as int);
                vstd::arithmetic::div_mod::lemma_small_mod((at - 1) as nat, len as nat);
            }
            if at == len - 1 {
                vstd::arithmetic::div_mod::lemma_mod_self_0(len as int);
            } else {
                vstd::arithmetic::div_mod::lemma_small_mod((at + 1) as nat, len as nat);
            }
        }
        match self {
            CycleDirection::Previous => {
                if at == 0 {
                    len - 1
                } else {
                    at - 1
                }
            },
            CycleDirection::Next => {
                if at == len - 1 {
                    0
                } else {
                    at + 1
                }
            },
        }
    }
}

} // verus!
