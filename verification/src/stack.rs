//! The shared register stack: one flat growable sequence of values,
//! segmented into per-call windows by frame base markers. Instructions
//! address slots relative to the current window's base.
use vstd::prelude::*;
use crate::types::{Type, Value};

verus! {

/// An absolute stack position remembered together with the window base it
/// was formed under, so it stays meaningful after the window changes.
#[derive(Debug, Clone, Copy, PartialEq, Eq, Structural)]
pub struct StackLevel {
    pub base: usize,
    pub index: usize,
}

impl StackLevel {
    /// The absolute slot this level names.
    pub open spec fn spec_abs(self) -> int {
        self.base + self.index
    }

    pub fn abs(&self) -> (r: usize)
        requires
            self.base + self.index <= usize::MAX,
        ensures
            r == self.spec_abs(),
    {
        self.base + self.index
    }
}

/// The register stack. `frames` records the base of every window opened by a
/// call barrier, in the order the windows were opened; the live window starts
/// at the last base (or 0 with no barrier).
#[derive(Debug)]
pub struct Stack {
    pub entries: Vec<Type>,
    pub frames: Vec<usize>,
}

/// Views of a sequence of values.
pub open spec fn views(s: Seq<Type>) -> Seq<Value> {
    s.map_values(|t: Type| t@)
}

impl Stack {
    /// The mathematical content of the stack.
    pub open spec fn view_seq(self) -> Seq<Value> {
        views(self.entries@)
    }

    /// Base of the live window.
    pub open spec fn spec_base(self) -> int {
        if self.frames@.len() > 0 {
            self.frames@.last() as int
        } else {
            0
        }
    }

    /// Bases never exceed the entry count and never decrease.
    pub open spec fn wf(self) -> bool {
        &&& forall|i: int|
            0 <= i < self.frames@.len() ==> #[trigger] self.frames@[i] <= self.entries@.len()
        &&& forall|i: int, j: int|
            0 <= i <= j < self.frames@.len() ==> #[trigger] self.frames@[i] <= #[trigger] self.frames@[j]
    }

    pub fn new() -> (r: Stack)
        ensures
            r.wf(),
            r.view_seq() == Seq::<Value>::empty(),
            r.spec_base() == 0,
            r.frames@.len() == 0,
    {
        let r = Stack { entries: Vec::new(), frames: Vec::new() };
        proof {
            assert(r.view_seq() =~= Seq::<Value>::empty());
        }
        r
    }

    pub fn len(&self) -> (r: usize)
        ensures
            r == self.view_seq().len(),
    {
        self.entries.len()
    }

    pub fn base(&self) -> (r: usize)
        ensures
            r == self.spec_base(),
    {
        if self.frames.len() > 0 {
            self.frames[self.frames.len() - 1]
        } else {
            0
        }
    }

    /// Index of the top slot of the live window, or `None` while the window
    /// is empty.
    pub fn top(&self) -> (r: Option<usize>)
        requires
            self.wf(),
        ensures
            match r {
                Some(t) => self.view_seq().len() > self.spec_base() && t == self.view_seq().len()
                    - 1 - self.spec_base(),
                None => self.view_seq().len() == self.spec_base(),
            },
    {
        let b = self.base();
        if self.entries.len() > b {
            Some(self.entries.len() - 1 - b)
        } else {
            None
        }
    }

    /// Reads the slot a remembered level names; `None` outside the stack.
    pub fn get(&self, index: StackLevel) -> (r: Option<Type>)
        ensures
            match r {
                Some(v) => index.spec_abs() < self.view_seq().len() && v@ == self.view_seq()[
                    index.spec_abs()
                ],
                None => index.spec_abs() >= self.view_seq().len(),
            },
    {
        if index.index < self.entries.len() && index.base <= self.entries.len() - 1 - index.index {
            let abs = index.base + index.index;
            Some(self.entries[abs].clone())
        } else {
            None
        }
    }

    /// Reads slot `index` of the live window; `None` outside the stack.
    pub fn get_rel(&self, index: usize) -> (r: Option<Type>)
        requires
            self.wf(),
        ensures
            match r {
                Some(v) => self.spec_base() + index < self.view_seq().len() && v@
                    == self.view_seq()[self.spec_base() + index],
                None => self.spec_base() + index >= self.view_seq().len(),
            },
    {
        let b = self.base();
        if index < self.entries.len() && b <= self.entries.len() - 1 - index {
            let abs = b + index;
            Some(self.entries[abs].clone())
        } else {
            None
        }
    }

    /// Writes slot `index` of the live window, growing the stack by one slot
    /// when writing just past its end, as register files grow on first use.
    /// Fails on a write further out.
    pub fn set(&mut self, index: usize, v: Type) -> (r: Result<(), crate::error::RuntimeError>)
        requires
            old(self).wf(),
        ensures
            final(self).wf(),
            final(self).frames@ == old(self).frames@,
            final(self).spec_base() == old(self).spec_base(),
            match r {
                Ok(()) => {
                    let abs = old(self).spec_base() + index;
                    if abs < old(self).view_seq().len() {
                        final(self).view_seq() == old(self).view_seq().update(abs, v@)
                    } else {
                        abs == old(self).view_seq().len() && final(self).view_seq() == old(
                            self,
                        ).view_seq().push(v@)
                    }
                },
                Err(e) => e == crate::error::RuntimeError::RegisterOutOfRange && *final(self)
                    == *old(self) && old(self).spec_base() + index > old(self).view_seq().len(),
            },
    {
        let b = self.base();
        if index < self.entries.len() && b <= self.entries.len() - 1 - index {
            let abs = b + index;
            self.entries.set(abs, v);
            proof {
                assert(self.view_seq() =~= old(self).view_seq().update(
                    old(self).spec_base() + index,
                    v@,
                ));
            }
            Ok(())
        } else if b <= self.entries.len() && index == self.entries.len() - b {
            self.entries.push(v);
            proof {
                assert(self.view_seq() =~= old(self).view_seq().push(v@));
            }
            Ok(())
        } else {
            Err(crate::error::RuntimeError::RegisterOutOfRange)
        }
    }

    /// Remembers the position of live-window slot `index` as an absolute
    /// level.
    pub fn get_level(&self, index: usize) -> (r: StackLevel)
        ensures
            r.base == self.spec_base(),
            r.index == index,
    {
        StackLevel { base: self.base(), index }
    }

    /// Opens a new window at the current top.
    pub fn insert_barrier(&mut self)
        requires
            old(self).wf(),
        ensures
            final(self).wf(),
            final(self).view_seq() == old(self).view_seq(),
            final(self).spec_base() == old(self).view_seq().len(),
            final(self).frames@ == old(self).frames@.push(old(self).entries@.len() as usize),
    {
        let n = self.entries.len();
        self.frames.push(n);
    }

    /// Closes the live window: discards its slots and returns to the window
    /// below. With no barrier left, the whole stack is discarded.
    pub fn pop_barrier(&mut self)
        requires
            old(self).wf(),
        ensures
            final(self).wf(),
            if old(self).frames@.len() > 0 {
                final(self).view_seq() == old(self).view_seq().take(old(self).spec_base())
                    && final(self).frames@ == old(self).frames@.drop_last()
            } else {
                final(self).view_seq() == Seq::<Value>::empty() && final(self).frames@ == old(
                    self,
                ).frames@
            },
    {
        if self.frames.len() > 0 {
            let b = self.frames[self.frames.len() - 1];
            let ghost oldframes = self.frames@;
            self.frames.pop();
            proof {
                assert(self.frames@ =~= oldframes.drop_last());
            }
            self.entries.truncate(b);
            proof {
                assert(self.view_seq() =~= views(old(self).entries@).take(old(self).spec_base()));
            }
        } else {
            self.entries.clear();
            proof {
                assert(self.view_seq() =~= Seq::<Value>::empty());
            }
        }
    }
}

} // verus!
