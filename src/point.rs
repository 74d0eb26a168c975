//! Assembles one point of `DIM` readings that arrive one dimension at a time.

use vstd::prelude::*;

verus! {

/// A point under construction: each dimension set or not yet.
#[derive(Clone, Debug)]
pub struct PointBuilder<T, const DIM: usize> {
    values: Vec<Option<T>>,
}

impl<T: Copy, const DIM: usize> PointBuilder<T, DIM> {
    pub closed spec fn view(&self) -> Seq<Option<T>> {
        self.values@
    }

    pub closed spec fn wf(&self) -> bool {
        self.values@.len() == DIM
    }

    /// A point with no dimension set.
    pub fn new() -> (r: Self)
        ensures
            r.wf(),
            r.view() == Seq::new(DIM as nat, |i: int| None::<T>),
    {
        let mut values: Vec<Option<T>> = Vec::new();
        let mut i: usize = 0;
        while i < DIM
            invariant
                0 <= i <= DIM,
                values@ == Seq::new(i as nat, |k: int| None::<T>),
            decreases DIM - i,
        {
            values.push(None);
            i += 1;
            assert(values@ =~= Seq::new(i as nat, |k: int| None::<T>));
        }
        PointBuilder { values }
    }

    /// Whether every dimension is set.
    pub fn is_ready(&self) -> (r: bool)
        requires
            self.wf(),
        ensures
            r == forall|i: int| 0 <= i < DIM ==> (#[trigger] self.view()[i]) is Some,
    {
        let mut i: usize = 0;
        while i < self.values.len()
            invariant
                0 <= i <= DIM,
                self.values@.len() == DIM,
                forall|j: int| 0 <= j < i ==> (#[trigger] self.values@[j]) is Some,
            decreases DIM - i,
        {
            if self.values[i].is_none() {
                return false;
            }
            i += 1;
        }
        true
    }

    /// Unsets every dimension.
    pub fn reset(&mut self)
        ensures
            final(self).wf(),
            final(self).view() == Seq::new(DIM as nat, |i: int| None::<T>),
    {
        *self = Self::new();
    }

    /// Sets one dimension.
    pub fn set(&mut self, dim: usize, val: T)
        requires
            old(self).wf(),
            dim < DIM,
        ensures
            final(self).wf(),
            final(self).view() == old(self).view().update(dim as int, Some(val)),
    {
        self.values.set(dim, Some(val));
    }

    /// The finished point, once every dimension is set.
    pub fn export(&self) -> (r: Option<Vec<T>>)
        requires
            self.wf(),
        ensures
            match r {
                Some(v) => (forall|i: int| 0 <= i < DIM ==> (#[trigger] self.view()[i]) is Some) && v@.len() == DIM
                    && forall|i: int| 0 <= i < DIM ==> Some(#[trigger] v@[i]) == self.view()[i],
                None => !(forall|i: int| 0 <= i < DIM ==> (#[trigger] self.view()[i]) is Some),
            },
    {
        if !self.is_ready() {
            return None;
        }
        let mut out: Vec<T> = Vec::new();
        let mut i: usize = 0;
        while i < self.values.len()
            invariant
                0 <= i <= DIM,
                self.values@.len() == DIM,
                forall|j: int| 0 <= j < DIM ==> (#[trigger] self.values@[j]) is Some,
                out@.len() == i,
                forall|j: int| 0 <= j < i ==> Some(#[trigger] out@[j]) == self.values@[j],
            decreases DIM - i,
        {
            match self.values[i] {
                Some(x) => out.push(x),
                None => {},
            }
            i += 1;
        }
        Some(out)
    }
}

} // verus!
