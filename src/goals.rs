//! Which dimensions of a reading an agent tries to maximize or minimize.

use vstd::prelude::*;

verus! {

/// The direction a dimension is pushed in.
#[derive(Clone, Copy, Debug, PartialEq, Eq, Structural)]
pub enum Goal {
    Maximize,
    Minimize,
}

/// Why a goal update was refused.
#[derive(Clone, Copy, Debug, PartialEq, Eq, Structural)]
pub enum GoalError {
    /// The index names no dimension of the table
    OutOfRange(usize),
}

/// The goal a `(index, maximize)` pair asks for.
pub open spec fn goal_of(maximize: bool) -> Goal {
    if maximize {
        Goal::Maximize
    } else {
        Goal::Minimize
    }
}

/// The table after applying the updates in order; a later update of an index wins.
pub open spec fn apply_updates(table: Seq<Option<Goal>>, updates: Seq<(usize, bool)>) -> Seq<Option<Goal>>
    decreases updates.len(),
{
    if updates.len() == 0 {
        table
    } else {
        let last = updates.last();
        apply_updates(table, updates.drop_last()).update(last.0 as int, Some(goal_of(last.1)))
    }
}

/// The first update whose index is not below `dims`, if any.
pub open spec fn first_out_of_range(updates: Seq<(usize, bool)>, dims: nat) -> Option<usize> {
    if exists|i: int| 0 <= i < updates.len() && updates[i].0 >= dims {
        let i = choose|i: int|
            0 <= i < updates.len() && updates[i].0 >= dims && forall|j: int|
                0 <= j < i ==> updates[j].0 < dims;
        Some(updates[i].0)
    } else {
        None
    }
}

/// A goal per dimension of a reading: absent, maximize or minimize.
#[derive(Clone, Debug)]
pub struct PositionContextualReward {
    goals: Vec<Option<Goal>>,
}

impl PositionContextualReward {
    /// The goal of each dimension.
    pub closed spec fn view(&self) -> Seq<Option<Goal>> {
        self.goals@
    }

    /// A table of `dims` dimensions with no goal set.
    pub fn new(dims: usize) -> (r: Self)
        ensures
            r.view() == Seq::new(dims as nat, |i: int| None::<Goal>),
    {
        let mut goals: Vec<Option<Goal>> = Vec::new();
        let mut i: usize = 0;
        while i < dims
            invariant
                0 <= i <= dims,
                goals@ == Seq::new(i as nat, |k: int| None::<Goal>),
            decreases dims - i,
        {
            goals.push(None);
            i += 1;
            assert(goals@ =~= Seq::new(i as nat, |k: int| None::<Goal>));
        }
        PositionContextualReward { goals }
    }

    /// How many dimensions the table has.
    pub fn dims(&self) -> (r: usize)
        ensures
            r == self.view().len(),
    {
        self.goals.len()
    }

    /// The goal of one dimension.
    pub fn goal_at(&self, dim: usize) -> (r: Option<Goal>)
        requires
            dim < self.view().len(),
        ensures
            r == self.view()[dim as int],
    {
        self.goals[dim]
    }

    /// Every dimension's goal.
    pub fn goals(&self) -> (r: &[Option<Goal>])
        ensures
            r@ == self.view(),
    {
        self.goals.as_slice()
    }

    /// A copy of the table.
    pub fn clone_table(&self) -> (r: Self)
        ensures
            r.view() == self.view(),
    {
        let mut goals: Vec<Option<Goal>> = Vec::new();
        let mut i: usize = 0;
        while i < self.goals.len()
            invariant
                0 <= i <= self.goals@.len(),
                goals@ == self.goals@.subrange(0, i as int),
            decreases self.goals@.len() - i,
        {
            goals.push(self.goals[i]);
            i += 1;
            assert(goals@ =~= self.goals@.subrange(0, i as int));
        }
        assert(goals@ =~= self.goals@);
        PositionContextualReward { goals }
    }

    /// Sets the goals of `(index, maximize)` pairs, in order. When an index is out of
    /// range the whole update is refused, naming the first such index, and the table
    /// is unchanged.
    pub fn update(&mut self, goals: Vec<(usize, bool)>) -> (r: Result<(), GoalError>)
        ensures
            final(self).view().len() == old(self).view().len(),
            match first_out_of_range(goals@, old(self).view().len()) {
                Some(idx) => r == Err::<(), GoalError>(GoalError::OutOfRange(idx)) && final(self).view()
                    == old(self).view(),
                None => r is Ok && final(self).view() == apply_updates(old(self).view(), goals@),
            },
    {
        let dims = self.goals.len();
        let mut i: usize = 0;
        while i < goals.len()
            invariant
                0 <= i <= goals@.len(),
                dims == self.goals@.len(),
                forall|j: int| 0 <= j < i ==> goals@[j].0 < dims,
            decreases goals@.len() - i,
        {
            let (idx, _) = goals[i];
            if idx >= dims {
                proof {
                    assert(goals@[i as int].0 >= dims);
                    let c = choose|c: int|
                        0 <= c < goals@.len() && goals@[c].0 >= dims && forall|j: int|
                            0 <= j < c ==> goals@[j].0 < dims;
                    if c < i {
                    } else if c > i {
                        assert(goals@[i as int].0 < dims);
                    }
                }
                return Err(GoalError::OutOfRange(idx));
            }
            i += 1;
        }
        let ghost start = self.goals@;
        let mut k: usize = 0;
        while k < goals.len()
            invariant
                0 <= k <= goals@.len(),
                forall|j: int| 0 <= j < goals@.len() ==> goals@[j].0 < dims,
                self.goals@.len() == dims,
                start.len() == dims,
                self.goals@ == apply_updates(start, goals@.subrange(0, k as int)),
            decreases goals@.len() - k,
        {
            let (idx, maximize) = goals[k];
            let goal = if maximize { Goal::Maximize } else { Goal::Minimize };
            proof {
                let pre = goals@.subrange(0, k as int + 1);
                assert(pre.drop_last() =~= goals@.subrange(0, k as int));
                assert(pre.last() == goals@[k as int]);
            }
            self.goals.set(idx, Some(goal));
            k += 1;
        }
        assert(goals@.subrange(0, goals@.len() as int) =~= goals@);
        Ok(())
    }
}

} // verus!
