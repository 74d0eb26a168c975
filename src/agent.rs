//! The agent's own session: it collects telemetry while untrained, then, once it has
//! received instructions, plans their execution on its body. The stage is a runtime
//! tag, and an operation of the other stage is refused.

use crate::body::{Body, Step, step_for};
use crate::buffer::DataBuffer;
use crate::goals::{Goal, PositionContextualReward};
use crate::instruction::Instruction;
use vstd::prelude::*;

verus! {

/// The stage of an agent's session.
#[derive(Clone, Copy, Debug, PartialEq, Eq, Structural)]
pub enum Stage {
    /// Collecting telemetry; no instructions yet
    Untrained,
    /// Instructions received, to be tried in the field
    InReview,
}

/// Why an agent operation was refused.
#[derive(Clone, Copy, Debug, PartialEq, Eq, Structural)]
pub enum AgentError {
    /// The operation belongs to the other stage
    WrongStage,
    /// The telemetry does not fit the remaining capacity
    BufferOverflow,
}

/// An agent's session: its goal, its body, its telemetry and, once trained, its instructions.
pub struct AgentSession<T, const BUFFER_SIZE: usize> {
    goal: PositionContextualReward,
    body: Body,
    buffer: DataBuffer<T, BUFFER_SIZE>,
    directions: Vec<Instruction>,
    stage: Stage,
}

impl<T: Copy, const BUFFER_SIZE: usize> AgentSession<T, BUFFER_SIZE> {
    pub closed spec fn wf(&self) -> bool {
        &&& self.buffer.wf()
        &&& self.stage == Stage::Untrained ==> self.directions@.len() == 0
    }

    pub closed spec fn stage(&self) -> Stage {
        self.stage
    }

    pub closed spec fn goal(&self) -> Seq<Option<Goal>> {
        self.goal.view()
    }

    pub closed spec fn body(&self) -> Body {
        self.body
    }

    pub closed spec fn data(&self) -> Seq<T> {
        self.buffer.view()
    }

    pub closed spec fn directions(&self) -> Seq<Instruction> {
        self.directions@
    }

    /// A builder for a session.
    pub fn builder() -> (r: Builder)
        ensures
            r.goal() is None,
            r.body() is None,
    {
        Builder::new()
    }

    pub fn get_stage(&self) -> (r: Stage)
        ensures
            r == self.stage(),
    {
        self.stage
    }

    /// The goal table.
    pub fn get_goal(&self) -> (r: &PositionContextualReward)
        ensures
            r.view() == self.goal(),
    {
        &self.goal
    }

    /// The agent's hardware.
    pub fn get_body(&self) -> (r: &Body)
        ensures
            *r == self.body(),
    {
        &self.body
    }

    /// Adds telemetry while untrained; refused whole when it does not fit or when the
    /// session is in review.
    pub fn add_data(&mut self, buf: &[T]) -> (r: Result<(), AgentError>)
        requires
            old(self).wf(),
        ensures
            final(self).wf(),
            final(self).stage() == old(self).stage(),
            final(self).goal() == old(self).goal(),
            final(self).body() == old(self).body(),
            final(self).directions() == old(self).directions(),
            old(self).stage() == Stage::InReview ==> r == Err::<(), AgentError>(AgentError::WrongStage)
                && final(self).data() == old(self).data(),
            old(self).stage() == Stage::Untrained && old(self).data().len() + buf@.len() > BUFFER_SIZE
                ==> r == Err::<(), AgentError>(AgentError::BufferOverflow) && final(self).data() == old(self).data(),
            old(self).stage() == Stage::Untrained && old(self).data().len() + buf@.len() <= BUFFER_SIZE
                ==> r is Ok && final(self).data() == old(self).data() + buf@,
    {
        if self.stage != Stage::Untrained {
            return Err(AgentError::WrongStage);
        }
        match self.buffer.add_data(buf) {
            Some(()) => Ok(()),
            None => Err(AgentError::BufferOverflow),
        }
    }

    /// The telemetry collected so far.
    pub fn export(&self) -> (r: Vec<T>)
        requires
            self.wf(),
        ensures
            r@ == self.data(),
    {
        self.buffer.export()
    }

    /// Takes in the instructions training produced: the session moves to review.
    pub fn receive_instructions(&mut self, instructions: Vec<Instruction>) -> (r: Result<(), AgentError>)
        requires
            old(self).wf(),
        ensures
            final(self).wf(),
            final(self).goal() == old(self).goal(),
            final(self).body() == old(self).body(),
            final(self).data() == old(self).data(),
            old(self).stage() == Stage::InReview ==> r == Err::<(), AgentError>(AgentError::WrongStage)
                && final(self).stage() == old(self).stage() && final(self).directions() == old(self).directions(),
            old(self).stage() == Stage::Untrained ==> r is Ok && final(self).stage() == Stage::InReview
                && final(self).directions() == instructions@,
    {
        if self.stage != Stage::Untrained {
            return Err(AgentError::WrongStage);
        }
        self.directions = instructions;
        self.stage = Stage::InReview;
        Ok(())
    }

    /// The steps that carry out the received instructions on the body, in order;
    /// refused while untrained.
    pub fn act(&self) -> (r: Result<Vec<Step>, AgentError>)
        requires
            self.wf(),
        ensures
            self.stage() == Stage::Untrained ==> r == Err::<Vec<Step>, AgentError>(AgentError::WrongStage),
            self.stage() == Stage::InReview ==> (r matches Ok(steps) && steps@.len() == self.directions().len()
                && forall|i: int| 0 <= i < steps@.len() ==> steps@[i] == step_for(self.body().nodes(), #[trigger] self.directions()[i])),
    {
        if self.stage != Stage::InReview {
            return Err(AgentError::WrongStage);
        }
        Ok(self.body.plan_execution(self.directions.as_slice()))
    }
}

/// Builds an agent's session from a goal and a body; both are needed.
pub struct Builder {
    goal: Option<PositionContextualReward>,
    body: Option<Body>,
}

impl Builder {
    pub closed spec fn goal(&self) -> Option<Seq<Option<Goal>>> {
        match self.goal {
            Some(g) => Some(g.view()),
            None => None,
        }
    }

    pub closed spec fn body(&self) -> Option<Body> {
        self.body
    }

    pub fn new() -> (r: Self)
        ensures
            r.goal() is None,
            r.body() is None,
    {
        Builder { goal: None, body: None }
    }

    /// Sets the goal.
    pub fn with_goal(self, goal: PositionContextualReward) -> (r: Self)
        ensures
            r.goal() == Some(goal.view()),
            r.body() == self.body(),
    {
        Builder { goal: Some(goal), body: self.body }
    }

    /// Sets the body.
    pub fn with_body(self, body: Body) -> (r: Self)
        ensures
            r.body() == Some(body),
            r.goal() == self.goal(),
    {
        Builder { goal: self.goal, body: Some(body) }
    }

    /// An untrained session with no telemetry; `None` unless goal and body are both set.
    pub fn build<T: Copy, const BUFFER_SIZE: usize>(self) -> (r: Option<AgentSession<T, BUFFER_SIZE>>)
        ensures
            r is Some <==> (self.goal() is Some && self.body() is Some),
            match r {
                Some(s) => s.wf() && s.stage() == Stage::Untrained && Some(s.goal()) == self.goal()
                    && Some(s.body()) == self.body() && s.data().len() == 0 && s.directions().len() == 0,
                None => true,
            },
    {
        match (self.goal, self.body) {
            (Some(goal), Some(body)) => {
                Some(AgentSession { goal, body, buffer: DataBuffer::new(), directions: Vec::new(), stage: Stage::Untrained })
            },
            _ => None,
        }
    }
}

} // verus!
