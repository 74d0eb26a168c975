//! The per-connection session: its configuration, accumulated telemetry, and the
//! decisions taken on each message. The caller performs the actions it returns.

use crate::body::{Body, same_nodes};
use crate::buffer::DataBuffer;
use crate::goals::{Goal, GoalError, PositionContextualReward, apply_updates, first_out_of_range};
use crate::instruction::Instruction;
use crate::orchestrate::OrchestratorError;
use crate::sim::SimRes;
use vstd::prelude::*;

verus! {

/// Where a session stands.
#[derive(Clone, Copy, Debug, PartialEq, Eq, Structural)]
pub enum Phase {
    /// Connected, nothing configured
    Idle,
    /// Some configuration received, no telemetry yet
    Configuring,
    /// Telemetry is accumulating
    Buffering,
    /// A training round is in flight
    Training,
}

/// Why a message was refused or a training round could not run.
#[derive(Clone, Copy, Debug, PartialEq, Eq, Structural)]
pub enum SessionError {
    /// Training asked for before a goal was set
    MissingGoal,
    /// Training asked for before a body was set
    MissingBody,
    /// Training asked for while a round is still in flight
    AlreadyTraining,
    /// A training result arrived while no round was in flight
    NotTraining,
    /// A goal named a dimension the session does not have
    GoalOutOfRange(usize),
    /// Telemetry whose length is not a whole number of points of the session's dimension
    DimensionMismatch,
    /// Telemetry that does not fit the remaining capacity
    BufferOverflow,
    /// The training round ran no job
    EmptyBatch,
    /// A point dimension outside the supported range
    InvalidDimension(usize),
    /// No session has this id
    UnknownSession,
    /// This id was handed out before
    DuplicateSession(u128),
}

/// A message for one session.
pub enum SessionEvent<T> {
    /// Set the dimension of a point
    SetDims(usize),
    /// Set goals by `(index, maximize)` pairs
    Goal(Vec<(usize, bool)>),
    /// Set the agent's body
    SetBody(Body),
    /// Append telemetry, whole points of the session's dimension
    SendData(Vec<T>),
    /// Ask for a training round
    Train,
    /// The result of the round in flight
    TrainingDone(Result<SimRes, OrchestratorError>),
}

/// A reply to the client.
#[derive(Clone, Debug, PartialEq, Eq)]
pub enum Response {
    /// The session exists under this id
    Connected(u128),
    /// The instructions of the best training outcome
    Instruction(Vec<Instruction>),
    /// A training request failed; the session goes on
    TrainError(SessionError),
}

/// Everything a training round needs, taken from the session when it starts.
pub struct TrainingJob<T> {
    pub dims: usize,
    pub goal: PositionContextualReward,
    pub data: Vec<T>,
    pub body: Body,
}

/// What the caller must do after a message.
pub enum Action<T> {
    /// Nothing
    Nothing,
    /// Send this response to the client
    Reply(Response),
    /// Run a training round on this job, then report its result
    Train(TrainingJob<T>),
    /// The message was dropped for this reason; the session goes on
    Drop(SessionError),
}

/// The smallest supported point dimension: three spatial coordinates.
pub const MIN_DIMS: usize = 3;

/// The largest supported point dimension.
pub const MAX_DIMS: usize = 32;

/// Whether a point dimension is supported.
pub open spec fn valid_dims(d: nat) -> bool {
    MIN_DIMS <= d <= MAX_DIMS
}

/// Whether a point dimension is supported.
pub fn is_valid_dimension(d: usize) -> (r: bool)
    ensures
        r == valid_dims(d as nat),
{
    MIN_DIMS <= d && d <= MAX_DIMS
}

/// The phase a configuration message leaves a session in.
pub open spec fn configured(p: Phase) -> Phase {
    if p == Phase::Idle {
        Phase::Configuring
    } else {
        p
    }
}

/// The phase accepted telemetry leaves a session in.
pub open spec fn buffering(p: Phase) -> Phase {
    if p == Phase::Training {
        Phase::Training
    } else {
        Phase::Buffering
    }
}

/// One client's session: dimension, goal, body and telemetry.
pub struct Connection<T, const CAP: usize> {
    dims: usize,
    goal: Option<PositionContextualReward>,
    body: Option<Body>,
    buf: DataBuffer<T, CAP>,
    phase: Phase,
}

impl<T, const CAP: usize> Connection<T, CAP> {
    pub closed spec fn wf(&self) -> bool {
        &&& self.buf.wf()
        &&& self.phase == Phase::Idle ==> self.dims == 0 && self.goal is None && self.body is None
            && self.buf.view().len() == 0
        &&& self.goal is Some ==> self.goal->0.view().len() == self.dims
    }

    pub closed spec fn dims(&self) -> nat {
        self.dims as nat
    }

    /// The goal table, once a goal was set.
    pub closed spec fn goal(&self) -> Option<Seq<Option<Goal>>> {
        match self.goal {
            Some(g) => Some(g.view()),
            None => None,
        }
    }

    pub closed spec fn body(&self) -> Option<Body> {
        self.body
    }

    /// The telemetry accumulated so far.
    pub closed spec fn data(&self) -> Seq<T> {
        self.buf.view()
    }

    pub closed spec fn phase(&self) -> Phase {
        self.phase
    }

    /// Nothing configured yet.
    pub open spec fn is_fresh(&self) -> bool {
        &&& self.phase() == Phase::Idle
        &&& self.dims() == 0
        &&& self.goal() is None
        &&& self.body() is None
        &&& self.data().len() == 0
    }

    /// Everything but the phase is as in `c`.
    pub open spec fn same_config(&self, c: Self) -> bool {
        &&& self.dims() == c.dims()
        &&& self.goal() == c.goal()
        &&& self.body() == c.body()
        &&& self.data() == c.data()
    }
}

/// What handling `ev` does to a session `c0`, leaving it as `c1`, and the action it asks for.
pub open spec fn handled<T, const CAP: usize>(
    c0: Connection<T, CAP>,
    ev: SessionEvent<T>,
    c1: Connection<T, CAP>,
    a: Action<T>,
) -> bool {
    match ev {
        SessionEvent::SetDims(d) => if !valid_dims(d as nat) {
            a == Action::<T>::Drop(SessionError::InvalidDimension(d)) && c1.same_config(c0) && c1.phase() == c0.phase()
        } else {
            &&& a is Nothing
            &&& c1.dims() == d
            &&& c1.goal() is None
            &&& c1.data() == Seq::<T>::empty()
            &&& c1.body() == c0.body()
            &&& c1.phase() == if c0.phase() == Phase::Training {
                Phase::Training
            } else {
                Phase::Configuring
            }
        },
        SessionEvent::Goal(g) => match first_out_of_range(g@, c0.dims()) {
            Some(idx) => a == Action::<T>::Drop(SessionError::GoalOutOfRange(idx)) && c1.same_config(c0)
                && c1.phase() == c0.phase(),
            None => {
                &&& a is Nothing
                &&& c1.goal() == Some(
                    apply_updates(
                        match c0.goal() {
                            Some(t) => t,
                            None => Seq::new(c0.dims(), |i: int| None::<Goal>),
                        },
                        g@,
                    ),
                )
                &&& c1.dims() == c0.dims() && c1.body() == c0.body() && c1.data() == c0.data()
                &&& c1.phase() == configured(c0.phase())
            },
        },
        SessionEvent::SetBody(b) => {
            &&& a is Nothing
            &&& c1.body() == Some(b)
            &&& c1.dims() == c0.dims() && c1.goal() == c0.goal() && c1.data() == c0.data()
            &&& c1.phase() == configured(c0.phase())
        },
        SessionEvent::SendData(v) => if c0.dims() == 0 || v@.len() % c0.dims() != 0 {
            a == Action::<T>::Drop(SessionError::DimensionMismatch) && c1.same_config(c0) && c1.phase() == c0.phase()
        } else if c0.data().len() + v@.len() > CAP {
            a == Action::<T>::Drop(SessionError::BufferOverflow) && c1.same_config(c0) && c1.phase() == c0.phase()
        } else {
            &&& a is Nothing
            &&& c1.data() == c0.data() + v@
            &&& c1.dims() == c0.dims() && c1.goal() == c0.goal() && c1.body() == c0.body()
            &&& c1.phase() == buffering(c0.phase())
        },
        SessionEvent::Train => {
            &&& c1.same_config(c0)
            &&& if c0.phase() == Phase::Training {
                a == Action::<T>::Reply(Response::TrainError(SessionError::AlreadyTraining)) && c1.phase() == c0.phase()
            } else if c0.goal() is None {
                a == Action::<T>::Reply(Response::TrainError(SessionError::MissingGoal)) && c1.phase() == c0.phase()
            } else if c0.body() is None {
                a == Action::<T>::Reply(Response::TrainError(SessionError::MissingBody)) && c1.phase() == c0.phase()
            } else {
                &&& c1.phase() == Phase::Training
                &&& a matches Action::Train(job) && job.dims == c0.dims() && Some(job.goal.view()) == c0.goal()
                    && job.data@ == c0.data() && same_nodes(job.body.nodes(), c0.body()->0.nodes())
                    && job.body.root@ == c0.body()->0.root@
            }
        },
        SessionEvent::TrainingDone(res) => {
            &&& c1.same_config(c0)
            &&& if c0.phase() != Phase::Training {
                a == Action::<T>::Drop(SessionError::NotTraining) && c1.phase() == c0.phase()
            } else {
                &&& c1.phase() == if c0.data().len() == 0 {
                    Phase::Configuring
                } else {
                    Phase::Buffering
                }
                &&& match res {
                    Ok(r) => a matches Action::Reply(Response::Instruction(v)) && v@ == r.instructions@,
                    Err(_) => a == Action::<T>::Reply(Response::TrainError(SessionError::EmptyBatch)),
                }
            }
        },
    }
}

impl<T: Copy, const CAP: usize> Connection<T, CAP> {
    /// A fresh session with nothing configured.
    pub fn new() -> (r: Self)
        ensures
            r.wf(),
            r.is_fresh(),
    {
        Connection { dims: 0, goal: None, body: None, buf: DataBuffer::new(), phase: Phase::Idle }
    }

    pub fn phase_of(&self) -> (r: Phase)
        ensures
            r == self.phase(),
    {
        self.phase
    }

    /// Sets the dimension of a point, if supported; otherwise refuses it and nothing
    /// changes. The goal and the telemetry, laid out for the former dimension, are dropped.
    pub fn set_dims(&mut self, dims: usize) -> (r: Result<(), SessionError>)
        requires
            old(self).wf(),
        ensures
            final(self).wf(),
            !valid_dims(dims as nat) ==> r == Err::<(), SessionError>(SessionError::InvalidDimension(dims))
                && final(self).same_config(*old(self)) && final(self).phase() == old(self).phase(),
            valid_dims(dims as nat) ==> {
                &&& r is Ok
                &&& final(self).dims() == dims
                &&& final(self).goal() is None
                &&& final(self).data() == Seq::<T>::empty()
                &&& final(self).body() == old(self).body()
                &&& final(self).phase() == if old(self).phase() == Phase::Training {
                    Phase::Training
                } else {
                    Phase::Configuring
                }
            },
    {
        if !is_valid_dimension(dims) {
            return Err(SessionError::InvalidDimension(dims));
        }
        self.dims = dims;
        self.goal = None;
        self.buf.reset();
        if self.phase != Phase::Training {
            self.phase = Phase::Configuring;
        }
        Ok(())
    }

    /// Sets goals by `(index, maximize)` pairs, on a table of the session's dimension.
    /// Refused whole, and nothing changes, when an index is out of range.
    pub fn set_goals(&mut self, goals: Vec<(usize, bool)>) -> (r: Result<(), SessionError>)
        requires
            old(self).wf(),
        ensures
            final(self).wf(),
            final(self).dims() == old(self).dims(),
            final(self).body() == old(self).body(),
            final(self).data() == old(self).data(),
            match first_out_of_range(goals@, old(self).dims()) {
                Some(idx) => r == Err::<(), SessionError>(SessionError::GoalOutOfRange(idx))
                    && final(self).goal() == old(self).goal() && final(self).phase() == old(self).phase(),
                None => r is Ok && final(self).goal() == Some(
                    apply_updates(
                        match old(self).goal() {
                            Some(t) => t,
                            None => Seq::new(old(self).dims(), |i: int| None::<Goal>),
                        },
                        goals@,
                    ),
                ) && final(self).phase() == configured(old(self).phase()),
            },
    {
        let had = self.goal.is_some();
        let mut table = match self.goal.take() {
            Some(t) => t,
            None => PositionContextualReward::new(self.dims),
        };
        match table.update(goals) {
            Ok(()) => {
                self.goal = Some(table);
                if self.phase == Phase::Idle {
                    self.phase = Phase::Configuring;
                }
                Ok(())
            },
            Err(GoalError::OutOfRange(idx)) => {
                if had {
                    self.goal = Some(table);
                }
                Err(SessionError::GoalOutOfRange(idx))
            },
        }
    }

    /// Sets the agent's body.
    pub fn set_body(&mut self, body: Body)
        requires
            old(self).wf(),
        ensures
            final(self).wf(),
            final(self).body() == Some(body),
            final(self).dims() == old(self).dims(),
            final(self).goal() == old(self).goal(),
            final(self).data() == old(self).data(),
            final(self).phase() == configured(old(self).phase()),
    {
        self.body = Some(body);
        if self.phase == Phase::Idle {
            self.phase = Phase::Configuring;
        }
    }

    /// Appends telemetry: whole points of the session's dimension that fit the
    /// remaining capacity. Anything else is refused and nothing changes.
    pub fn write(&mut self, data: &[T]) -> (r: Result<(), SessionError>)
        requires
            old(self).wf(),
        ensures
            final(self).wf(),
            final(self).dims() == old(self).dims(),
            final(self).goal() == old(self).goal(),
            final(self).body() == old(self).body(),
            old(self).dims() == 0 || data@.len() % old(self).dims() != 0 ==> r == Err::<(), SessionError>(SessionError::DimensionMismatch)
                && final(self).data() == old(self).data() && final(self).phase() == old(self).phase(),
            old(self).dims() != 0 && data@.len() % old(self).dims() == 0 && old(self).data().len() + data@.len() > CAP
                ==> r == Err::<(), SessionError>(SessionError::BufferOverflow) && final(self).data() == old(self).data()
                && final(self).phase() == old(self).phase(),
            old(self).dims() != 0 && data@.len() % old(self).dims() == 0 && old(self).data().len() + data@.len() <= CAP
                ==> r is Ok && final(self).data() == old(self).data() + data@ && final(self).phase() == buffering(old(self).phase()),
    {
        if self.dims == 0 || data.len() % self.dims != 0 {
            return Err(SessionError::DimensionMismatch);
        }
        match self.buf.add_data(data) {
            Some(()) => {
                if self.phase != Phase::Training {
                    self.phase = Phase::Buffering;
                }
                Ok(())
            },
            None => Err(SessionError::BufferOverflow),
        }
    }

    /// Asks for a training round. It starts, with a copy of the goal, the body and
    /// the telemetry, only when goal and body are both set and no round is in flight.
    pub fn train(&mut self) -> (r: Result<TrainingJob<T>, SessionError>)
        requires
            old(self).wf(),
        ensures
            final(self).wf(),
            final(self).dims() == old(self).dims(),
            final(self).goal() == old(self).goal(),
            final(self).body() == old(self).body(),
            final(self).data() == old(self).data(),
            old(self).phase() == Phase::Training ==> r == Err::<TrainingJob<T>, SessionError>(SessionError::AlreadyTraining),
            old(self).phase() != Phase::Training && old(self).goal() is None ==> r == Err::<TrainingJob<T>, SessionError>(SessionError::MissingGoal),
            old(self).phase() != Phase::Training && old(self).goal() is Some && old(self).body() is None
                ==> r == Err::<TrainingJob<T>, SessionError>(SessionError::MissingBody),
            r is Err ==> final(self).phase() == old(self).phase(),
            r is Ok <==> (old(self).phase() != Phase::Training && old(self).goal() is Some && old(self).body() is Some),
            match r {
                Ok(job) => final(self).phase() == Phase::Training && job.dims == old(self).dims()
                    && Some(job.goal.view()) == old(self).goal() && job.data@ == old(self).data()
                    && same_nodes(job.body.nodes(), old(self).body()->0.nodes()) && job.body.root@ == old(self).body()->0.root@,
                Err(_) => true,
            },
    {
        if self.phase == Phase::Training {
            return Err(SessionError::AlreadyTraining);
        }
        let goal = match &self.goal {
            Some(g) => g.clone_table(),
            None => return Err(SessionError::MissingGoal),
        };
        let body = match &self.body {
            Some(b) => b.snapshot(),
            None => return Err(SessionError::MissingBody),
        };
        let data = self.buf.export();
        self.phase = Phase::Training;
        Ok(TrainingJob { dims: self.dims, goal, data, body })
    }

    /// Takes in the result of the round in flight: the best outcome's instructions,
    /// or the error it ended with. The session then returns to configuring or buffering.
    pub fn finish_training(&mut self, result: Result<SimRes, OrchestratorError>) -> (r: Result<Response, SessionError>)
        requires
            old(self).wf(),
        ensures
            final(self).wf(),
            final(self).dims() == old(self).dims(),
            final(self).goal() == old(self).goal(),
            final(self).body() == old(self).body(),
            final(self).data() == old(self).data(),
            old(self).phase() != Phase::Training ==> r == Err::<Response, SessionError>(SessionError::NotTraining)
                && final(self).phase() == old(self).phase(),
            old(self).phase() == Phase::Training ==> final(self).phase() == if old(self).data().len() == 0 {
                Phase::Configuring
            } else {
                Phase::Buffering
            },
            old(self).phase() == Phase::Training ==> match result {
                Ok(res) => r matches Ok(Response::Instruction(v)) && v@ == res.instructions@,
                Err(_) => r == Ok::<Response, SessionError>(Response::TrainError(SessionError::EmptyBatch)),
            },
    {
        if self.phase != Phase::Training {
            return Err(SessionError::NotTraining);
        }
        self.phase = if self.buf.len() == 0 { Phase::Configuring } else { Phase::Buffering };
        match result {
            Ok(res) => Ok(Response::Instruction(res.instructions)),
            Err(OrchestratorError::EmptyBatch) => Ok(Response::TrainError(SessionError::EmptyBatch)),
        }
    }
}

impl<T: Copy, const CAP: usize> Connection<T, CAP> {
    /// Handles one message in the order it arrived, and says what the caller must do.
    pub fn handle(&mut self, ev: SessionEvent<T>) -> (a: Action<T>)
        requires
            old(self).wf(),
        ensures
            final(self).wf(),
            handled(*old(self), ev, *final(self), a),
    {
        match ev {
            SessionEvent::SetDims(d) => match self.set_dims(d) {
                Ok(()) => Action::Nothing,
                Err(e) => Action::Drop(e),
            },
            SessionEvent::Goal(g) => match self.set_goals(g) {
                Ok(()) => Action::Nothing,
                Err(e) => Action::Drop(e),
            },
            SessionEvent::SetBody(b) => {
                self.set_body(b);
                Action::Nothing
            },
            SessionEvent::SendData(v) => match self.write(v.as_slice()) {
                Ok(()) => Action::Nothing,
                Err(e) => Action::Drop(e),
            },
            SessionEvent::Train => match self.train() {
                Ok(job) => Action::Train(job),
                Err(e) => Action::Reply(Response::TrainError(e)),
            },
            SessionEvent::TrainingDone(res) => match self.finish_training(res) {
                Ok(r) => Action::Reply(r),
                Err(e) => Action::Drop(e),
            },
        }
    }
}

/// A session with a goal but no body answers a training request with
/// `TrainError(MissingBody)` and stays as it was; once a body is set, the same request
/// starts a round, and that round's result comes back as one `Instruction` response
/// carrying the best outcome's instructions.
pub proof fn lemma_train_needs_body<T, const CAP: usize>(
    c0: Connection<T, CAP>,
    c1: Connection<T, CAP>,
    a0: Action<T>,
    b: Body,
    c2: Connection<T, CAP>,
    a1: Action<T>,
    c3: Connection<T, CAP>,
    a2: Action<T>,
    res: SimRes,
    c4: Connection<T, CAP>,
    a3: Action<T>,
)
    requires
        c0.phase() != Phase::Training,
        c0.goal() is Some,
        c0.body() is None,
        handled(c0, SessionEvent::Train, c1, a0),
        handled(c1, SessionEvent::SetBody(b), c2, a1),
        handled(c2, SessionEvent::Train, c3, a2),
        handled(c3, SessionEvent::TrainingDone(Ok(res)), c4, a3),
    ensures
        a0 == Action::<T>::Reply(Response::TrainError(SessionError::MissingBody)),
        c1.same_config(c0) && c1.phase() == c0.phase(),
        a1 is Nothing,
        a2 matches Action::Train(job) && same_nodes(job.body.nodes(), b.nodes()) && Some(job.goal.view()) == c0.goal(),
        a3 matches Action::Reply(Response::Instruction(v)) && v@ == res.instructions@,
        c4.phase() != Phase::Training,
{
}

} // verus!
