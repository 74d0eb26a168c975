//! What a simulation job reports and what it amounts to.

use crate::instruction::Instruction;
use crate::score::{Score, rank};
use vstd::prelude::*;

verus! {

/// A message from a running simulation job.
#[derive(Clone, Copy, Debug)]
pub enum SimMessage {
    /// A candidate instruction
    Instruction(Instruction),
    /// The job has ended with this score
    Close(Score),
}

/// The outcome of one simulation job: its score and the instructions that reach it.
#[derive(Clone, Debug, Default)]
pub struct SimRes {
    pub score: Score,
    pub instructions: Vec<Instruction>,
}

/// The outcome that a job's message stream amounts to: the score of its first `Close`
/// and every instruction before it, in order; `None` when no `Close` came. Whatever
/// follows the first `Close` is ignored.
pub open spec fn job_outcome(msgs: Seq<SimMessage>) -> Option<(Score, Seq<Instruction>)>
    decreases msgs.len(),
{
    if msgs.len() == 0 {
        None
    } else {
        match msgs[0] {
            SimMessage::Close(s) => Some((s, Seq::empty())),
            SimMessage::Instruction(i) => match job_outcome(msgs.drop_first()) {
                Some((s, is)) => Some((s, seq![i] + is)),
                None => None,
            },
        }
    }
}

impl SimRes {
    /// An outcome with no instructions yet.
    pub fn new() -> (r: Self)
        ensures
            r.instructions@ == Seq::<Instruction>::empty(),
            r.score == (Score { bits: 0 }),
    {
        SimRes { score: Score { bits: 0 }, instructions: Vec::new() }
    }

    /// Adds an instruction to the back of the instruction list.
    pub fn push_instruction(&mut self, instruction: Instruction)
        ensures
            final(self).instructions@ == old(self).instructions@.push(instruction),
            final(self).score == old(self).score,
    {
        self.instructions.push(instruction);
    }

    /// Sets the score the instructions reach.
    pub fn set_score(&mut self, score: Score)
        ensures
            final(self).score == score,
            final(self).instructions@ == old(self).instructions@,
    {
        self.score = score;
    }

    pub fn get_score(&self) -> (r: Score)
        ensures
            r == self.score,
    {
        self.score
    }

    pub fn get_instructions(&self) -> (r: &[Instruction])
        ensures
            r@ == self.instructions@,
    {
        self.instructions.as_slice()
    }

    /// Takes in one message of the job's stream; returns true when it closed the job.
    pub fn absorb(&mut self, msg: SimMessage) -> (closed: bool)
        ensures
            match msg {
                SimMessage::Instruction(i) => !closed && final(self).instructions@
                    == old(self).instructions@.push(i) && final(self).score == old(self).score,
                SimMessage::Close(s) => closed && final(self).instructions@
                    == old(self).instructions@ && final(self).score == s,
            },
    {
        match msg {
            SimMessage::Instruction(i) => {
                self.push_instruction(i);
                false
            },
            SimMessage::Close(s) => {
                self.set_score(s);
                true
            },
        }
    }

    /// Folds a job's whole message stream into its outcome; `None` when the stream
    /// holds no `Close`.
    pub fn from_messages(msgs: &[SimMessage]) -> (r: Option<SimRes>)
        ensures
            match (r, job_outcome(msgs@)) {
                (Some(res), Some((s, is))) => res.score == s && res.instructions@ == is,
                (None, None) => true,
                _ => false,
            },
    {
        let mut res = SimRes::new();
        let mut i: usize = 0;
        proof {
            assert(msgs@.subrange(0, msgs@.len() as int) =~= msgs@);
            match job_outcome(msgs@) {
                Some((s, is)) => assert(res.instructions@ + is =~= is),
                None => {},
            }
        }
        while i < msgs.len()
            invariant
                0 <= i <= msgs@.len(),
                job_outcome(msgs@) == match job_outcome(msgs@.subrange(i as int, msgs@.len() as int)) {
                    Some((s, is)) => Some((s, res.instructions@ + is)),
                    None => None::<(Score, Seq<Instruction>)>,
                },
            decreases msgs@.len() - i,
        {
            let ghost tail = msgs@.subrange(i as int, msgs@.len() as int);
            assert(tail.drop_first() =~= msgs@.subrange(i + 1, msgs@.len() as int));
            let ghost before = res.instructions@;
            let closed = res.absorb(msgs[i]);
            if closed {
                assert(res.instructions@ + Seq::<Instruction>::empty() =~= res.instructions@);
                return Some(res);
            }
            proof {
                match job_outcome(tail.drop_first()) {
                    Some((s, is)) => {
                        assert(before + (seq![msgs@[i as int]->Instruction_0] + is) =~= res.instructions@ + is);
                    },
                    None => {},
                }
            }
            i += 1;
        }
        None
    }
}

/// Whether `best` is an outcome of `results` and no outcome there ranks above it.
pub open spec fn is_best_of(best: SimRes, results: Seq<SimRes>) -> bool {
    &&& results.contains(best)
    &&& forall|k: int| 0 <= k < results.len() ==> rank(#[trigger] results[k].score) <= rank(best.score)
}

} // verus!
