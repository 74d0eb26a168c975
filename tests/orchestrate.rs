use earthmover::body::PeripheralKey;
use earthmover::instruction::Instruction;
use earthmover::orchestrate::{Orchestrator, OrchestratorError};
use earthmover::score::Score;
use earthmover::sim::{SimMessage, SimRes};
use rand::{thread_rng, Rng};

fn score(x: f64) -> Score {
    Score::from_bits(x.to_bits())
}

fn instr(n: u32) -> Instruction {
    Instruction::new(PeripheralKey { idx: n, version: 1 }, n * 10, [n as u8; 4])
}

/// Runs every job of the batch through the orchestrator, at most its bound at once.
fn drive(o: &mut Orchestrator, mut jobs: Vec<Vec<SimMessage>>) -> Result<SimRes, OrchestratorError> {
    let mut running: Vec<Vec<SimMessage>> = vec![];
    loop {
        let n = o.launch();
        for _ in 0..n {
            running.push(jobs.remove(0));
        }
        if o.is_done() {
            break;
        }
        let job = running.pop().unwrap();
        o.complete(SimRes::from_messages(&job).unwrap());
    }
    o.finish()
}

#[test]
fn orchestrator_simple_simulation_backend() {
    let mut orchestrator = Orchestrator::new(16);
    orchestrator.submit(1000);
    let mut rng = thread_rng();
    let jobs: Vec<Vec<SimMessage>> = (0..1000)
        .map(|_| {
            let mut msgs: Vec<SimMessage> = (0..rng.gen_range(0..10))
                .map(|_| SimMessage::Instruction(Instruction::default()))
                .collect();
            msgs.push(SimMessage::Close(score(rng.gen_range(0f64..1f64))));
            msgs
        })
        .collect();
    let _ = drive(&mut orchestrator, jobs).unwrap();
}

#[test]
fn best_of_three_scores_wins_with_its_instructions() {
    let mut o = Orchestrator::new(3);
    o.submit(3);
    let jobs = vec![
        vec![SimMessage::Instruction(instr(1)), SimMessage::Close(score(0.2))],
        vec![SimMessage::Instruction(instr(2)), SimMessage::Instruction(instr(3)), SimMessage::Close(score(0.9))],
        vec![SimMessage::Close(score(0.5))],
    ];
    let best = drive(&mut o, jobs).unwrap();
    assert_eq!(f64::from_bits(best.get_score().to_bits()), 0.9);
    assert_eq!(best.get_instructions(), &[instr(2), instr(3)]);
}

#[test]
fn best_is_independent_of_completion_order() {
    for order in [[0usize, 1, 2], [2, 1, 0], [1, 2, 0]] {
        let results = [(0.2, 1u32), (0.9, 2), (0.5, 3)];
        let mut o = Orchestrator::new(3);
        o.submit(3);
        assert_eq!(o.launch(), 3);
        for i in order {
            let mut r = SimRes::new();
            r.push_instruction(instr(results[i].1));
            r.set_score(score(results[i].0));
            o.complete(r);
        }
        let best = o.finish().unwrap();
        assert_eq!(best.get_instructions(), &[instr(2)]);
    }
}

#[test]
fn empty_batch_is_an_error() {
    let mut o = Orchestrator::new(4);
    o.submit(0);
    assert_eq!(o.launch(), 0);
    assert!(o.is_done());
    assert!(matches!(o.finish(), Err(OrchestratorError::EmptyBatch)));
}

#[test]
fn launch_respects_the_concurrency_bound() {
    let mut o = Orchestrator::new(2);
    o.submit(5);
    assert_eq!(o.launch(), 2);
    assert_eq!(o.launch(), 0);
    o.complete(SimRes::new());
    assert_eq!(o.launch(), 1);
    o.complete(SimRes::new());
    o.complete(SimRes::new());
    assert_eq!(o.launch(), 2);
    assert!(!o.is_done());
    o.complete(SimRes::new());
    o.complete(SimRes::new());
    assert_eq!(o.launch(), 0);
    assert!(o.is_done());
    assert!(o.finish().is_ok());
    assert!(matches!(o.finish(), Err(OrchestratorError::EmptyBatch)));
}

#[test]
fn nan_scores_rank_below_every_number() {
    let mut o = Orchestrator::new(2);
    o.submit(2);
    o.launch();
    let mut nan = SimRes::new();
    nan.set_score(score(f64::NAN));
    nan.push_instruction(instr(7));
    let mut low = SimRes::new();
    low.set_score(score(f64::NEG_INFINITY));
    low.push_instruction(instr(8));
    o.complete(nan);
    o.complete(low);
    assert_eq!(o.finish().unwrap().get_instructions(), &[instr(8)]);
}

#[test]
fn score_order_follows_the_total_order() {
    assert!(score(0.9).beats(&score(0.5)));
    assert!(!score(0.5).beats(&score(0.9)));
    assert!(score(0.0).beats(&score(-0.0)));
    assert!(score(-1.0).beats(&score(-2.0)));
    assert!(score(f64::INFINITY).beats(&score(f64::MAX)));
    assert!(score(-7.5).beats(&score(f64::NAN)));
    assert!(!score(f64::NAN).beats(&score(-7.5)));
    assert!(!score(0.3).beats(&score(0.3)));
    assert!(score(f64::NAN).is_nan());
    assert!(!score(f64::INFINITY).is_nan());
}

#[test]
fn job_stream_collects_until_close() {
    let msgs = vec![
        SimMessage::Instruction(instr(1)),
        SimMessage::Instruction(instr(2)),
        SimMessage::Close(score(0.25)),
        SimMessage::Instruction(instr(3)),
    ];
    let r = SimRes::from_messages(&msgs).unwrap();
    assert_eq!(r.get_instructions(), &[instr(1), instr(2)]);
    assert_eq!(f64::from_bits(r.get_score().to_bits()), 0.25);
}

#[test]
fn job_stream_without_close_has_no_outcome() {
    assert!(SimRes::from_messages(&[SimMessage::Instruction(instr(1))]).is_none());
    assert!(SimRes::from_messages(&[]).is_none());
}

#[test]
fn absorb_reports_close() {
    let mut r = SimRes::new();
    assert!(!r.absorb(SimMessage::Instruction(instr(4))));
    assert!(r.absorb(SimMessage::Close(score(1.5))));
    assert_eq!(r.get_instructions(), &[instr(4)]);
    assert_eq!(r.get_score(), score(1.5));
}

#[test]
fn abandoned_jobs_free_their_place_without_a_result() {
    let mut o = Orchestrator::new(1);
    o.submit(2);
    assert_eq!(o.launch(), 1);
    o.abandon();
    assert_eq!(o.pending(), (1, 0));
    assert_eq!(o.launch(), 1);
    o.abandon();
    assert!(o.is_done());
    assert!(matches!(o.finish(), Err(OrchestratorError::EmptyBatch)));
}
