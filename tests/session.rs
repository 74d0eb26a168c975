use earthmover::body::{Builder, Peripheral};
use earthmover::goals::Goal;
use earthmover::instruction::Instruction;
use earthmover::orchestrate::OrchestratorError;
use earthmover::score::Score;
use earthmover::session::{is_valid_dimension, Action, Connection, Phase, Response, SessionError, SessionEvent};
use earthmover::sim::SimRes;
use earthmover::state::{Message, ServerState};

fn small_body() -> earthmover::body::Body {
    Builder::new().with_node(Peripheral::Output).with_node(Peripheral::Input).build()
}

#[test]
fn train_without_body_then_with_body() {
    let mut c: Connection<f32, 64> = Connection::new();
    assert!(matches!(c.handle(SessionEvent::SetDims(3)), Action::Nothing));
    assert!(matches!(c.handle(SessionEvent::Goal(vec![(0, true)])), Action::Nothing));
    assert!(matches!(c.handle(SessionEvent::SendData(vec![0.1, 0.2, 0.3, 1.0, 2.0, 3.0])), Action::Nothing));
    assert_eq!(c.phase_of(), Phase::Buffering);
    assert!(matches!(
        c.handle(SessionEvent::Train),
        Action::Reply(Response::TrainError(SessionError::MissingBody))
    ));
    assert_eq!(c.phase_of(), Phase::Buffering);

    assert!(matches!(c.handle(SessionEvent::SetBody(small_body())), Action::Nothing));
    let job = match c.handle(SessionEvent::Train) {
        Action::Train(job) => job,
        _ => panic!("training did not start"),
    };
    assert_eq!(job.dims, 3);
    assert_eq!(job.data, vec![0.1, 0.2, 0.3, 1.0, 2.0, 3.0]);
    assert_eq!(job.goal.goals(), &[Some(Goal::Maximize), None, None]);
    assert_eq!(job.body.outputs().len(), 1);
    assert_eq!(c.phase_of(), Phase::Training);

    let mut best = SimRes::new();
    best.push_instruction(Instruction::default());
    best.set_score(Score::from_bits(0.9f64.to_bits()));
    match c.handle(SessionEvent::TrainingDone(Ok(best))) {
        Action::Reply(Response::Instruction(v)) => assert_eq!(v, vec![Instruction::default()]),
        _ => panic!("expected one instruction response"),
    }
    assert_eq!(c.phase_of(), Phase::Buffering);
}

#[test]
fn train_without_goal_is_refused() {
    let mut c: Connection<f32, 8> = Connection::new();
    c.handle(SessionEvent::SetBody(small_body()));
    assert!(matches!(
        c.handle(SessionEvent::Train),
        Action::Reply(Response::TrainError(SessionError::MissingGoal))
    ));
}

#[test]
fn second_train_while_in_flight_is_refused() {
    let mut c: Connection<u8, 8> = Connection::new();
    c.handle(SessionEvent::SetDims(3));
    c.handle(SessionEvent::Goal(vec![(2, false)]));
    c.handle(SessionEvent::SetBody(small_body()));
    assert!(matches!(c.handle(SessionEvent::Train), Action::Train(_)));
    assert!(matches!(
        c.handle(SessionEvent::Train),
        Action::Reply(Response::TrainError(SessionError::AlreadyTraining))
    ));
    assert!(matches!(
        c.handle(SessionEvent::TrainingDone(Err(OrchestratorError::EmptyBatch))),
        Action::Reply(Response::TrainError(SessionError::EmptyBatch))
    ));
    assert_eq!(c.phase_of(), Phase::Configuring);
    assert!(matches!(
        c.handle(SessionEvent::TrainingDone(Ok(SimRes::new()))),
        Action::Drop(SessionError::NotTraining)
    ));
}

#[test]
fn session_rejects_bad_configuration_and_data() {
    let mut c: Connection<u8, 6> = Connection::new();
    assert_eq!(c.phase_of(), Phase::Idle);
    assert!(matches!(c.handle(SessionEvent::SendData(vec![1, 2, 3])), Action::Drop(SessionError::DimensionMismatch)));
    assert!(matches!(c.handle(SessionEvent::SetDims(2)), Action::Drop(SessionError::InvalidDimension(2))));
    assert!(matches!(c.handle(SessionEvent::SetDims(33)), Action::Drop(SessionError::InvalidDimension(33))));
    assert_eq!(c.phase_of(), Phase::Idle);
    c.handle(SessionEvent::SetDims(3));
    assert_eq!(c.phase_of(), Phase::Configuring);
    assert!(matches!(c.handle(SessionEvent::Goal(vec![(0, true), (3, false)])), Action::Drop(SessionError::GoalOutOfRange(3))));
    assert!(matches!(c.handle(SessionEvent::SendData(vec![1, 2])), Action::Drop(SessionError::DimensionMismatch)));
    assert!(matches!(c.handle(SessionEvent::SendData(vec![1, 2, 3, 4, 5, 6])), Action::Nothing));
    assert!(matches!(c.handle(SessionEvent::SendData(vec![7, 8, 9])), Action::Drop(SessionError::BufferOverflow)));
    assert!(is_valid_dimension(3) && is_valid_dimension(32));
    assert!(!is_valid_dimension(0) && !is_valid_dimension(33));
}

#[test]
fn initiate_hands_out_fresh_ids() {
    let mut state: ServerState<f32, 64> = ServerState::new();
    let a = state.initiate(small_body()).unwrap();
    let b = state.initiate(small_body()).unwrap();
    let c = state.new_session().unwrap();
    assert_ne!(a, b);
    assert_ne!(a, c);
    assert_ne!(b, c);
    assert!(state.contains(a) && state.contains(b) && state.contains(c));
    assert_eq!(uuid::Uuid::from_u128(a).get_version_num(), 4);
}

#[test]
fn duplicate_session_id_is_refused() {
    let mut state: ServerState<f32, 8> = ServerState::new();
    assert!(state.insert_session(42).is_ok());
    assert_eq!(state.insert_session(42), Err(SessionError::DuplicateSession(42)));
    assert!(state.disconnect(42));
    assert!(!state.contains(42));
    assert!(state.was_issued(42));
    assert_eq!(state.insert_session(42), Err(SessionError::DuplicateSession(42)));
    assert!(!state.contains(42));
}

#[test]
fn handshake_with_a_drawn_id() {
    let mut state: ServerState<f32, 8> = ServerState::new();
    assert_eq!(state.initiate_with(7, small_body()), Ok(7));
    assert_eq!(state.initiate_with(7, small_body()), Err(SessionError::DuplicateSession(7)));
    assert_eq!(state.initiate_with(8, small_body()), Ok(8));
    assert!(matches!(state.receive(Message::Train(8)), Action::Reply(Response::TrainError(SessionError::MissingGoal))));
}

#[test]
fn fresh_service_handshakes_succeed() {
    for _ in 0..50 {
        let mut state: ServerState<f32, 8> = ServerState::new();
        let a = state.initiate(small_body()).unwrap();
        let b = state.initiate(small_body()).unwrap();
        assert_ne!(a, b);
    }
}

#[test]
fn mailbox_routes_by_session() {
    let mut state: ServerState<f32, 64> = ServerState::new();
    let id = state.initiate(small_body()).unwrap();
    assert!(matches!(state.receive(Message::Connection(id)), Action::Reply(Response::Connected(x)) if x == id));
    assert!(matches!(state.receive(Message::Connection(id ^ 1)), Action::Drop(SessionError::UnknownSession)));
    assert!(matches!(state.receive(Message::SetDims(id, 3)), Action::Nothing));
    assert!(matches!(state.receive(Message::Goal(id, vec![(1, true)])), Action::Nothing));
    assert!(matches!(state.receive(Message::SendData(id, vec![1.0, 2.0, 3.0])), Action::Nothing));
    assert!(matches!(state.receive(Message::Train(id)), Action::Train(_)));
    assert!(matches!(
        state.dispatch(id, SessionEvent::TrainingDone(Ok(SimRes::new()))),
        Action::Reply(Response::Instruction(_))
    ));
    assert!(matches!(state.receive(Message::Train(id ^ 1)), Action::Drop(SessionError::UnknownSession)));
    assert!(matches!(state.receive(Message::Disconnection(id)), Action::Nothing));
    assert!(!state.contains(id));
    assert!(matches!(state.receive(Message::Disconnection(id)), Action::Drop(SessionError::UnknownSession)));
}
