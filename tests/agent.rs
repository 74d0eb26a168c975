use earthmover::agent::{AgentError, AgentSession, Stage};
use earthmover::body::{Builder, Peripheral, Step};
use earthmover::goals::PositionContextualReward;
use earthmover::instruction::Instruction;

fn session() -> AgentSession<u8, 4> {
    let body = Builder::new().with_node(Peripheral::Output).build();
    AgentSession::<u8, 4>::builder()
        .with_goal(PositionContextualReward::new(3))
        .with_body(body)
        .build()
        .unwrap()
}

#[test]
fn build_needs_goal_and_body() {
    assert!(AgentSession::<u8, 4>::builder().build::<u8, 4>().is_none());
    assert!(AgentSession::<u8, 4>::builder().with_goal(PositionContextualReward::new(1)).build::<u8, 4>().is_none());
    let s = session();
    assert_eq!(s.get_stage(), Stage::Untrained);
    assert_eq!(s.get_goal().dims(), 3);
    assert_eq!(s.get_body().root.len(), 1);
}

#[test]
fn untrained_session_collects_then_reviews() {
    let mut s = session();
    assert_eq!(s.add_data(&[1, 2, 3]), Ok(()));
    assert_eq!(s.add_data(&[4, 5]), Err(AgentError::BufferOverflow));
    assert_eq!(s.export(), vec![1, 2, 3]);
    assert!(matches!(s.act(), Err(AgentError::WrongStage)));
    let k = s.get_body().root[0];
    assert_eq!(s.receive_instructions(vec![Instruction::new(k, 5, [1; 4])]), Ok(()));
    assert_eq!(s.get_stage(), Stage::InReview);
    assert_eq!(s.add_data(&[9]), Err(AgentError::WrongStage));
    assert_eq!(s.receive_instructions(vec![]), Err(AgentError::WrongStage));
    assert_eq!(s.act().unwrap(), vec![Step::Write { node: k, payload: [1; 4], wait_ms: 5 }]);
}

#[test]
fn build_accepts_a_body_with_a_dangling_root() {
    let mut body = earthmover::body::Body::new();
    body.root.push(earthmover::body::PeripheralKey { idx: 3, version: 1 });
    assert!(!body.check_wf());
    let mut s = AgentSession::<u8, 4>::builder()
        .with_goal(PositionContextualReward::new(1))
        .with_body(body)
        .build::<u8, 4>()
        .unwrap();
    let k = earthmover::body::PeripheralKey { idx: 3, version: 1 };
    s.receive_instructions(vec![Instruction::new(k, 1, [0; 4])]).unwrap();
    assert_eq!(s.act().unwrap(), vec![Step::Skip { node: k, wait_ms: 1 }]);
}
