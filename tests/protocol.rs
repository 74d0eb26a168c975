use earthmover::protocol::{AhtpMessage, AhtpResponse};

#[test]
fn response_init_id() {
    assert_eq!(AhtpResponse::Initialized(77).get_init(), Some(77));
    assert_eq!(AhtpResponse::Instruction(vec![]).get_init(), None);
}

#[test]
fn messages_from_goals_and_points() {
    let g: AhtpMessage<f32, 3> = vec![(0usize, true)].into();
    assert_eq!(g, AhtpMessage::Goal(vec![(0, true)]));
    let s: AhtpMessage<f32, 3> = vec![[1.0f32, 2.0, 3.0]].into();
    assert_eq!(s, AhtpMessage::Send(vec![[1.0, 2.0, 3.0]]));
}
