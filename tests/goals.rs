use earthmover::goals::{Goal, GoalError, PositionContextualReward};

#[test]
fn update_sets_directions() {
    let mut g = PositionContextualReward::new(3);
    assert_eq!(g.goals(), &[None, None, None]);
    assert_eq!(g.update(vec![(0, true), (2, false)]), Ok(()));
    assert_eq!(g.goals(), &[Some(Goal::Maximize), None, Some(Goal::Minimize)]);
    assert_eq!(g.goal_at(2), Some(Goal::Minimize));
    assert_eq!(g.dims(), 3);
}

#[test]
fn later_update_of_an_index_wins() {
    let mut g = PositionContextualReward::new(2);
    g.update(vec![(1, true), (1, false)]).unwrap();
    assert_eq!(g.goal_at(1), Some(Goal::Minimize));
}

#[test]
fn out_of_range_index_is_rejected_whole() {
    let mut g = PositionContextualReward::new(3);
    g.update(vec![(1, true)]).unwrap();
    assert_eq!(g.update(vec![(0, false), (3, true), (7, true)]), Err(GoalError::OutOfRange(3)));
    assert_eq!(g.goals(), &[None, Some(Goal::Maximize), None]);
    assert_eq!(PositionContextualReward::new(0).update(vec![(0, true)]), Err(GoalError::OutOfRange(0)));
}

#[test]
fn copy_of_table_is_equal() {
    let mut g = PositionContextualReward::new(2);
    g.update(vec![(0, true)]).unwrap();
    assert_eq!(g.clone_table().goals(), g.goals());
}
