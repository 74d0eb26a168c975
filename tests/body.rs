use earthmover::body::{Body, Builder, DescriptionError, Peripheral, PeripheralKey, Step};
use earthmover::instruction::Instruction;

#[test]
fn builder_roots_and_links() {
    let b = Builder::new().with_node(Peripheral::Input).with_node(Peripheral::Output);
    let roots = b.root_keys().to_vec();
    assert_eq!(roots.len(), 2);
    assert_ne!(roots[0], roots[1]);
    let mut b = b;
    b.add_node_to(Peripheral::Output, roots[0]);
    b.add_node_to(Peripheral::Input, roots[0]);
    let body = b.build();
    assert_eq!(body.root, roots);
    let parent = body.get_by_id(roots[0]).unwrap();
    let links = parent.points_to.clone().unwrap();
    assert_eq!(links.len(), 2);
    assert_eq!(body.get_by_id(links[0]).unwrap().peripheral, Peripheral::Output);
    assert_eq!(body.get_by_id(links[1]).unwrap().peripheral, Peripheral::Input);
    assert!(body.get_by_id(roots[1]).unwrap().points_to.is_none());
    assert!(body.check_wf());
}

#[test]
fn inputs_and_outputs_partition_the_nodes() {
    let mut b = Builder::new().with_node(Peripheral::Input).with_node(Peripheral::Output);
    let first = b.root_keys()[0];
    b.add_node_to(Peripheral::Output, first);
    let body = b.build();
    let ins = body.inputs();
    let outs = body.outputs();
    assert_eq!(ins.len(), 1);
    assert_eq!(outs.len(), 2);
    assert_eq!(ins[0], first);
    assert!(!outs.contains(&first));
    for k in outs {
        assert!(body.get_by_id(k).unwrap().peripheral.is_output());
    }
}

#[test]
fn keys_are_live_only_with_their_generation() {
    let body = Builder::new().with_node(Peripheral::Output).build();
    let k = body.root[0];
    assert_eq!(k.version % 2, 1);
    assert!(body.get_by_id(k).is_some());
    assert!(body.get_by_id(PeripheralKey { idx: k.idx, version: k.version + 2 }).is_none());
    assert!(body.get_by_id(PeripheralKey { idx: k.idx, version: k.version + 1 }).is_none());
    assert!(body.get_by_id(PeripheralKey { idx: k.idx + 5, version: k.version }).is_none());
    assert!(Body::default().get_by_id(k).is_none());
}

#[test]
fn key_encoding_round_trips() {
    let k = PeripheralKey { idx: 7, version: 3 };
    assert_eq!(k.to_ffi(), (3u64 << 32) | 7);
    assert_eq!(PeripheralKey::from_ffi(k.to_ffi()), k);
}

#[test]
fn get_by_id_mut_changes_the_node() {
    let mut body = Builder::new().with_node(Peripheral::Input).build();
    let k = body.root[0];
    body.get_by_id_mut(k).unwrap().points_to = Some(vec![k]);
    assert_eq!(body.get_by_id(k).unwrap().points_to, Some(vec![k]));
}

#[test]
fn plan_writes_outputs_and_skips_the_rest() {
    let mut b = Builder::new().with_node(Peripheral::Output).with_node(Peripheral::Input);
    let roots = b.root_keys().to_vec();
    b.add_node_to(Peripheral::Output, roots[1]);
    let body = b.build();
    let missing = PeripheralKey { idx: 99, version: 1 };
    let plan = body.plan_execution(&[
        Instruction::new(roots[0], 100, [1, 2, 3, 4]),
        Instruction::new(missing, 50, [0; 4]),
        Instruction::new(roots[1], 10, [9; 4]),
        Instruction::new(roots[0], 0, [5; 4]),
    ]);
    assert_eq!(
        plan,
        vec![
            Step::Write { node: roots[0], payload: [1, 2, 3, 4], wait_ms: 100 },
            Step::Skip { node: missing, wait_ms: 50 },
            Step::Skip { node: roots[1], wait_ms: 10 },
            Step::Write { node: roots[0], payload: [5; 4], wait_ms: 0 },
        ]
    );
}

#[test]
fn snapshot_copies_roots_and_nodes() {
    let body = Builder::new().with_node(Peripheral::Output).with_node(Peripheral::Input).build();
    let copy = body.snapshot();
    assert_eq!(copy.root, body.root);
    for k in &body.root {
        assert_eq!(copy.get_by_id(*k).unwrap().peripheral, body.get_by_id(*k).unwrap().peripheral);
    }
    assert_eq!(copy.outputs(), body.outputs());
}

#[test]
fn builder_counts_its_nodes() {
    let mut b = Builder::new().with_node(Peripheral::Input);
    assert_eq!(b.node_count(), 1);
    let root = b.root_keys()[0];
    b.add_node_to(Peripheral::Output, root);
    assert_eq!(b.node_count(), 2);
    assert_eq!(b.root_keys().len(), 1);
}

#[test]
fn node_from_peripheral_has_no_links() {
    let n = earthmover::body::PeripheralNode::from(Peripheral::Output);
    assert_eq!(n.peripheral, Peripheral::Output);
    assert!(n.points_to.is_none());
}

#[test]
fn body_from_description() {
    let d = [
        (Peripheral::Input, None),
        (Peripheral::Output, Some(0)),
        (Peripheral::Output, None),
        (Peripheral::Input, Some(0)),
        (Peripheral::Input, Some(1)),
    ];
    let body = Body::from_description(&d).unwrap();
    assert_eq!(body.root.len(), 2);
    assert!(body.check_wf());
    let first = body.get_by_id(body.root[0]).unwrap();
    assert_eq!(first.peripheral, Peripheral::Input);
    assert_eq!(first.points_to.as_ref().unwrap().len(), 2);
    let second = body.get_by_id(body.root[1]).unwrap();
    assert_eq!(second.peripheral, Peripheral::Output);
    assert_eq!(second.points_to.as_ref().unwrap().len(), 1);
    assert_eq!(body.inputs().len(), 3);
    assert_eq!(body.outputs().len(), 2);

    assert_eq!(
        Body::from_description(&[(Peripheral::Input, Some(0))]).err(),
        Some(DescriptionError::UnknownParent { node: 0, parent: 0 })
    );
    assert_eq!(
        Body::from_description(&[(Peripheral::Input, None), (Peripheral::Input, Some(1)), (Peripheral::Input, Some(5))]).err(),
        Some(DescriptionError::UnknownParent { node: 1, parent: 1 })
    );
    assert!(Body::from_description(&[]).unwrap().root.is_empty());
}
