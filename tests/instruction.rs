use earthmover::body::PeripheralKey;
use earthmover::instruction::Instruction;

#[test]
fn instruction_has_no_padding() {
    let size = std::mem::size_of::<Instruction>();
    let align = std::mem::align_of::<Instruction>();

    assert_eq!(size, 16);
    assert_eq!(align, 4);
}

#[test]
fn instruction_layout_does_not_depend_on_values() {
    let a = Instruction::new(PeripheralKey { idx: u32::MAX, version: u32::MAX }, u32::MAX, [255; 4]);
    let b = Instruction::default();
    assert_eq!(std::mem::size_of_val(&a), 16);
    assert_eq!(std::mem::size_of_val(&b), 16);
    assert_eq!(std::mem::align_of_val(&a), 4);
    assert_eq!(a.lasts_for_ms, u32::MAX);
}
