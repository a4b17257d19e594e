use dcpu16::{InstructionArgumentDefinition, Register};

#[test]
fn instruction_argument_value_in_register_works() {
    assert_eq!(InstructionArgumentDefinition::decode(0x00), InstructionArgumentDefinition::Register { register: Register::A });
    assert_eq!(InstructionArgumentDefinition::decode(0x01), InstructionArgumentDefinition::Register { register: Register::B });
    assert_eq!(InstructionArgumentDefinition::decode(0x07), InstructionArgumentDefinition::Register { register: Register::J });
}

#[test]
fn instruction_argument_value_at_register_works() {
    assert_eq!(InstructionArgumentDefinition::decode(0x08), InstructionArgumentDefinition::AtAddressFromRegister { register: Register::A });
    assert_eq!(InstructionArgumentDefinition::decode(0x09), InstructionArgumentDefinition::AtAddressFromRegister { register: Register::B });
    assert_eq!(InstructionArgumentDefinition::decode(0x0f), InstructionArgumentDefinition::AtAddressFromRegister { register: Register::J });
}

#[test]
fn instruction_argument_value_at_next_word_plus_register_works() {
    assert_eq!(
        InstructionArgumentDefinition::decode(0x10),
        InstructionArgumentDefinition::AtAddressFromNextWordPlusRegister { register: Register::A }
    );
    assert_eq!(
        InstructionArgumentDefinition::decode(0x11),
        InstructionArgumentDefinition::AtAddressFromNextWordPlusRegister { register: Register::B }
    );
    assert_eq!(
        InstructionArgumentDefinition::decode(0x17),
        InstructionArgumentDefinition::AtAddressFromNextWordPlusRegister { register: Register::J }
    );
}

#[test]
fn instruction_argument_value_pop_peek_push_works() {
    assert_eq!(InstructionArgumentDefinition::decode(0x18), InstructionArgumentDefinition::Pop);
    assert_eq!(InstructionArgumentDefinition::decode(0x19), InstructionArgumentDefinition::Peek);
    assert_eq!(InstructionArgumentDefinition::decode(0x1a), InstructionArgumentDefinition::Push);
}

#[test]
fn instruction_argument_value_sp_pc_o_works() {
    assert_eq!(InstructionArgumentDefinition::decode(0x1b), InstructionArgumentDefinition::OfStackPointer);
    assert_eq!(InstructionArgumentDefinition::decode(0x1c), InstructionArgumentDefinition::OfProgramCounter);
    assert_eq!(InstructionArgumentDefinition::decode(0x1d), InstructionArgumentDefinition::OfOverflow);
}

#[test]
fn instruction_argument_value_next_word_works() {
    assert_eq!(InstructionArgumentDefinition::decode(0x1e), InstructionArgumentDefinition::AtAddressFromNextWord);
    assert_eq!(InstructionArgumentDefinition::decode(0x1f), InstructionArgumentDefinition::NextWordLiteral);
}

#[test]
fn instruction_argument_value_literal_works() {
    assert_eq!(InstructionArgumentDefinition::decode(0x20), InstructionArgumentDefinition::Literal { value: 0x00 });
    assert_eq!(InstructionArgumentDefinition::decode(0x3f), InstructionArgumentDefinition::Literal { value: 0x1f });
}

#[test]
fn every_operand_field_decodes_to_its_own_kind() {
    let kinds: Vec<InstructionArgumentDefinition> =
        (0u16..0x40).map(InstructionArgumentDefinition::decode).collect();
    for i in 0..kinds.len() {
        for j in (i + 1)..kinds.len() {
            assert_ne!(kinds[i], kinds[j]);
        }
    }
    let extra: Vec<u16> = (0u16..0x40)
        .filter(|v| InstructionArgumentDefinition::decode(*v).has_extra_words())
        .collect();
    assert_eq!(extra, vec![0x10, 0x11, 0x12, 0x13, 0x14, 0x15, 0x16, 0x17, 0x1e, 0x1f]);
}
