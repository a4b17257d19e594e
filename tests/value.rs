use dcpu16::{Register, Value};

#[test]
fn value_value_in_register_works() {
    assert_eq!(Value::from(0x00), Value::Register { register: Register::A });
    assert_eq!(Value::from(0x01), Value::Register { register: Register::B });
    assert_eq!(Value::from(0x07), Value::Register { register: Register::J });
}

#[test]
fn value_value_at_register_works() {
    assert_eq!(Value::from(0x08), Value::AtAddressFromRegister { register: Register::A });
    assert_eq!(Value::from(0x09), Value::AtAddressFromRegister { register: Register::B });
    assert_eq!(Value::from(0x0f), Value::AtAddressFromRegister { register: Register::J });
}

#[test]
fn value_value_at_next_word_plus_register_works() {
    assert_eq!(
        Value::from(0x10),
        Value::AtAddressFromNextWordPlusRegister { register: Register::A }
    );
    assert_eq!(
        Value::from(0x11),
        Value::AtAddressFromNextWordPlusRegister { register: Register::B }
    );
    assert_eq!(
        Value::from(0x17),
        Value::AtAddressFromNextWordPlusRegister { register: Register::J }
    );
}

#[test]
fn value_value_pop_peek_push_works() {
    assert_eq!(Value::from(0x18), Value::Pop);
    assert_eq!(Value::from(0x19), Value::Peek);
    assert_eq!(Value::from(0x1a), Value::Push);
}

#[test]
fn value_value_sp_pc_o_works() {
    assert_eq!(Value::from(0x1b), Value::OfStackPointer);
    assert_eq!(Value::from(0x1c), Value::OfProgramCounter);
    assert_eq!(Value::from(0x1d), Value::OfOverflow);
}

#[test]
fn value_value_next_word_works() {
    assert_eq!(Value::from(0x1e), Value::AtAddressFromNextWord);
    assert_eq!(Value::from(0x1f), Value::NextWordLiteral);
}

#[test]
fn value_value_literal_works() {
    assert_eq!(Value::from(0x20), Value::Literal { value: 0x00 });
    assert_eq!(Value::from(0x3f), Value::Literal { value: 0x1f });
}
