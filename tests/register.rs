use dcpu16::Register;

#[test]
fn from_works() {
    assert_eq!(Register::from(0x00), Register::A);
    assert_eq!(Register::from(0x07), Register::J);
}

#[test]
fn register_from_takes_low_three_bits() {
    assert_eq!(Register::from(0x0b), Register::X);
}
