use dcpu16::{InstructionArgumentDefinition, InstructionWord, NonBasicInstruction, Register};

#[test]
fn non_basic_instruction_reserved_works() {
    assert_eq!(
        InstructionWord::from(0b000000_000000_0000),
        InstructionWord::NonBasic(NonBasicInstruction::Reserved)
    );
    assert_eq!(
        InstructionWord::from(0b000000_000010_0000),
        InstructionWord::NonBasic(NonBasicInstruction::Reserved)
    );
    assert_eq!(
        InstructionWord::from(0b000000_111111_0000),
        InstructionWord::NonBasic(NonBasicInstruction::Reserved)
    );
}

#[test]
fn non_basic_instruction_jsr_works() {
    assert_eq!(
        InstructionWord::from(0b010001_000001_0000),
        InstructionWord::NonBasic(NonBasicInstruction::Jsr {
            a: InstructionArgumentDefinition::AtAddressFromNextWordPlusRegister {
                register: Register::B
            }
        })
    );
}

#[test]
fn set_works() {
    assert_eq!(
        InstructionWord::from(0b000011_000000_0001),
        InstructionWord::SetValue {
            a: InstructionArgumentDefinition::Register {
                register: Register::A
            },
            b: InstructionArgumentDefinition::Register {
                register: Register::X
            }
        }
    );
}

#[test]
fn add_works() {
    assert_eq!(
        InstructionWord::from(0b000011_000000_0010),
        InstructionWord::Add {
            a: InstructionArgumentDefinition::Register {
                register: Register::A
            },
            b: InstructionArgumentDefinition::Register {
                register: Register::X
            }
        }
    );
}

#[test]
fn sub_works() {
    assert_eq!(
        InstructionWord::from(0b000011_000000_0011),
        InstructionWord::Sub {
            a: InstructionArgumentDefinition::Register {
                register: Register::A
            },
            b: InstructionArgumentDefinition::Register {
                register: Register::X
            }
        }
    );
}

#[test]
fn mul_works() {
    assert_eq!(
        InstructionWord::from(0b000011_000000_0100),
        InstructionWord::Mul {
            a: InstructionArgumentDefinition::Register {
                register: Register::A
            },
            b: InstructionArgumentDefinition::Register {
                register: Register::X
            }
        }
    );
}

#[test]
fn div_works() {
    assert_eq!(
        InstructionWord::from(0b000011_000000_0101),
        InstructionWord::Div {
            a: InstructionArgumentDefinition::Register {
                register: Register::A
            },
            b: InstructionArgumentDefinition::Register {
                register: Register::X
            }
        }
    );
}

#[test]
fn mod_works() {
    assert_eq!(
        InstructionWord::from(0b000011_000000_0110),
        InstructionWord::Mod {
            a: InstructionArgumentDefinition::Register {
                register: Register::A
            },
            b: InstructionArgumentDefinition::Register {
                register: Register::X
            }
        }
    );
}

#[test]
fn shl_works() {
    assert_eq!(
        InstructionWord::from(0b000011_000000_0111),
        InstructionWord::Shl {
            a: InstructionArgumentDefinition::Register {
                register: Register::A
            },
            b: InstructionArgumentDefinition::Register {
                register: Register::X
            }
        }
    );
}

#[test]
fn shr_works() {
    assert_eq!(
        InstructionWord::from(0b000011_000000_1000),
        InstructionWord::Shr {
            a: InstructionArgumentDefinition::Register {
                register: Register::A
            },
            b: InstructionArgumentDefinition::Register {
                register: Register::X
            }
        }
    );
}

#[test]
fn and_works() {
    assert_eq!(
        InstructionWord::from(0b000011_000000_1001),
        InstructionWord::And {
            a: InstructionArgumentDefinition::Register {
                register: Register::A
            },
            b: InstructionArgumentDefinition::Register {
                register: Register::X
            }
        }
    );
}

#[test]
fn bor_works() {
    assert_eq!(
        InstructionWord::from(0b000011_000000_1010),
        InstructionWord::Bor {
            a: InstructionArgumentDefinition::Register {
                register: Register::A
            },
            b: InstructionArgumentDefinition::Register {
                register: Register::X
            }
        }
    );
}

#[test]
fn xor_works() {
    assert_eq!(
        InstructionWord::from(0b000011_000000_1011),
        InstructionWord::Xor {
            a: InstructionArgumentDefinition::Register {
                register: Register::A
            },
            b: InstructionArgumentDefinition::Register {
                register: Register::X
            }
        }
    );
}

#[test]
fn ife_works() {
    assert_eq!(
        InstructionWord::from(0b000011_000000_1100),
        InstructionWord::Ife {
            a: InstructionArgumentDefinition::Register {
                register: Register::A
            },
            b: InstructionArgumentDefinition::Register {
                register: Register::X
            }
        }
    );
}

#[test]
fn ifn_works() {
    assert_eq!(
        InstructionWord::from(0b000011_000000_1101),
        InstructionWord::Ifn {
            a: InstructionArgumentDefinition::Register {
                register: Register::A
            },
            b: InstructionArgumentDefinition::Register {
                register: Register::X
            }
        }
    );
}

#[test]
fn ifg_works() {
    assert_eq!(
        InstructionWord::from(0b000011_000000_1110),
        InstructionWord::Ifg {
            a: InstructionArgumentDefinition::Register {
                register: Register::A
            },
            b: InstructionArgumentDefinition::Register {
                register: Register::X
            }
        }
    );
}

#[test]
fn ifb_works() {
    assert_eq!(
        InstructionWord::from(0b000011_000000_1111),
        InstructionWord::Ifb {
            a: InstructionArgumentDefinition::Register {
                register: Register::A
            },
            b: InstructionArgumentDefinition::Register {
                register: Register::X
            }
        }
    );
}

#[test]
fn length_counts_extra_words_of_both_operands() {
    assert_eq!(InstructionWord::from(0x7de1).length_in_words(), 3);
    assert_eq!(InstructionWord::from(0x7c01).length_in_words(), 2);
    assert_eq!(InstructionWord::from(0x8401).length_in_words(), 1);
    assert_eq!(InstructionWord::from(0x7c10).length_in_words(), 2);
    assert_eq!(InstructionWord::from(0x0000).length_in_words(), 1);
}

#[test]
fn basic_word_decodes_by_fields() {
    for op in 1u16..16 {
        let word = op | (0x1c << 4) | (0x1f << 10);
        let (a, b) = InstructionWord::from(word).unpack();
        assert_eq!(a, InstructionArgumentDefinition::OfProgramCounter);
        assert_eq!(b, Some(InstructionArgumentDefinition::NextWordLiteral));
    }
}
