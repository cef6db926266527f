use hack_toolchain::assembler::{
    compile_command, compute_instruction, parse_command, CommandType, CommandValue, ParseError,
};

fn compute(a: bool, m: bool, d: bool, operation: u16, jump: u16) -> CommandType {
    CommandType::CommandC {
        destination_a: a,
        destination_m: m,
        destination_d: d,
        operation,
        jump_condition: jump,
    }
}

#[test]
fn address_with_number() {
    assert_eq!(
        parse_command("@2"),
        Ok(CommandType::CommandA(CommandValue::Number(2)))
    );
    assert_eq!(
        parse_command("@0"),
        Ok(CommandType::CommandA(CommandValue::Number(0)))
    );
    assert_eq!(
        parse_command("@65535"),
        Ok(CommandType::CommandA(CommandValue::Number(65535)))
    );
    assert_eq!(
        parse_command("@007"),
        Ok(CommandType::CommandA(CommandValue::Number(7)))
    );
}

#[test]
fn address_with_name() {
    assert_eq!(
        parse_command("@LOOP"),
        Ok(CommandType::CommandA(CommandValue::Symbol("LOOP".to_string())))
    );
    assert_eq!(
        parse_command("@sum.0$x"),
        Ok(CommandType::CommandA(CommandValue::Symbol("sum.0$x".to_string())))
    );
}

#[test]
fn address_that_is_no_number_is_a_name() {
    for text in ["65536", "70000", "-1", "1_000", "12a", "", "+", " 5", "5 ", "١٢"] {
        let line = format!("@{}", text);
        assert!(text.parse::<u16>().is_err());
        assert_eq!(
            parse_command(&line),
            Ok(CommandType::CommandA(CommandValue::Symbol(text.to_string())))
        );
    }
}

#[test]
fn address_numbers_agree_with_std() {
    for text in ["0", "1", "+5", "+0", "00000000000000000001", "32768", "65535", "+65535", "9"] {
        let line = format!("@{}", text);
        let expected = text.parse::<u16>().unwrap();
        assert_eq!(
            parse_command(&line),
            Ok(CommandType::CommandA(CommandValue::Number(expected)))
        );
    }
}

#[test]
fn label_declaration() {
    assert_eq!(
        parse_command("(LOOP)"),
        Ok(CommandType::CommandL(CommandValue::Symbol("LOOP".to_string())))
    );
    assert_eq!(
        parse_command("()"),
        Ok(CommandType::CommandL(CommandValue::Symbol("".to_string())))
    );
    assert_eq!(
        parse_command("(a)b)"),
        Ok(CommandType::CommandL(CommandValue::Symbol("a)b".to_string())))
    );
}

#[test]
fn label_without_closing_parenthesis() {
    assert_eq!(parse_command("(LOOP"), Err(ParseError::MissingParenthesis));
    assert_eq!(parse_command("("), Err(ParseError::MissingParenthesis));
    assert_eq!(parse_command("(LOOP) "), Err(ParseError::MissingParenthesis));
}

#[test]
fn every_operation_has_its_code() {
    let table: [(&str, u16); 28] = [
        ("0", 0b010_1010),
        ("1", 0b011_1111),
        ("-1", 0b011_1010),
        ("D", 0b000_1100),
        ("A", 0b011_0000),
        ("M", 0b111_0000),
        ("!D", 0b000_1101),
        ("!A", 0b011_0001),
        ("!M", 0b111_0001),
        ("-D", 0b000_1111),
        ("-A", 0b011_0011),
        ("-M", 0b111_0011),
        ("D+1", 0b001_1111),
        ("A+1", 0b011_0111),
        ("M+1", 0b111_0111),
        ("D-1", 0b000_1110),
        ("A-1", 0b011_0010),
        ("M-1", 0b111_0010),
        ("D+A", 0b000_0010),
        ("D+M", 0b100_0010),
        ("D-A", 0b001_0011),
        ("D-M", 0b101_0011),
        ("A-D", 0b000_0111),
        ("M-D", 0b100_0111),
        ("D&A", 0b000_0000),
        ("D&M", 0b100_0000),
        ("D|A", 0b001_0101),
        ("D|M", 0b101_0101),
    ];
    for (text, code) in table {
        assert_eq!(parse_command(text), Ok(compute(false, false, false, code, 0)));
        assert_eq!(
            compute_instruction("", text, ""),
            Ok(compute(false, false, false, code, 0))
        );
    }
}

#[test]
fn every_jump_has_its_code() {
    let table: [(&str, u16); 7] = [
        ("JGT", 1),
        ("JEQ", 2),
        ("JGE", 3),
        ("JLT", 4),
        ("JNE", 5),
        ("JLE", 6),
        ("JMP", 7),
    ];
    for (text, code) in table {
        let line = format!("D;{}", text);
        assert_eq!(parse_command(&line), Ok(compute(false, false, false, 0b000_1100, code)));
    }
    assert_eq!(parse_command("D"), Ok(compute(false, false, false, 0b000_1100, 0)));
    assert_eq!(parse_command("D;"), Ok(compute(false, false, false, 0b000_1100, 0)));
}

#[test]
fn destinations_in_any_order() {
    assert_eq!(parse_command("A=1"), Ok(compute(true, false, false, 0b011_1111, 0)));
    assert_eq!(parse_command("M=1"), Ok(compute(false, true, false, 0b011_1111, 0)));
    assert_eq!(parse_command("D=1"), Ok(compute(false, false, true, 0b011_1111, 0)));
    assert_eq!(parse_command("AM=1"), Ok(compute(true, true, false, 0b011_1111, 0)));
    assert_eq!(parse_command("MA=1"), Ok(compute(true, true, false, 0b011_1111, 0)));
    assert_eq!(parse_command("DMA=1"), Ok(compute(true, true, true, 0b011_1111, 0)));
    assert_eq!(parse_command("AMD=1"), Ok(compute(true, true, true, 0b011_1111, 0)));
    assert_eq!(parse_command("DD=1"), Ok(compute(false, false, true, 0b011_1111, 0)));
    assert_eq!(parse_command("=1"), Ok(compute(false, false, false, 0b011_1111, 0)));
    assert_eq!(parse_command("X=1"), Ok(compute(false, false, false, 0b011_1111, 0)));
}

#[test]
fn compute_with_all_three_fields() {
    assert_eq!(
        parse_command("AMD=M-1;JLE"),
        Ok(compute(true, true, true, 0b111_0010, 6))
    );
    assert_eq!(parse_command("0;JMP"), Ok(compute(false, false, false, 0b010_1010, 7)));
}

#[test]
fn compute_is_read_without_regard_to_case() {
    assert_eq!(parse_command("d=a"), parse_command("D=A"));
    assert_eq!(parse_command("m=d+1;jgt"), Ok(compute(false, true, false, 0b001_1111, 1)));
    assert_eq!(parse_command("Md=d|m;Jmp"), Ok(compute(false, true, true, 0b101_0101, 7)));
}

#[test]
fn upper_case_is_that_of_unicode() {
    // U+1E9A has the two characters "A" and U+02BE as its upper case.
    assert_eq!("\u{1e9a}".to_uppercase(), "A\u{2be}");
    assert_eq!(
        parse_command("\u{1e9a}=D"),
        Ok(compute(true, false, false, 0b000_1100, 0))
    );
}

#[test]
fn unknown_operation() {
    assert_eq!(
        parse_command("D=X"),
        Err(ParseError::UnknownOperation("X".to_string()))
    );
    assert_eq!(
        parse_command("d=a+d"),
        Err(ParseError::UnknownOperation("A+D".to_string()))
    );
    assert_eq!(
        parse_command("D = A"),
        Err(ParseError::UnknownOperation(" A".to_string()))
    );
    assert_eq!(
        parse_command(";JMP"),
        Err(ParseError::UnknownOperation("".to_string()))
    );
}

#[test]
fn unknown_jump() {
    assert_eq!(
        parse_command("D;JXX"),
        Err(ParseError::UnknownJump("JXX".to_string()))
    );
    assert_eq!(
        parse_command("0;jump"),
        Err(ParseError::UnknownJump("JUMP".to_string()))
    );
}

#[test]
fn unknown_operation_comes_before_unknown_jump() {
    assert_eq!(
        parse_command("D=Q;JXX"),
        Err(ParseError::UnknownOperation("Q".to_string()))
    );
    assert_eq!(
        compute_instruction("D", "Q", "JXX"),
        Err(ParseError::UnknownOperation("Q".to_string()))
    );
}

#[test]
fn fields_are_cut_at_the_first_sign() {
    // The jump is what follows the first `;` of the line, the destination
    // what precedes the first `=`.
    assert_eq!(
        parse_command("D;J=GT"),
        Err(ParseError::UnknownOperation("GT".to_string()))
    );
    assert_eq!(
        parse_command("D=A;JGT;JMP"),
        Err(ParseError::UnknownJump("JGT;JMP".to_string()))
    );
    assert_eq!(
        parse_command("D=A=M"),
        Err(ParseError::UnknownOperation("A=M".to_string()))
    );
}

#[test]
fn compute_instruction_takes_upper_case_only() {
    assert_eq!(
        compute_instruction("M", "D+1", ""),
        Ok(compute(false, true, false, 0b001_1111, 0))
    );
    assert_eq!(
        compute_instruction("m", "D+1", ""),
        Ok(compute(false, false, false, 0b001_1111, 0))
    );
    assert_eq!(
        compute_instruction("M", "d+1", ""),
        Err(ParseError::UnknownOperation("d+1".to_string()))
    );
    assert_eq!(
        compute_instruction("M", "D+1", "jmp"),
        Err(ParseError::UnknownJump("jmp".to_string()))
    );
}

#[test]
fn word_of_an_address() {
    assert_eq!(
        compile_command(&CommandType::CommandA(CommandValue::Number(2))),
        2
    );
    assert_eq!(
        compile_command(&CommandType::CommandA(CommandValue::Number(32767))),
        32767
    );
    assert_eq!(
        compile_command(&CommandType::CommandA(CommandValue::Number(0))),
        0
    );
}

#[test]
fn word_of_a_compute_instruction() {
    assert_eq!(
        compile_command(&parse_command("D=A").unwrap()),
        0b1110_1100_0001_0000
    );
    assert_eq!(
        compile_command(&parse_command("D=D+A").unwrap()),
        0b1110_0000_1001_0000
    );
    assert_eq!(
        compile_command(&parse_command("M=D").unwrap()),
        0b1110_0011_0000_1000
    );
    assert_eq!(
        compile_command(&parse_command("0;JMP").unwrap()),
        0b1110_1010_1000_0111
    );
    assert_eq!(
        compile_command(&parse_command("AMD=D|M;JNE").unwrap()),
        0b1111_0101_0111_1101
    );
}

#[test]
fn destination_bits_stand_in_the_order_a_d_m() {
    let a = compile_command(&compute(true, false, false, 0, 0));
    let d = compile_command(&compute(false, false, true, 0, 0));
    let m = compile_command(&compute(false, true, false, 0, 0));
    assert_eq!(a, 0xE000 | 1 << 5);
    assert_eq!(d, 0xE000 | 1 << 4);
    assert_eq!(m, 0xE000 | 1 << 3);
}

#[test]
fn word_of_m_gets_d_plus_one() {
    let word = compile_command(&parse_command("M=D+1").unwrap());
    assert_eq!(word & 0b111, 0);
    assert_eq!((word >> 3) & 1, 1);
    assert_eq!((word >> 4) & 0b11, 0);
    assert_eq!((word >> 6) & 0x7F, 0b001_1111);
    assert_eq!(word >> 13, 0b111);
}

#[test]
fn every_field_can_be_read_back_from_the_word() {
    for operation in [0u16, 1, 0b010_1010, 0b111_0111, 127] {
        for jump in 0u16..8 {
            for bits in 0u16..8 {
                let a = bits & 4 != 0;
                let d = bits & 2 != 0;
                let m = bits & 1 != 0;
                let word = compile_command(&compute(a, m, d, operation, jump));
                assert_eq!(word >> 13, 7);
                assert_eq!((word >> 6) & 0x7F, operation);
                assert_eq!((word >> 5) & 1 == 1, a);
                assert_eq!((word >> 4) & 1 == 1, d);
                assert_eq!((word >> 3) & 1 == 1, m);
                assert_eq!(word & 7, jump);
            }
        }
    }
}
