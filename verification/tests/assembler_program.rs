use hack_toolchain::assembler::{
    assemble, parse_program, write_listing, AssemblyError, CommandType, CommandValue, ParseError,
    SymbolError,
};

#[test]
fn assembles_three_pairs_of_lines() {
    let listing = assemble("@2\nD=A\n@3\nD=D+A\n@0\nM=D\n").unwrap();
    let lines: Vec<&str> = listing.lines().collect();
    assert_eq!(
        lines,
        vec![
            "0000000000000010",
            "1110110000010000",
            "0000000000000011",
            "1110000010010000",
            "0000000000000000",
            "1110001100001000",
        ]
    );
    assert_eq!(&lines[3][3..10], "0000010");
    assert_eq!(&lines[3][10..13], "010");
    assert_eq!(&lines[3][13..16], "000");
    assert_eq!(&lines[5][3..10], "0001100");
    assert_eq!(&lines[5][10..13], "001");
    assert_eq!(&lines[5][13..16], "000");
}

#[test]
fn every_line_has_sixteen_digits_and_a_line_feed() {
    let listing = assemble("@65535\n0;JMP").unwrap();
    assert_eq!(listing, "1111111111111111\n1110101010000111\n");
}

#[test]
fn empty_source_has_no_words() {
    assert_eq!(assemble(""), Ok(String::new()));
    assert_eq!(assemble("\n\n   \n// nothing\n"), Ok(String::new()));
}

#[test]
fn comments_and_blank_lines_are_left_out() {
    let source = "// adds 1 to RAM[0]\n\n   @0   // address\r\n\tM=M+1 //\n\n//@5\n   \n0;JMP";
    assert_eq!(
        parse_program(source),
        Ok(vec![
            CommandType::CommandA(CommandValue::Number(0)),
            CommandType::CommandC {
                destination_a: false,
                destination_m: true,
                destination_d: false,
                operation: 0b111_0111,
                jump_condition: 0,
            },
            CommandType::CommandC {
                destination_a: false,
                destination_m: false,
                destination_d: false,
                operation: 0b010_1010,
                jump_condition: 7,
            },
        ])
    );
}

#[test]
fn labels_and_variables_in_a_whole_program() {
    let source = "\
// sums 1..n
    @n
    D=M
    @i
    M=D
(LOOP)
    @i
    D=M
    @END
    D;JEQ
    @sum
    M=D+M
    @i
    M=M-1
    @LOOP
    0;JMP
(END)
    @END
    0;JMP
";
    let listing = assemble(source).unwrap();
    let lines: Vec<&str> = listing.lines().collect();
    assert_eq!(
        lines,
        vec![
            "0000000000010000", // @n = 16
            "1111110000010000", // D=M
            "0000000000010001", // @i = 17
            "1110001100001000", // M=D
            "0000000000010001", // @i
            "1111110000010000", // D=M
            "0000000000001110", // @END = 14
            "1110001100000010", // D;JEQ
            "0000000000010010", // @sum = 18
            "1111000010001000", // M=D+M
            "0000000000010001", // @i
            "1111110010001000", // M=M-1
            "0000000000000100", // @LOOP = 4
            "1110101010000111", // 0;JMP
            "0000000000001110", // @END
            "1110101010000111", // 0;JMP
        ]
    );
}

#[test]
fn first_line_that_is_no_instruction_is_reported() {
    assert_eq!(
        assemble("@1\n  D=Q // what\n(OPEN\n"),
        Err(AssemblyError::Syntax {
            line: "D=Q".to_string(),
            error: ParseError::UnknownOperation("Q".to_string()),
        })
    );
    assert_eq!(
        assemble("@1\n(OPEN\nD=Q"),
        Err(AssemblyError::Syntax {
            line: "(OPEN".to_string(),
            error: ParseError::MissingParenthesis,
        })
    );
    assert_eq!(
        assemble("0;JUMP"),
        Err(AssemblyError::Syntax {
            line: "0;JUMP".to_string(),
            error: ParseError::UnknownJump("JUMP".to_string()),
        })
    );
}

#[test]
fn syntax_is_reported_before_symbols() {
    assert_eq!(
        assemble("(A)\n(A)\nD=Q"),
        Err(AssemblyError::Syntax {
            line: "D=Q".to_string(),
            error: ParseError::UnknownOperation("Q".to_string()),
        })
    );
}

#[test]
fn errors_of_resolution_are_passed_on() {
    assert_eq!(
        assemble("(A)\n0\n(A)\n"),
        Err(AssemblyError::Symbols(SymbolError::DuplicateLabel(
            "A".to_string()
        )))
    );
    let long: String = "0\n".repeat(32769);
    assert_eq!(
        assemble(&long),
        Err(AssemblyError::Symbols(SymbolError::ProgramTooLong))
    );
    let mut many = String::new();
    for i in 0..32753 {
        many.push_str(&format!("@v{}\n", i));
    }
    assert_eq!(
        assemble(&many),
        Err(AssemblyError::Symbols(SymbolError::TooManyVariables))
    );
}

#[test]
fn listing_of_given_instructions() {
    let commands = vec![
        CommandType::CommandA(CommandValue::Number(1)),
        CommandType::CommandA(CommandValue::Number(0x4000)),
        CommandType::CommandC {
            destination_a: true,
            destination_m: false,
            destination_d: false,
            operation: 0,
            jump_condition: 0,
        },
    ];
    assert_eq!(
        write_listing(&commands),
        "0000000000000001\n0100000000000000\n1110000000100000\n"
    );
    assert_eq!(write_listing(&Vec::new()), "");
}

#[test]
fn listing_agrees_with_std_formatting() {
    for word in [0u16, 1, 2, 255, 256, 0x7FFF, 0x8000, 0xAAAA, 0x5555, 0xFFFF] {
        let commands = vec![CommandType::CommandA(CommandValue::Number(word))];
        assert_eq!(write_listing(&commands), format!("{:0>16b}\n", word));
    }
}
