use hack_toolchain::vm_translator::{
    get_segment, parse_command, parse_program, parse_words, ArithmeticOperation, CommandType,
    ParseError, Segment, SyntaxError,
};

fn words(line: &[&str]) -> Vec<String> {
    line.iter().map(|word| word.to_string()).collect()
}

#[test]
fn operators() {
    let table = [
        ("add", ArithmeticOperation::Add),
        ("sub", ArithmeticOperation::Sub),
        ("neg", ArithmeticOperation::Neg),
        ("eq", ArithmeticOperation::Eq),
        ("gt", ArithmeticOperation::Gt),
        ("lt", ArithmeticOperation::Lt),
        ("and", ArithmeticOperation::And),
        ("or", ArithmeticOperation::Or),
        ("not", ArithmeticOperation::Not),
    ];
    for (keyword, operation) in table {
        assert_eq!(parse_command(keyword), Ok(CommandType::Arithmetic(operation)));
    }
}

#[test]
fn segments() {
    let table = [
        ("local", Segment::Local),
        ("argument", Segment::Argument),
        ("this", Segment::This),
        ("that", Segment::That),
        ("constant", Segment::Constant),
        ("static", Segment::Static),
        ("temp", Segment::Temp),
        ("pointer", Segment::Pointer),
    ];
    for (name, segment) in table {
        assert_eq!(get_segment(name), Ok(segment));
        assert_eq!(
            parse_command(&format!("push {} 3", name)),
            Ok(CommandType::Push(segment, 3))
        );
        assert_eq!(
            parse_command(&format!("pop {} 65535", name)),
            Ok(CommandType::Pop(segment, 65535))
        );
    }
}

#[test]
fn unknown_segment() {
    assert_eq!(
        get_segment("heap"),
        Err(ParseError::UnknownSegment("heap".to_string()))
    );
    assert_eq!(
        get_segment("Local"),
        Err(ParseError::UnknownSegment("Local".to_string()))
    );
    assert_eq!(
        get_segment(""),
        Err(ParseError::UnknownSegment("".to_string()))
    );
    assert_eq!(
        parse_command("push heap 1"),
        Err(ParseError::UnknownSegment("heap".to_string()))
    );
}

#[test]
fn branching_commands() {
    assert_eq!(
        parse_command("label LOOP"),
        Ok(CommandType::Label("LOOP".to_string()))
    );
    assert_eq!(
        parse_command("goto LOOP"),
        Ok(CommandType::Goto("LOOP".to_string()))
    );
    assert_eq!(
        parse_command("if-goto END"),
        Ok(CommandType::IfGoto("END".to_string()))
    );
}

#[test]
fn function_commands() {
    assert_eq!(
        parse_command("call Sys.init 0"),
        Ok(CommandType::Call("Sys.init".to_string(), 0))
    );
    assert_eq!(
        parse_command("function Main.main 12"),
        Ok(CommandType::Function("Main.main".to_string(), 12))
    );
    assert_eq!(parse_command("return"), Ok(CommandType::Return));
}

#[test]
fn words_are_cut_at_any_white_space() {
    assert_eq!(
        parse_command("  push\tconstant \u{a0} 7 "),
        Ok(CommandType::Push(Segment::Constant, 7))
    );
    assert_eq!(
        parse_command("\u{2003}return\r"),
        Ok(CommandType::Return)
    );
}

#[test]
fn further_words_count_for_nothing_where_the_count_is_free() {
    assert_eq!(
        parse_command("add 1 2"),
        Ok(CommandType::Arithmetic(ArithmeticOperation::Add))
    );
    assert_eq!(parse_command("return now"), Ok(CommandType::Return));
    assert_eq!(
        parse_command("label A B"),
        Ok(CommandType::Label("A".to_string()))
    );
    assert_eq!(
        parse_command("goto A B C"),
        Ok(CommandType::Goto("A".to_string()))
    );
}

#[test]
fn unknown_command() {
    assert_eq!(
        parse_command("jump LOOP"),
        Err(ParseError::UnknownCommand("jump".to_string()))
    );
    assert_eq!(
        parse_command("ADD"),
        Err(ParseError::UnknownCommand("ADD".to_string()))
    );
    assert_eq!(
        parse_command("if-goto_ x"),
        Err(ParseError::UnknownCommand("if-goto_".to_string()))
    );
}

#[test]
fn wrong_argument_count() {
    for line in [
        "push",
        "push constant",
        "push constant 1 2",
        "pop",
        "pop local",
        "pop local 1 2",
        "call",
        "call f",
        "call f 1 2",
        "function",
        "function f",
        "function f 1 2",
        "label",
        "goto",
        "if-goto",
    ] {
        let keyword = line.split_whitespace().next().unwrap().to_string();
        assert_eq!(
            parse_command(line),
            Err(ParseError::WrongArgumentCount(keyword)),
            "{:?}",
            line
        );
    }
}

#[test]
fn invalid_number() {
    assert_eq!(
        parse_command("push constant x"),
        Err(ParseError::InvalidNumber("x".to_string()))
    );
    assert_eq!(
        parse_command("push constant 65536"),
        Err(ParseError::InvalidNumber("65536".to_string()))
    );
    assert_eq!(
        parse_command("pop local -1"),
        Err(ParseError::InvalidNumber("-1".to_string()))
    );
    assert_eq!(
        parse_command("call f two"),
        Err(ParseError::InvalidNumber("two".to_string()))
    );
    assert_eq!(
        parse_command("function f 1.5"),
        Err(ParseError::InvalidNumber("1.5".to_string()))
    );
}

#[test]
fn count_comes_before_segment_and_segment_before_number() {
    assert_eq!(
        parse_command("push heap"),
        Err(ParseError::WrongArgumentCount("push".to_string()))
    );
    assert_eq!(
        parse_command("push heap x"),
        Err(ParseError::UnknownSegment("heap".to_string()))
    );
    assert_eq!(
        parse_command("call f x y"),
        Err(ParseError::WrongArgumentCount("call".to_string()))
    );
}

#[test]
fn number_with_a_plus_sign() {
    assert_eq!(
        parse_command("push constant +7"),
        Ok(CommandType::Push(Segment::Constant, 7))
    );
}

#[test]
fn commands_from_words() {
    assert_eq!(
        parse_words(&words(&["push", "temp", "3"])),
        Ok(CommandType::Push(Segment::Temp, 3))
    );
    assert_eq!(
        parse_words(&words(&["lt"])),
        Ok(CommandType::Arithmetic(ArithmeticOperation::Lt))
    );
    assert_eq!(
        parse_words(&words(&["function", "f g", "3"])),
        Ok(CommandType::Function("f g".to_string(), 3))
    );
    assert_eq!(
        parse_words(&words(&[""])),
        Err(ParseError::UnknownCommand("".to_string()))
    );
    assert_eq!(
        parse_words(&words(&["push ", "temp", "3"])),
        Err(ParseError::UnknownCommand("push ".to_string()))
    );
}

#[test]
fn program_of_a_source_text() {
    let source = "\
// a function
function Main.add 0   // no locals
    push argument 0
    push argument 1

    add
    return
";
    assert_eq!(
        parse_program(source),
        Ok(vec![
            CommandType::Function("Main.add".to_string(), 0),
            CommandType::Push(Segment::Argument, 0),
            CommandType::Push(Segment::Argument, 1),
            CommandType::Arithmetic(ArithmeticOperation::Add),
            CommandType::Return,
        ])
    );
    assert_eq!(parse_program(""), Ok(Vec::new()));
    assert_eq!(parse_program("// nothing\n\n  \n"), Ok(Vec::new()));
}

#[test]
fn first_line_that_is_no_command_is_reported() {
    assert_eq!(
        parse_program("add\n  push nowhere 1 // oops\nfoo\n"),
        Err(SyntaxError {
            line: "push nowhere 1".to_string(),
            error: ParseError::UnknownSegment("nowhere".to_string()),
        })
    );
}
