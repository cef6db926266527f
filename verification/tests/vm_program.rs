use hack_toolchain::assembler::assemble;
use hack_toolchain::vm_translator::{
    bootstrap, translate, CodeGenerator, CompileError, ParseError, SourceUnit, SyntaxError,
    TranslationError, UnitError,
};

fn unit(name: &str, text: &str) -> SourceUnit {
    SourceUnit {
        name: name.to_string(),
        text: text.to_string(),
    }
}

/// The machine: 32K words of data memory, the registers `A` and `D`, and a
/// program counter into the words of a program.
struct Machine {
    ram: Vec<u16>,
    a: u16,
    d: u16,
    pc: usize,
}

fn machine() -> Machine {
    Machine {
        ram: vec![0; 32768],
        a: 0,
        d: 0,
        pc: 0,
    }
}

fn compute(bits: u16, x: u16, y: u16) -> u16 {
    let mut x = x;
    let mut y = y;
    if bits & 0b100000 != 0 {
        x = 0;
    }
    if bits & 0b010000 != 0 {
        x = !x;
    }
    if bits & 0b001000 != 0 {
        y = 0;
    }
    if bits & 0b000100 != 0 {
        y = !y;
    }
    let mut out = if bits & 0b000010 != 0 {
        x.wrapping_add(y)
    } else {
        x & y
    };
    if bits & 0b000001 != 0 {
        out = !out;
    }
    out
}

/// Runs the program until it leaves its words or `steps` instructions have
/// run.
fn run(machine: &mut Machine, rom: &[u16], steps: usize) {
    for _ in 0..steps {
        if machine.pc >= rom.len() {
            return;
        }
        let word = rom[machine.pc];
        if word & 0x8000 == 0 {
            machine.a = word;
            machine.pc += 1;
            continue;
        }
        let address = (machine.a & 0x7FFF) as usize;
        let y = if word & 0x1000 != 0 {
            machine.ram[address]
        } else {
            machine.a
        };
        let out = compute((word >> 6) & 0x3F, machine.d, y);
        if word & 0b001000 != 0 {
            machine.ram[address] = out;
        }
        if word & 0b100000 != 0 {
            machine.a = out;
        }
        if word & 0b010000 != 0 {
            machine.d = out;
        }
        let negative = out & 0x8000 != 0;
        let zero = out == 0;
        let jump = (word & 0b100 != 0 && negative)
            || (word & 0b010 != 0 && zero)
            || (word & 0b001 != 0 && !negative && !zero);
        if jump {
            machine.pc = machine.a as usize;
        } else {
            machine.pc += 1;
        }
    }
}

fn words_of(assembly: &str) -> Vec<u16> {
    assemble(assembly)
        .unwrap()
        .lines()
        .map(|line| u16::from_str_radix(line, 2).unwrap())
        .collect()
}

fn translated(text: &str) -> Vec<u16> {
    words_of(&translate(&vec![unit("Test", text)], false).unwrap())
}

fn top(machine: &Machine) -> u16 {
    machine.ram[machine.ram[0] as usize - 1]
}

fn run_on_stack(text: &str) -> Machine {
    let rom = translated(text);
    let mut machine = machine();
    machine.ram[0] = 256;
    run(&mut machine, &rom, 100_000);
    machine
}

#[test]
fn seven_plus_eight() {
    let machine = run_on_stack("push constant 7\npush constant 8\nadd\n");
    assert_eq!(machine.ram[0], 257);
    assert_eq!(machine.ram[256], 15);
    assert_eq!(top(&machine), 15);
}

#[test]
fn arithmetic_on_the_stack() {
    assert_eq!(top(&run_on_stack("push constant 7\npush constant 8\nsub")), (-1i16) as u16);
    assert_eq!(top(&run_on_stack("push constant 7\nneg")), (-7i16) as u16);
    assert_eq!(top(&run_on_stack("push constant 12\npush constant 10\nand")), 8);
    assert_eq!(top(&run_on_stack("push constant 12\npush constant 10\nor")), 14);
    assert_eq!(top(&run_on_stack("push constant 0\nnot")), 0xFFFF);
    assert_eq!(top(&run_on_stack("push constant 0\npush constant 1\nadd")), 1);
}

#[test]
fn comparisons_leave_true_or_false() {
    for (first, second, eq, gt, lt) in [
        (3, 3, 0xFFFF, 0, 0),
        (4, 3, 0, 0xFFFF, 0),
        (3, 4, 0, 0, 0xFFFF),
    ] {
        for (operator, expected) in [("eq", eq), ("gt", gt), ("lt", lt)] {
            let text = format!(
                "push constant 99\npush constant {}\npush constant {}\n{}\n",
                first, second, operator
            );
            let machine = run_on_stack(&text);
            assert_eq!(machine.ram[0], 258, "{}", text);
            assert_eq!(top(&machine), expected, "{}", text);
            assert_eq!(machine.ram[256], 99);
        }
    }
}

#[test]
fn comparisons_in_a_row() {
    let machine = run_on_stack(
        "push constant 1\npush constant 1\neq\npush constant 2\npush constant 1\neq\npush constant 5\npush constant 6\nlt\n",
    );
    assert_eq!(machine.ram[0], 259);
    assert_eq!(&machine.ram[256..259], &[0xFFFF, 0, 0xFFFF]);
}

#[test]
fn segments_are_read_and_written() {
    let rom = translated(
        "push constant 10\npop local 0\npush constant 21\npop argument 2\npush constant 36\npop this 6\n\
         push constant 45\npop that 5\npush constant 510\npop temp 6\npush constant 7\npop static 3\n\
         push local 0\npush that 5\nadd\npush argument 2\nsub\npush this 6\nadd\npush temp 6\nadd\npush static 3\nadd\n",
    );
    let mut machine = machine();
    machine.ram[0] = 256;
    machine.ram[1] = 300;
    machine.ram[2] = 400;
    machine.ram[3] = 3000;
    machine.ram[4] = 3010;
    run(&mut machine, &rom, 100_000);
    assert_eq!(machine.ram[300], 10);
    assert_eq!(machine.ram[402], 21);
    assert_eq!(machine.ram[3006], 36);
    assert_eq!(machine.ram[3015], 45);
    assert_eq!(machine.ram[11], 510);
    assert_eq!(machine.ram[16], 7);
    assert_eq!(machine.ram[0], 257);
    assert_eq!(top(&machine), 10 + 45 - 21 + 36 + 510 + 7);
}

#[test]
fn pointer_segment_is_this_and_that() {
    let machine = run_on_stack(
        "push constant 3030\npop pointer 0\npush constant 3040\npop pointer 1\n\
         push constant 32\npop this 2\npush constant 46\npop that 6\n\
         push pointer 0\npush pointer 1\nadd\npush this 2\nsub\npush that 6\nadd\n",
    );
    assert_eq!(machine.ram[3], 3030);
    assert_eq!(machine.ram[4], 3040);
    assert_eq!(machine.ram[3032], 32);
    assert_eq!(machine.ram[3046], 46);
    assert_eq!(top(&machine), 3030 + 3040 - 32 + 46);
}

#[test]
fn branching_loops() {
    let machine = run_on_stack(
        "push constant 0\npop temp 0\npush constant 5\npop temp 1\n\
         label LOOP\npush temp 0\npush temp 1\nadd\npop temp 0\n\
         push temp 1\npush constant 1\nsub\npop temp 1\npush temp 1\nif-goto LOOP\npush temp 0\n",
    );
    assert_eq!(top(&machine), 15);
    assert_eq!(machine.ram[0], 257);
}

#[test]
fn call_and_return_restore_the_caller() {
    let rom = translated(
        "push constant 3\npush constant 4\ncall f 2\nlabel END\ngoto END\n\
         function f 2\npush argument 0\npush argument 1\nadd\npop local 1\n\
         push constant 1234\npop pointer 0\npush constant 4321\npop pointer 1\npush local 1\nreturn\n",
    );
    let mut machine = machine();
    machine.ram[0] = 256;
    machine.ram[1] = 300;
    machine.ram[2] = 400;
    machine.ram[3] = 3000;
    machine.ram[4] = 4000;
    run(&mut machine, &rom, 10_000);
    assert_eq!(machine.ram[1], 300);
    assert_eq!(machine.ram[2], 400);
    assert_eq!(machine.ram[3], 3000);
    assert_eq!(machine.ram[4], 4000);
    assert_eq!(machine.ram[0], 257);
    assert_eq!(machine.ram[256], 7);
}

#[test]
fn call_without_arguments_and_function_without_locals() {
    let rom = translated(
        "push constant 11\ncall g 0\nadd\nlabel END\ngoto END\n\
         function g 0\npush constant 31\nreturn\n",
    );
    let mut machine = machine();
    machine.ram[0] = 256;
    machine.ram[1] = 1000;
    machine.ram[2] = 2000;
    machine.ram[3] = 3000;
    machine.ram[4] = 4000;
    run(&mut machine, &rom, 10_000);
    assert_eq!(machine.ram[1], 1000);
    assert_eq!(machine.ram[2], 2000);
    assert_eq!(machine.ram[3], 3000);
    assert_eq!(machine.ram[4], 4000);
    assert_eq!(machine.ram[0], 257);
    assert_eq!(machine.ram[256], 42);
}

#[test]
fn one_function_called_from_two_sites() {
    let rom = translated(
        "push constant 5\ncall double 1\ncall double 1\ncall double 1\nlabel END\ngoto END\n\
         function double 0\npush argument 0\npush argument 0\nadd\nreturn\n",
    );
    let mut machine = machine();
    machine.ram[0] = 256;
    run(&mut machine, &rom, 10_000);
    assert_eq!(machine.ram[0], 257);
    assert_eq!(machine.ram[256], 40);
}

#[test]
fn recursion() {
    let text = "\
function Sys.init 0
    push constant 6
    call Main.sum 1
label HALT
    goto HALT
function Main.sum 1
    push argument 0
    push constant 0
    eq
    if-goto BASE
    push argument 0
    push constant 1
    sub
    call Main.sum 1
    push argument 0
    add
    return
label BASE
    push constant 0
    return
";
    let assembly = translate(&vec![unit("Main", text)], true).unwrap();
    let rom = words_of(&assembly);
    let mut machine = machine();
    run(&mut machine, &rom, 100_000);
    assert_eq!(top(&machine), 21);
    assert_eq!(machine.ram[0], 262);
}

#[test]
fn bootstrap_code() {
    let mut state = CodeGenerator::new();
    let mut output = String::new();
    bootstrap(&mut output, &mut state);
    assert_eq!(
        output,
        "@256\nD=A\n@SP\nM=D\n\
@$ret.0\nD=A\n@SP\nAM=M\nM=D\n\
@LCL\nD=M\n@SP\nAM=M+1\nM=D\n\
@ARG\nD=M\n@SP\nAM=M+1\nM=D\n\
@THIS\nD=M\n@SP\nAM=M+1\nM=D\n\
@THAT\nD=M\n@SP\nAM=M+1\nM=D\n\
@SP\nMD=M+1\n@LCL\nM=D\n@5\nD=D-A\n@ARG\nM=D\n\
@Sys.init\n0;JMP\n\
($ret.0)\n"
    );
    assert_eq!(state.command_number, 1);
    assert_eq!(state.current_function, "");
}

#[test]
fn translation_with_and_without_bootstrap() {
    let units = vec![unit("Main", "function Sys.init 0\nlabel X\ngoto X\n")];
    let with = translate(&units, true).unwrap();
    let without = translate(&units, false).unwrap();
    assert_eq!(without, "(Sys.init)\n(Sys.init$X)\n@Sys.init$X\n0;JMP\n");
    let mut state = CodeGenerator::new();
    let mut start = String::new();
    bootstrap(&mut start, &mut state);
    assert_eq!(with, format!("{}{}", start, without));
    assert_eq!(translate(&Vec::new(), false), Ok(String::new()));
    assert_eq!(translate(&Vec::new(), true), Ok(start));
}

#[test]
fn commands_are_numbered_through_all_units() {
    let units = vec![
        unit("One", "eq\npush static 0\n"),
        unit("Two", "push static 0\neq\ncall f 0\n"),
    ];
    let text = translate(&units, true).unwrap();
    let declared: Vec<&str> = text.lines().filter(|line| line.starts_with('(')).collect();
    assert_eq!(
        declared,
        vec![
            "($ret.0)",
            "(__COND_$1)",
            "(__COND_END_$1)",
            "(__COND_$4)",
            "(__COND_END_$4)",
            "($ret.5)",
        ]
    );
    assert!(text.contains("@One.0\n"));
    assert!(text.contains("@Two.0\n"));
    let plain = translate(&units, false).unwrap();
    assert!(plain.contains("(__COND_$0)\n"));
    assert!(plain.contains("(__COND_$3)\n"));
    assert!(plain.contains("($ret.4)\n"));
}

#[test]
fn function_goes_on_into_the_next_unit() {
    let units = vec![
        unit("One", "function f 0\n"),
        unit("Two", "label L\n"),
    ];
    assert_eq!(translate(&units, false).unwrap(), "(f)\n(f$L)\n");
}

#[test]
fn translation_reports_the_unit_and_the_line() {
    let units = vec![
        unit("One", "add\n"),
        unit("Two", "sub\n  pusj constant 1 // typo\nnonsense\n"),
        unit("Three", "pop constant 1\n"),
    ];
    assert_eq!(
        translate(&units, true),
        Err(TranslationError {
            unit: "Two".to_string(),
            error: UnitError::Syntax(SyntaxError {
                line: "pusj constant 1".to_string(),
                error: ParseError::UnknownCommand("pusj".to_string()),
            }),
        })
    );
}

#[test]
fn translation_reports_a_command_without_code() {
    let units = vec![
        unit("One", "add\n"),
        unit("Two", "push temp 8\n"),
        unit("Three", "foo\n"),
    ];
    assert_eq!(
        translate(&units, false),
        Err(TranslationError {
            unit: "Two".to_string(),
            error: UnitError::Compile(CompileError::InvalidTempOffset(8)),
        })
    );
    assert_eq!(
        translate(&vec![unit("U", "pop pointer 2")], false),
        Err(TranslationError {
            unit: "U".to_string(),
            error: UnitError::Compile(CompileError::InvalidPointerOffset(2)),
        })
    );
    assert_eq!(
        translate(&vec![unit("U", "pop constant 2")], false),
        Err(TranslationError {
            unit: "U".to_string(),
            error: UnitError::Compile(CompileError::ConstantNotWritable),
        })
    );
}

#[test]
fn a_line_that_is_no_command_comes_before_a_command_without_code() {
    let units = vec![unit("U", "pop constant 2\nfoo\n")];
    assert_eq!(
        translate(&units, false),
        Err(TranslationError {
            unit: "U".to_string(),
            error: UnitError::Syntax(SyntaxError {
                line: "foo".to_string(),
                error: ParseError::UnknownCommand("foo".to_string()),
            }),
        })
    );
}

#[test]
fn what_the_translator_writes_the_assembler_reads() {
    let text = "\
function Main.main 2
    push constant 0
    push constant 1
    push constant 65535
    push constant 300
    eq
    gt
    lt
    pop local 0
    push static 1
    pop temp 7
    label L
    if-goto L
    goto L
    call Main.main 0
    return
";
    let assembly = translate(&vec![unit("Main", text)], true).unwrap();
    assert!(assemble(&assembly).is_ok());
}
