//! Code generation: the assembly text that each command becomes.

use vstd::prelude::*;
use vstd::string::StringExecFns;
use crate::text::{decimal, push_decimal};
use crate::vm_translator::labels::{
    cond_end_label, cond_label, lemma_comparison_labels_distinct, lemma_return_labels_distinct,
    return_label, scoped_label, static_symbol,
};
use crate::vm_translator::command::{views, ArithmeticOperation, CommandType, CommandView, Segment};

verus! {

/// Why a command has no code.
#[derive(Clone, Copy, Debug, PartialEq, Eq, Structural)]
pub enum CompileError {
    /// The `temp` segment has eight cells: the offset is above 7.
    InvalidTempOffset(u16),
    /// The `pointer` segment has two cells: the offset is neither 0 nor 1.
    InvalidPointerOffset(u16),
    /// `pop constant`: the `constant` segment cannot be written.
    ConstantNotWritable,
}

/// Pops `y`, then replaces the new top `x` by the result of `compute`,
/// which finds `y` in `D` and `x` in `M`.
pub open spec fn binary_code(compute: Seq<char>) -> Seq<char> {
    "@SP\nAM=M-1\nD=M\nA=A-1\n"@ + compute + "\n"@
}

/// Replaces the top of the stack by the result of `compute`, which finds it
/// in `M`.
pub open spec fn unary_code(compute: Seq<char>) -> Seq<char> {
    "@SP\nA=M-1\n"@ + compute + "\n"@
}

/// Pops `y`, then replaces the new top `x` by -1 if `x - y` satisfies `jump`
/// and by 0 if not, branching over two labels of its own.
pub open spec fn comparison_code(jump: Seq<char>, function: Seq<char>, number: nat) -> Seq<char> {
    "@SP\nAM=M-1\nD=M\nA=A-1\nD=M-D\n@"@ + cond_label(function, number) + "\nD;"@ + jump
        + "\n@SP\nA=M-1\nM=0\n@"@ + cond_end_label(function, number) + "\n0;JMP\n("@ + cond_label(
        function,
        number,
    ) + ")\n@SP\nA=M-1\nM=-1\n("@ + cond_end_label(function, number) + ")\n"@
}

/// The code of an arithmetic or logical operator.
pub open spec fn arithmetic_code(
    operation: ArithmeticOperation,
    function: Seq<char>,
    number: nat,
) -> Seq<char> {
    match operation {
        ArithmeticOperation::Add => binary_code("M=D+M"@),
        ArithmeticOperation::Sub => binary_code("M=M-D"@),
        ArithmeticOperation::Neg => unary_code("M=-M"@),
        ArithmeticOperation::Eq => comparison_code("JEQ"@, function, number),
        ArithmeticOperation::Gt => comparison_code("JGT"@, function, number),
        ArithmeticOperation::Lt => comparison_code("JLT"@, function, number),
        ArithmeticOperation::And => binary_code("M=D&M"@),
        ArithmeticOperation::Or => binary_code("M=D|M"@),
        ArithmeticOperation::Not => unary_code("M=!M"@),
    }
}

/// The register that holds the base address of a segment reached through a
/// pointer, if `segment` is one.
pub open spec fn base_register(segment: Segment) -> Option<Seq<char>> {
    match segment {
        Segment::Local => Some("LCL"@),
        Segment::Argument => Some("ARG"@),
        Segment::This => Some("THIS"@),
        Segment::That => Some("THAT"@),
        _ => None,
    }
}

/// Code that leaves in `D` the value of cell `offset` of `segment`; the
/// final line break is left to the caller.
pub open spec fn load_code(file_name: Seq<char>, segment: Segment, offset: u16) -> Result<
    Seq<char>,
    CompileError,
> {
    match segment {
        Segment::Local | Segment::Argument | Segment::This | Segment::That => Ok(
            "@"@ + base_register(segment)->Some_0 + "\nD=M\n@"@ + decimal(offset as nat)
                + "\nA=D+A\nD=M"@,
        ),
        Segment::Constant => Ok(
            if offset == 0 {
                "D=0"@
            } else if offset == 1 {
                "D=1"@
            } else if offset == 0xFFFF {
                "D=-1"@
            } else {
                "@"@ + decimal(offset as nat) + "\nD=A"@
            },
        ),
        Segment::Static => Ok("@"@ + static_symbol(file_name, offset) + "\nD=M"@),
        Segment::Temp => if offset <= 7 {
            Ok("@"@ + decimal((offset + 5) as nat) + "\nD=M"@)
        } else {
            Err(CompileError::InvalidTempOffset(offset))
        },
        Segment::Pointer => if offset == 0 {
            Ok("@THIS\nD=M"@)
        } else if offset == 1 {
            Ok("@THAT\nD=M"@)
        } else {
            Err(CompileError::InvalidPointerOffset(offset))
        },
    }
}

/// Code that leaves in `D` the address of cell `offset` of `segment`; the
/// final line break is left to the caller.
pub open spec fn address_code(file_name: Seq<char>, segment: Segment, offset: u16) -> Result<
    Seq<char>,
    CompileError,
> {
    match segment {
        Segment::Local | Segment::Argument | Segment::This | Segment::That => Ok(
            "@"@ + base_register(segment)->Some_0 + "\nD=M\n@"@ + decimal(offset as nat)
                + "\nD=D+A"@,
        ),
        Segment::Constant => Err(CompileError::ConstantNotWritable),
        Segment::Static => Ok("@"@ + static_symbol(file_name, offset) + "\nD=A"@),
        Segment::Temp => if offset <= 7 {
            Ok("@"@ + decimal((offset + 5) as nat) + "\nD=A"@)
        } else {
            Err(CompileError::InvalidTempOffset(offset))
        },
        Segment::Pointer => if offset == 0 {
            Ok("@THIS\nD=A"@)
        } else if offset == 1 {
            Ok("@THAT\nD=A"@)
        } else {
            Err(CompileError::InvalidPointerOffset(offset))
        },
    }
}

/// The code of `push segment offset`.
pub open spec fn push_code(file_name: Seq<char>, segment: Segment, offset: u16) -> Result<
    Seq<char>,
    CompileError,
> {
    match load_code(file_name, segment, offset) {
        Ok(load) => Ok(load + "\n@SP\nAM=M+1\nA=A-1\nM=D\n"@),
        Err(error) => Err(error),
    }
}

/// The code of `pop segment offset`: the address is kept in `R13` while the
/// value is taken from the stack.
pub open spec fn pop_code(file_name: Seq<char>, segment: Segment, offset: u16) -> Result<
    Seq<char>,
    CompileError,
> {
    match address_code(file_name, segment, offset) {
        Ok(address) => Ok(address + "\n@R13\nM=D\n@SP\nAM=M-1\nD=M\n@R13\nA=M\nM=D\n"@),
        Err(error) => Err(error),
    }
}

/// The code of `call callee arguments`: pushes the return address and the
/// caller's `LCL`, `ARG`, `THIS` and `THAT`, sets `ARG` to the first argument
/// and `LCL` to the new top, jumps, and declares the return address.
pub open spec fn call_code(
    function: Seq<char>,
    number: nat,
    callee: Seq<char>,
    arguments: u16,
) -> Seq<char> {
    "@"@ + return_label(function, number) + "\nD=A\n@SP\nAM=M\nM=D\n"@
        + "@LCL\nD=M\n@SP\nAM=M+1\nM=D\n"@ + "@ARG\nD=M\n@SP\nAM=M+1\nM=D\n"@
        + "@THIS\nD=M\n@SP\nAM=M+1\nM=D\n"@ + "@THAT\nD=M\n@SP\nAM=M+1\nM=D\n"@
        + "@SP\nMD=M+1\n@LCL\nM=D\n@"@ + decimal((arguments + 5) as nat) + "\nD=D-A\n@ARG\nM=D\n@"@
        + callee + "\n0;JMP\n("@ + return_label(function, number) + ")\n"@
}

/// `count` copies of `piece`, one after the other.
pub open spec fn repeated(piece: Seq<char>, count: nat) -> Seq<char>
    decreases count,
{
    if count == 0 {
        Seq::<char>::empty()
    } else {
        repeated(piece, (count - 1) as nat) + piece
    }
}

/// The code of `function name locals`: the entry label, then `locals` zeroed
/// stack cells.
pub open spec fn function_code(name: Seq<char>, locals: u16) -> Seq<char> {
    if locals == 0 {
        "("@ + name + ")\n"@
    } else {
        "("@ + name + ")\n"@ + "@SP\nA=M\n"@ + repeated("M=0\nAD=A+1\n"@, locals as nat)
            + "@SP\nM=D\n"@
    }
}

/// The code of `return`: keeps the return address in `R14`, stores the
/// result where the first argument was, puts the stack pointer just above it,
/// restores `THAT`, `THIS`, `ARG` and `LCL` from the frame, and jumps.
pub open spec fn return_code() -> Seq<char> {
    "@5\nD=A\n@LCL\nA=M-D\nD=M\n@R14\nM=D\n"@ + "@SP\nAM=M-1\nD=M\n@ARG\nA=M\nM=D\n"@
        + "D=A+1\n@SP\nM=D\n"@ + "@LCL\nD=M\n@R13\nM=D\n"@ + "@R13\nAM=M-1\nD=M\n@THAT\nM=D\n"@
        + "@R13\nAM=M-1\nD=M\n@THIS\nM=D\n"@ + "@R13\nAM=M-1\nD=M\n@ARG\nM=D\n"@
        + "@R13\nAM=M-1\nD=M\n@LCL\nM=D\n"@ + "@R14\nA=M\n0;JMP\n"@
}

/// The code of one command: the unit is `file_name`, the command stands
/// inside `function` and is the `number`-th of the whole run.
pub open spec fn command_code(
    file_name: Seq<char>,
    function: Seq<char>,
    number: nat,
    command: CommandView,
) -> Result<Seq<char>, CompileError> {
    match command {
        CommandView::Arithmetic(operation) => Ok(arithmetic_code(operation, function, number)),
        CommandView::Push(segment, offset) => push_code(file_name, segment, offset),
        CommandView::Pop(segment, offset) => pop_code(file_name, segment, offset),
        CommandView::Label(label) => Ok("("@ + scoped_label(function, label) + ")\n"@),
        CommandView::Goto(label) => Ok("@"@ + scoped_label(function, label) + "\n0;JMP\n"@),
        CommandView::IfGoto(label) => Ok(
            "@SP\nAM=M-1\nD=M\n@"@ + scoped_label(function, label) + "\nD;JNE\n"@,
        ),
        CommandView::Call(callee, arguments) => Ok(call_code(function, number, callee, arguments)),
        CommandView::Function(name, locals) => Ok(function_code(name, locals)),
        CommandView::Return => Ok(return_code()),
    }
}


/// The state that code generation carries from one command to the next.
pub struct CodeGenerator {
    /// The function that the last `function` command opened; empty before
    /// the first one. Labels are scoped by it.
    pub current_function: String,
    /// How many commands have been compiled so far. It is never reset, so
    /// that a label made from it is made only once.
    pub command_number: u128,
}

/// The mathematical value of a [`CodeGenerator`].
pub struct GeneratorView {
    pub current_function: Seq<char>,
    pub command_number: nat,
}

impl GeneratorView {
    /// The state after `command` has been compiled.
    pub open spec fn advanced(self, command: CommandView) -> GeneratorView {
        GeneratorView {
            current_function: match command {
                CommandView::Function(name, _) => name,
                _ => self.current_function,
            },
            command_number: self.command_number + 1,
        }
    }
}

impl View for CodeGenerator {
    type V = GeneratorView;

    open spec fn view(&self) -> GeneratorView {
        GeneratorView {
            current_function: self.current_function@,
            command_number: self.command_number as nat,
        }
    }
}

fn numbered_label(prefix: &str, function: &str, number: u128) -> (label: String)
    ensures
        label@ == prefix@ + function@ + "$"@ + decimal(number as nat),
{
    let mut label = String::from_str(prefix);
    label.append(function);
    label.append("$");
    push_decimal(&mut label, number);
    label
}

fn return_label_string(function: &str, number: u128) -> (label: String)
    ensures
        label@ == return_label(function@, number as nat),
{
    let mut label = String::from_str(function);
    label.append("$ret.");
    push_decimal(&mut label, number);
    label
}

fn scoped_label_string(function: &str, name: &str) -> (label: String)
    ensures
        label@ == scoped_label(function@, name@),
{
    let mut label = String::from_str(function);
    label.append("$");
    label.append(name);
    label
}

fn binary(compute: &str) -> (code: String)
    ensures
        code@ == binary_code(compute@),
{
    let mut code = String::from_str("@SP\nAM=M-1\nD=M\nA=A-1\n");
    code.append(compute);
    code.append("\n");
    code
}

fn unary(compute: &str) -> (code: String)
    ensures
        code@ == unary_code(compute@),
{
    let mut code = String::from_str("@SP\nA=M-1\n");
    code.append(compute);
    code.append("\n");
    code
}

fn comparison(jump: &str, function: &str, number: u128) -> (code: String)
    ensures
        code@ == comparison_code(jump@, function@, number as nat),
{
    let taken = numbered_label("__COND_", function, number);
    let end = numbered_label("__COND_END_", function, number);
    let mut code = String::from_str("@SP\nAM=M-1\nD=M\nA=A-1\nD=M-D\n@");
    code.append(taken.as_str());
    code.append("\nD;");
    code.append(jump);
    code.append("\n@SP\nA=M-1\nM=0\n@");
    code.append(end.as_str());
    code.append("\n0;JMP\n(");
    code.append(taken.as_str());
    code.append(")\n@SP\nA=M-1\nM=-1\n(");
    code.append(end.as_str());
    code.append(")\n");
    code
}

fn arithmetic(operation: ArithmeticOperation, function: &str, number: u128) -> (code: String)
    ensures
        code@ == arithmetic_code(operation, function@, number as nat),
{
    match operation {
        ArithmeticOperation::Add => binary("M=D+M"),
        ArithmeticOperation::Sub => binary("M=M-D"),
        ArithmeticOperation::Neg => unary("M=-M"),
        ArithmeticOperation::Eq => comparison("JEQ", function, number),
        ArithmeticOperation::Gt => comparison("JGT", function, number),
        ArithmeticOperation::Lt => comparison("JLT", function, number),
        ArithmeticOperation::And => binary("M=D&M"),
        ArithmeticOperation::Or => binary("M=D|M"),
        ArithmeticOperation::Not => unary("M=!M"),
    }
}

fn at_static(file_name: &str, offset: u16) -> (code: String)
    ensures
        code@ == "@"@ + static_symbol(file_name@, offset),
{
    let mut symbol = String::from_str(file_name);
    symbol.append(".");
    push_decimal(&mut symbol, offset as u128);
    let mut code = String::from_str("@");
    code.append(symbol.as_str());
    code
}

fn at_number(number: u128) -> (code: String)
    ensures
        code@ == "@"@ + decimal(number as nat),
{
    let mut code = String::from_str("@");
    push_decimal(&mut code, number);
    code
}

/// `@register`, `D=M`, `@offset`, then `tail`: the start of every access
/// to a segment that is reached through a pointer.
fn based(register: &str, offset: u16, tail: &str) -> (code: String)
    ensures
        code@ == "@"@ + register@ + "\nD=M\n@"@ + decimal(offset as nat) + tail@,
{
    let mut code = String::from_str("@");
    code.append(register);
    code.append("\nD=M\n@");
    push_decimal(&mut code, offset as u128);
    code.append(tail);
    code
}

fn load(file_name: &str, segment: Segment, offset: u16) -> (result: Result<String, CompileError>)
    ensures
        match load_code(file_name@, segment, offset) {
            Ok(code) => result matches Ok(text) && text@ == code,
            Err(error) => result matches Err(e) && e == error,
        },
{
    match segment {
        Segment::Constant => {
            if offset == 0 {
                Ok(String::from_str("D=0"))
            } else if offset == 1 {
                Ok(String::from_str("D=1"))
            } else if offset == 0xFFFF {
                Ok(String::from_str("D=-1"))
            } else {
                let mut code = at_number(offset as u128);
                code.append("\nD=A");
                Ok(code)
            }
        },
        Segment::Static => {
            let mut code = at_static(file_name, offset);
            code.append("\nD=M");
            Ok(code)
        },
        Segment::Temp => {
            if offset <= 7 {
                let mut code = at_number((offset + 5) as u128);
                code.append("\nD=M");
                Ok(code)
            } else {
                Err(CompileError::InvalidTempOffset(offset))
            }
        },
        Segment::Pointer => {
            if offset == 0 {
                Ok(String::from_str("@THIS\nD=M"))
            } else if offset == 1 {
                Ok(String::from_str("@THAT\nD=M"))
            } else {
                Err(CompileError::InvalidPointerOffset(offset))
            }
        },
        Segment::Local => Ok(based("LCL", offset, "\nA=D+A\nD=M")),
        Segment::Argument => Ok(based("ARG", offset, "\nA=D+A\nD=M")),
        Segment::This => Ok(based("THIS", offset, "\nA=D+A\nD=M")),
        Segment::That => Ok(based("THAT", offset, "\nA=D+A\nD=M")),
    }
}

fn address(file_name: &str, segment: Segment, offset: u16) -> (result: Result<String, CompileError>)
    ensures
        match address_code(file_name@, segment, offset) {
            Ok(code) => result matches Ok(text) && text@ == code,
            Err(error) => result matches Err(e) && e == error,
        },
{
    match segment {
        Segment::Constant => Err(CompileError::ConstantNotWritable),
        Segment::Static => {
            let mut code = at_static(file_name, offset);
            code.append("\nD=A");
            Ok(code)
        },
        Segment::Temp => {
            if offset <= 7 {
                let mut code = at_number((offset + 5) as u128);
                code.append("\nD=A");
                Ok(code)
            } else {
                Err(CompileError::InvalidTempOffset(offset))
            }
        },
        Segment::Pointer => {
            if offset == 0 {
                Ok(String::from_str("@THIS\nD=A"))
            } else if offset == 1 {
                Ok(String::from_str("@THAT\nD=A"))
            } else {
                Err(CompileError::InvalidPointerOffset(offset))
            }
        },
        Segment::Local => Ok(based("LCL", offset, "\nD=D+A")),
        Segment::Argument => Ok(based("ARG", offset, "\nD=D+A")),
        Segment::This => Ok(based("THIS", offset, "\nD=D+A")),
        Segment::That => Ok(based("THAT", offset, "\nD=D+A")),
    }
}

fn call(function: &str, number: u128, callee: &str, arguments: u16) -> (code: String)
    ensures
        code@ == call_code(function@, number as nat, callee@, arguments),
{
    let label = return_label_string(function, number);
    let mut code = String::from_str("@");
    code.append(label.as_str());
    code.append("\nD=A\n@SP\nAM=M\nM=D\n");
    code.append("@LCL\nD=M\n@SP\nAM=M+1\nM=D\n");
    code.append("@ARG\nD=M\n@SP\nAM=M+1\nM=D\n");
    code.append("@THIS\nD=M\n@SP\nAM=M+1\nM=D\n");
    code.append("@THAT\nD=M\n@SP\nAM=M+1\nM=D\n");
    code.append("@SP\nMD=M+1\n@LCL\nM=D\n@");
    push_decimal(&mut code, arguments as u128 + 5);
    code.append("\nD=D-A\n@ARG\nM=D\n@");
    code.append(callee);
    code.append("\n0;JMP\n(");
    code.append(label.as_str());
    code.append(")\n");
    code
}

fn function(name: &str, locals: u16) -> (code: String)
    ensures
        code@ == function_code(name@, locals),
{
    let mut code = String::from_str("(");
    code.append(name);
    code.append(")\n");
    if locals > 0 {
        code.append("@SP\nA=M\n");
        let ghost head = code@;
        let mut done: u16 = 0;
        while done < locals
            invariant
                done <= locals,
                code@ == head + repeated("M=0\nAD=A+1\n"@, done as nat),
            decreases locals - done,
        {
            code.append("M=0\nAD=A+1\n");
            done = done + 1;
        }
        code.append("@SP\nM=D\n");
    }
    code
}

fn function_return() -> (code: String)
    ensures
        code@ == return_code(),
{
    let mut code = String::from_str("@5\nD=A\n@LCL\nA=M-D\nD=M\n@R14\nM=D\n");
    code.append("@SP\nAM=M-1\nD=M\n@ARG\nA=M\nM=D\n");
    code.append("D=A+1\n@SP\nM=D\n");
    code.append("@LCL\nD=M\n@R13\nM=D\n");
    code.append("@R13\nAM=M-1\nD=M\n@THAT\nM=D\n");
    code.append("@R13\nAM=M-1\nD=M\n@THIS\nM=D\n");
    code.append("@R13\nAM=M-1\nD=M\n@ARG\nM=D\n");
    code.append("@R13\nAM=M-1\nD=M\n@LCL\nM=D\n");
    code.append("@R14\nA=M\n0;JMP\n");
    code
}

impl CodeGenerator {
    /// The state before the first command: no function, and no command yet.
    pub fn new() -> (generator: Self)
        ensures
            generator@ == (GeneratorView { current_function: Seq::<char>::empty(), command_number: 0 }),
    {
        CodeGenerator { current_function: String::new(), command_number: 0 }
    }

    /// Appends the code of `command` to `output` and counts the command. A
    /// command that has no code leaves both `output` and the state as they
    /// were.
    pub fn generate(&mut self, file_name: &str, command: &CommandType, output: &mut String) -> (result:
        Result<(), CompileError>)
        requires
            old(self).command_number < u128::MAX,
        ensures
            match command_code(
                file_name@,
                old(self)@.current_function,
                old(self)@.command_number,
                command@,
            ) {
                Ok(code) => result is Ok && final(output)@ == old(output)@ + code && final(self)@
                    == old(self)@.advanced(command@),
                Err(error) => result == Err::<(), CompileError>(error) && final(output)@ == old(
                    output,
                )@ && final(self)@ == old(self)@,
            },
    {
        let code = match command {
            CommandType::Arithmetic(operation) => arithmetic(
                *operation,
                self.current_function.as_str(),
                self.command_number,
            ),
            CommandType::Push(segment, offset) => match load(file_name, *segment, *offset) {
                Ok(mut code) => {
                    code.append("\n@SP\nAM=M+1\nA=A-1\nM=D\n");
                    code
                },
                Err(error) => {
                    return Err(error);
                },
            },
            CommandType::Pop(segment, offset) => match address(file_name, *segment, *offset) {
                Ok(mut code) => {
                    code.append("\n@R13\nM=D\n@SP\nAM=M-1\nD=M\n@R13\nA=M\nM=D\n");
                    code
                },
                Err(error) => {
                    return Err(error);
                },
            },
            CommandType::Label(name) => {
                let label = scoped_label_string(self.current_function.as_str(), name.as_str());
                let mut code = String::from_str("(");
                code.append(label.as_str());
                code.append(")\n");
                code
            },
            CommandType::Goto(name) => {
                let label = scoped_label_string(self.current_function.as_str(), name.as_str());
                let mut code = String::from_str("@");
                code.append(label.as_str());
                code.append("\n0;JMP\n");
                code
            },
            CommandType::IfGoto(name) => {
                let label = scoped_label_string(self.current_function.as_str(), name.as_str());
                let mut code = String::from_str("@SP\nAM=M-1\nD=M\n@");
                code.append(label.as_str());
                code.append("\nD;JNE\n");
                code
            },
            CommandType::Call(callee, arguments) => call(
                self.current_function.as_str(),
                self.command_number,
                callee.as_str(),
                *arguments,
            ),
            CommandType::Function(name, locals) => function(name.as_str(), *locals),
            CommandType::Return => function_return(),
        };
        output.append(code.as_str());
        if let CommandType::Function(name, _) = command {
            self.current_function = name.clone();
        }
        self.command_number = self.command_number + 1;
        Ok(())
    }
}


/// The function in which the command after the first `n` of `commands`
/// stands: the name of the last `function` command among them, or `start`
/// if there is none.
pub open spec fn function_after(start: Seq<char>, commands: Seq<CommandView>, n: int) -> Seq<char>
    decreases n,
{
    if n <= 0 {
        start
    } else {
        match commands[n - 1] {
            CommandView::Function(name, _) => name,
            _ => function_after(start, commands, n - 1),
        }
    }
}

/// The state in which command `i` of `commands` is compiled, when the first
/// is compiled in `start`.
pub open spec fn state_at(start: GeneratorView, commands: Seq<CommandView>, i: int) -> GeneratorView {
    GeneratorView {
        current_function: function_after(start.current_function, commands, i),
        command_number: (start.command_number + i) as nat,
    }
}

/// No two commands of a run are compiled under the same number. So two
/// comparisons of one run never share a label, also where both stand in the
/// same function, and neither do two calls.
pub proof fn lemma_labels_unique(start: GeneratorView, commands: Seq<CommandView>, i: int, j: int)
    requires
        0 <= i < j,
    ensures
        ({
            let first = state_at(start, commands, i);
            let second = state_at(start, commands, j);
            let taken = cond_label(first.current_function, first.command_number);
            let end = cond_end_label(first.current_function, first.command_number);
            let other_taken = cond_label(second.current_function, second.command_number);
            let other_end = cond_end_label(second.current_function, second.command_number);
            &&& first.command_number != second.command_number
            &&& taken != end
            &&& taken != other_taken
            &&& taken != other_end
            &&& end != other_taken
            &&& end != other_end
            &&& return_label(first.current_function, first.command_number) != return_label(
                second.current_function,
                second.command_number,
            )
        }),
{
    let first = state_at(start, commands, i);
    let second = state_at(start, commands, j);
    lemma_comparison_labels_distinct(
        first.current_function,
        first.command_number,
        second.current_function,
        second.command_number,
    );
    lemma_return_labels_distinct(
        first.current_function,
        first.command_number,
        second.current_function,
        second.command_number,
    );
}

/// The code of command `i` of `commands`.
pub open spec fn code_at(
    file_name: Seq<char>,
    start: GeneratorView,
    commands: Seq<CommandView>,
    i: int,
) -> Result<Seq<char>, CompileError> {
    command_code(
        file_name,
        state_at(start, commands, i).current_function,
        state_at(start, commands, i).command_number,
        commands[i],
    )
}

/// How many of the first `n` commands are compiled: all of them, or those
/// before the first that has no code.
pub open spec fn compiled_count(
    file_name: Seq<char>,
    start: GeneratorView,
    commands: Seq<CommandView>,
    n: int,
) -> int
    decreases n,
{
    if n <= 0 {
        0
    } else {
        let before = compiled_count(file_name, start, commands, n - 1);
        if before == n - 1 && code_at(file_name, start, commands, n - 1) is Ok {
            n
        } else {
            before
        }
    }
}

/// The code of the first `n` commands, one after the other.
pub open spec fn unit_code(
    file_name: Seq<char>,
    start: GeneratorView,
    commands: Seq<CommandView>,
    n: int,
) -> Seq<char>
    decreases n,
{
    if n <= 0 {
        Seq::<char>::empty()
    } else {
        unit_code(file_name, start, commands, n - 1) + code_at(
            file_name,
            start,
            commands,
            n - 1,
        )->Ok_0
    }
}

/// Once a command has failed, the count of compiled commands stays.
proof fn lemma_compiled_count_stays(
    file_name: Seq<char>,
    start: GeneratorView,
    commands: Seq<CommandView>,
    k: int,
    n: int,
)
    requires
        0 <= k < n,
        compiled_count(file_name, start, commands, k) == k,
        code_at(file_name, start, commands, k) is Err,
    ensures
        compiled_count(file_name, start, commands, n) == k,
    decreases n,
{
    if n > k + 1 {
        lemma_compiled_count_stays(file_name, start, commands, k, n - 1);
    }
}

/// Compiles the commands of the unit `file_name` in order and appends their
/// code to `output`, carrying `state` from each command to the next. It
/// stops at the first command that has no code and returns why; the code of
/// the commands before it has then been appended, and `state` is the one in
/// which that command was met.
pub fn compile_file(
    file_name: &str,
    commands: &Vec<CommandType>,
    output: &mut String,
    state: &mut CodeGenerator,
) -> (result: Result<(), CompileError>)
    requires
        old(state).command_number + commands.len() <= u128::MAX,
    ensures
        ({
            let program = views(commands@);
            let compiled = compiled_count(file_name@, old(state)@, program, program.len() as int);
            &&& 0 <= compiled <= program.len()
            &&& final(output)@ == old(output)@ + unit_code(file_name@, old(state)@, program, compiled)
            &&& final(state)@ == state_at(old(state)@, program, compiled)
            &&& compiled == program.len() ==> result is Ok
            &&& compiled < program.len() ==> result == Err::<(), CompileError>(
                code_at(file_name@, old(state)@, program, compiled)->Err_0,
            ) && code_at(file_name@, old(state)@, program, compiled) is Err
        }),
{
    let ghost program = views(commands@);
    let ghost start = state@;
    let mut i: usize = 0;
    while i < commands.len()
        invariant
            i <= commands.len(),
            program == views(commands@),
            start == old(state)@,
            start.command_number + commands.len() <= u128::MAX,
            compiled_count(file_name@, start, program, i as int) == i,
            output@ == old(output)@ + unit_code(file_name@, start, program, i as int),
            state@ == state_at(start, program, i as int),
        decreases commands.len() - i,
    {
        match state.generate(file_name, &commands[i], output) {
            Ok(()) => {
                i = i + 1;
            },
            Err(error) => {
                proof {
                    lemma_compiled_count_stays(
                        file_name@,
                        start,
                        program,
                        i as int,
                        program.len() as int,
                    );
                }
                return Err(error);
            },
        }
    }
    Ok(())
}

} // verus!
