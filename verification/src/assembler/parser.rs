//! Reading one line of assembly.

use vstd::prelude::*;
use vstd::slice::slice_subrange;
use vstd::string::StringExecFns;
use crate::assembler::instruction::{CommandType, CommandValue, InstructionView, ValueView};
use crate::text::{
    chars_of, find, holds, parse_u16, position, read_u16, spells, string_from, uppercase,
};

verus! {

/// Why a line is no instruction.
#[derive(Clone, Debug, PartialEq, Eq)]
pub enum ParseError {
    /// A line that opens a label declaration with `(` does not close it
    /// with `)`.
    MissingParenthesis,
    /// The operation, in upper case, is none of the 28 that the machine has.
    UnknownOperation(String),
    /// The jump, in upper case, is none of the seven mnemonics.
    UnknownJump(String),
}

/// The mathematical value of a [`ParseError`].
pub enum ParseErrorView {
    MissingParenthesis,
    UnknownOperation(Seq<char>),
    UnknownJump(Seq<char>),
}

impl View for ParseError {
    type V = ParseErrorView;

    open spec fn view(&self) -> ParseErrorView {
        match *self {
            ParseError::MissingParenthesis => ParseErrorView::MissingParenthesis,
            ParseError::UnknownOperation(text) => ParseErrorView::UnknownOperation(text@),
            ParseError::UnknownJump(text) => ParseErrorView::UnknownJump(text@),
        }
    }
}

/// The value of what parsing returns.
pub open spec fn parsed(result: Result<CommandType, ParseError>) -> Result<
    InstructionView,
    ParseErrorView,
> {
    match result {
        Ok(command) => Ok(command@),
        Err(error) => Err(error@),
    }
}

/// The 7-bit code of an operation written in upper case: the bit that
/// chooses between `A` and `M`, then the six control bits of the ALU.
pub open spec fn operation_code(text: Seq<char>) -> Option<u16> {
    if text == "0"@ {
        Some(0b010_1010)
    } else if text == "1"@ {
        Some(0b011_1111)
    } else if text == "-1"@ {
        Some(0b011_1010)
    } else if text == "D"@ {
        Some(0b000_1100)
    } else if text == "A"@ {
        Some(0b011_0000)
    } else if text == "M"@ {
        Some(0b111_0000)
    } else if text == "!D"@ {
        Some(0b000_1101)
    } else if text == "!A"@ {
        Some(0b011_0001)
    } else if text == "!M"@ {
        Some(0b111_0001)
    } else if text == "-D"@ {
        Some(0b000_1111)
    } else if text == "-A"@ {
        Some(0b011_0011)
    } else if text == "-M"@ {
        Some(0b111_0011)
    } else if text == "D+1"@ {
        Some(0b001_1111)
    } else if text == "A+1"@ {
        Some(0b011_0111)
    } else if text == "M+1"@ {
        Some(0b111_0111)
    } else if text == "D-1"@ {
        Some(0b000_1110)
    } else if text == "A-1"@ {
        Some(0b011_0010)
    } else if text == "M-1"@ {
        Some(0b111_0010)
    } else if text == "D+A"@ {
        Some(0b000_0010)
    } else if text == "D+M"@ {
        Some(0b100_0010)
    } else if text == "D-A"@ {
        Some(0b001_0011)
    } else if text == "D-M"@ {
        Some(0b101_0011)
    } else if text == "A-D"@ {
        Some(0b000_0111)
    } else if text == "M-D"@ {
        Some(0b100_0111)
    } else if text == "D&A"@ {
        Some(0b000_0000)
    } else if text == "D&M"@ {
        Some(0b100_0000)
    } else if text == "D|A"@ {
        Some(0b001_0101)
    } else if text == "D|M"@ {
        Some(0b101_0101)
    } else {
        None
    }
}

/// The 3-bit code of a jump written in upper case; no text is no jump.
pub open spec fn jump_code(text: Seq<char>) -> Option<u16> {
    if text.len() == 0 {
        Some(0b000)
    } else if text == "JGT"@ {
        Some(0b001)
    } else if text == "JEQ"@ {
        Some(0b010)
    } else if text == "JGE"@ {
        Some(0b011)
    } else if text == "JLT"@ {
        Some(0b100)
    } else if text == "JNE"@ {
        Some(0b101)
    } else if text == "JLE"@ {
        Some(0b110)
    } else if text == "JMP"@ {
        Some(0b111)
    } else {
        None
    }
}

/// The compute instruction with the three fields given in upper case. The
/// destination may hold `A`, `M` and `D` in any order and number, and
/// whatever else it holds counts for nothing. An unknown operation is
/// reported before an unknown jump.
pub open spec fn compute_spec(
    destination: Seq<char>,
    operation: Seq<char>,
    jump: Seq<char>,
) -> Result<InstructionView, ParseErrorView> {
    match operation_code(operation) {
        None => Err(ParseErrorView::UnknownOperation(operation)),
        Some(code) => match jump_code(jump) {
            None => Err(ParseErrorView::UnknownJump(jump)),
            Some(condition) => Ok(
                InstructionView::Compute {
                    destination_a: destination.contains('A'),
                    destination_m: destination.contains('M'),
                    destination_d: destination.contains('D'),
                    operation: code,
                    jump_condition: condition,
                },
            ),
        },
    }
}

/// What stands before the first `=` of a compute instruction: nothing if
/// there is no `=`.
pub open spec fn destination_field(line: Seq<char>) -> Seq<char> {
    if position(line, '=') < line.len() {
        line.subrange(0, position(line, '='))
    } else {
        line.subrange(0, 0)
    }
}

/// What stands after the first `=` of a compute instruction: the whole line
/// if there is no `=`.
pub open spec fn after_destination(line: Seq<char>) -> Seq<char> {
    if position(line, '=') < line.len() {
        line.subrange(position(line, '=') + 1, line.len() as int)
    } else {
        line
    }
}

/// The operation of a compute instruction: what stands after the
/// destination, up to the first `;` there.
pub open spec fn operation_field(line: Seq<char>) -> Seq<char> {
    after_destination(line).subrange(0, position(after_destination(line), ';'))
}

/// What stands after the first `;` of a compute instruction: nothing if
/// there is no `;`.
pub open spec fn jump_field(line: Seq<char>) -> Seq<char> {
    if position(line, ';') < line.len() {
        line.subrange(position(line, ';') + 1, line.len() as int)
    } else {
        line.subrange(0, 0)
    }
}

/// The instruction that a line is, or why it is none. A line that starts
/// with `@` is an address instruction, with a number if `str::parse::<u16>`
/// reads one after the `@` and with a name if not. A line that starts with
/// `(` declares a label and must end with `)`. Any other line is a compute
/// instruction, whose three fields are read in upper case.
pub open spec fn parse_spec(line: Seq<char>) -> Result<InstructionView, ParseErrorView>
    recommends
        line.len() > 0,
{
    if line[0] == '@' {
        let operand = line.subrange(1, line.len() as int);
        match parse_u16(operand) {
            Some(number) => Ok(InstructionView::Address(ValueView::Number(number))),
            None => Ok(InstructionView::Address(ValueView::Symbol(operand))),
        }
    } else if line[0] == '(' {
        if line.last() == ')' {
            Ok(InstructionView::Label(ValueView::Symbol(line.subrange(1, line.len() - 1))))
        } else {
            Err(ParseErrorView::MissingParenthesis)
        }
    } else {
        compute_spec(
            uppercase(destination_field(line)),
            uppercase(operation_field(line)),
            uppercase(jump_field(line)),
        )
    }
}

fn operation_of(text: &[char]) -> (code: Option<u16>)
    ensures
        code == operation_code(text@),
{
    if spells(text, "0") {
        Some(0b010_1010)
    } else if spells(text, "1") {
        Some(0b011_1111)
    } else if spells(text, "-1") {
        Some(0b011_1010)
    } else if spells(text, "D") {
        Some(0b000_1100)
    } else if spells(text, "A") {
        Some(0b011_0000)
    } else if spells(text, "M") {
        Some(0b111_0000)
    } else if spells(text, "!D") {
        Some(0b000_1101)
    } else if spells(text, "!A") {
        Some(0b011_0001)
    } else if spells(text, "!M") {
        Some(0b111_0001)
    } else if spells(text, "-D") {
        Some(0b000_1111)
    } else if spells(text, "-A") {
        Some(0b011_0011)
    } else if spells(text, "-M") {
        Some(0b111_0011)
    } else if spells(text, "D+1") {
        Some(0b001_1111)
    } else if spells(text, "A+1") {
        Some(0b011_0111)
    } else if spells(text, "M+1") {
        Some(0b111_0111)
    } else if spells(text, "D-1") {
        Some(0b000_1110)
    } else if spells(text, "A-1") {
        Some(0b011_0010)
    } else if spells(text, "M-1") {
        Some(0b111_0010)
    } else if spells(text, "D+A") {
        Some(0b000_0010)
    } else if spells(text, "D+M") {
        Some(0b100_0010)
    } else if spells(text, "D-A") {
        Some(0b001_0011)
    } else if spells(text, "D-M") {
        Some(0b101_0011)
    } else if spells(text, "A-D") {
        Some(0b000_0111)
    } else if spells(text, "M-D") {
        Some(0b100_0111)
    } else if spells(text, "D&A") {
        Some(0b000_0000)
    } else if spells(text, "D&M") {
        Some(0b100_0000)
    } else if spells(text, "D|A") {
        Some(0b001_0101)
    } else if spells(text, "D|M") {
        Some(0b101_0101)
    } else {
        None
    }
}

fn jump_of(text: &[char]) -> (code: Option<u16>)
    ensures
        code == jump_code(text@),
{
    if text.len() == 0 {
        Some(0b000)
    } else if spells(text, "JGT") {
        Some(0b001)
    } else if spells(text, "JEQ") {
        Some(0b010)
    } else if spells(text, "JGE") {
        Some(0b011)
    } else if spells(text, "JLT") {
        Some(0b100)
    } else if spells(text, "JNE") {
        Some(0b101)
    } else if spells(text, "JLE") {
        Some(0b110)
    } else if spells(text, "JMP") {
        Some(0b111)
    } else {
        None
    }
}

/// Builds the compute instruction whose destination, operation and jump are
/// given in upper case.
pub fn compute_instruction(destination: &str, operation: &str, jump: &str) -> (result: Result<
    CommandType,
    ParseError,
>)
    ensures
        parsed(result) == compute_spec(destination@, operation@, jump@),
{
    let destination_chars = chars_of(destination);
    let operation_chars = chars_of(operation);
    let jump_chars = chars_of(jump);
    match operation_of(operation_chars.as_slice()) {
        None => Err(ParseError::UnknownOperation(String::from_str(operation))),
        Some(code) => match jump_of(jump_chars.as_slice()) {
            None => Err(ParseError::UnknownJump(String::from_str(jump))),
            Some(condition) => Ok(
                CommandType::CommandC {
                    destination_a: holds(destination_chars.as_slice(), 'A'),
                    destination_m: holds(destination_chars.as_slice(), 'M'),
                    destination_d: holds(destination_chars.as_slice(), 'D'),
                    operation: code,
                    jump_condition: condition,
                },
            ),
        },
    }
}

/// Reads one line of assembly, which is not empty.
pub fn parse_command(command: &str) -> (result: Result<CommandType, ParseError>)
    requires
        command@.len() > 0,
    ensures
        parsed(result) == parse_spec(command@),
{
    let chars = chars_of(command);
    let line = chars.as_slice();
    let length = line.len();
    if line[0] == '@' {
        let operand = slice_subrange(line, 1, length);
        match read_u16(operand) {
            Some(number) => Ok(CommandType::CommandA(CommandValue::Number(number))),
            None => Ok(CommandType::CommandA(CommandValue::Symbol(string_from(operand)))),
        }
    } else if line[0] == '(' {
        if line[length - 1] == ')' {
            let name = slice_subrange(line, 1, length - 1);
            Ok(CommandType::CommandL(CommandValue::Symbol(string_from(name))))
        } else {
            Err(ParseError::MissingParenthesis)
        }
    } else {
        let equals = find(line, '=');
        let semicolon = find(line, ';');
        let destination = if equals < length {
            slice_subrange(line, 0, equals)
        } else {
            slice_subrange(line, 0, 0)
        };
        let rest = if equals < length {
            slice_subrange(line, equals + 1, length)
        } else {
            line
        };
        let operation = slice_subrange(rest, 0, find(rest, ';'));
        let jump = if semicolon < length {
            slice_subrange(line, semicolon + 1, length)
        } else {
            slice_subrange(line, 0, 0)
        };
        let destination_upper = string_from(destination).as_str().to_uppercase();
        let operation_upper = string_from(operation).as_str().to_uppercase();
        let jump_upper = string_from(jump).as_str().to_uppercase();
        compute_instruction(
            destination_upper.as_str(),
            operation_upper.as_str(),
            jump_upper.as_str(),
        )
    }
}

} // verus!
