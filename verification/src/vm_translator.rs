//! The translator from the stack-machine language to Hack assembly.

pub mod codegen;
pub mod command;
pub mod labels;
pub mod parser;
pub mod program;

pub use codegen::{compile_file, CodeGenerator, CompileError};
pub use command::{ArithmeticOperation, CommandType, Segment};
pub use parser::{get_segment, parse_command, parse_words, ParseError};
pub use program::{
    bootstrap, parse_program, translate, SourceUnit, SyntaxError, TranslationError, UnitError,
};
