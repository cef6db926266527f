//! The assembler: from symbolic machine instructions to 16-bit words.

pub mod encoder;
pub mod instruction;
pub mod laws;
pub mod parser;
pub mod program;
pub mod symbols;

pub use instruction::{CommandType, CommandValue};
pub use parser::{compute_instruction, parse_command, ParseError};
pub use symbols::{replace_symbols, SymbolError};
pub use encoder::compile_command;
pub use program::{assemble, parse_program, remove_labels, write_listing, AssemblyError};
