//! A two-stage tool chain for the Hack computer: an assembler that turns
//! symbolic machine instructions into 16-bit words, and a translator that
//! lowers the stack-machine language of its virtual machine to that assembly.

pub mod assembler;
pub mod text;
pub mod vm_translator;
