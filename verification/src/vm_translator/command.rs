//! The commands of the stack-machine language.

use vstd::prelude::*;

verus! {

/// The nine arithmetic and logical operators.
#[derive(Clone, Copy, Debug, PartialEq, Eq, Structural)]
pub enum ArithmeticOperation {
    Add,
    Sub,
    Neg,
    Eq,
    Gt,
    Lt,
    And,
    Or,
    Not,
}

/// The eight memory segments that `push` and `pop` address.
#[derive(Clone, Copy, Debug, PartialEq, Eq, Structural)]
pub enum Segment {
    Local,
    Argument,
    This,
    That,
    Constant,
    Static,
    Temp,
    Pointer,
}

/// One command of the stack-machine language.
#[derive(Clone, Debug, PartialEq, Eq)]
pub enum CommandType {
    Arithmetic(ArithmeticOperation),
    Pop(Segment, u16),
    Push(Segment, u16),
    Label(String),
    Goto(String),
    IfGoto(String),
    Call(String, u16),
    Function(String, u16),
    Return,
}

/// The mathematical value of a command: names are character sequences.
pub enum CommandView {
    Arithmetic(ArithmeticOperation),
    Pop(Segment, u16),
    Push(Segment, u16),
    Label(Seq<char>),
    Goto(Seq<char>),
    IfGoto(Seq<char>),
    Call(Seq<char>, u16),
    Function(Seq<char>, u16),
    Return,
}

impl View for CommandType {
    type V = CommandView;

    open spec fn view(&self) -> CommandView {
        match *self {
            CommandType::Arithmetic(operation) => CommandView::Arithmetic(operation),
            CommandType::Pop(segment, offset) => CommandView::Pop(segment, offset),
            CommandType::Push(segment, offset) => CommandView::Push(segment, offset),
            CommandType::Label(name) => CommandView::Label(name@),
            CommandType::Goto(name) => CommandView::Goto(name@),
            CommandType::IfGoto(name) => CommandView::IfGoto(name@),
            CommandType::Call(name, arguments) => CommandView::Call(name@, arguments),
            CommandType::Function(name, locals) => CommandView::Function(name@, locals),
            CommandType::Return => CommandView::Return,
        }
    }
}

/// The values of a list of commands, in order.
pub open spec fn views(commands: Seq<CommandType>) -> Seq<CommandView> {
    commands.map_values(|command: CommandType| command@)
}

} // verus!
