//! The instructions of the machine's assembly language.

use vstd::prelude::*;

verus! {

/// The operand of an address instruction or of a label declaration: a
/// number, or a name that resolution replaces by one.
#[derive(Clone, Debug, PartialEq, Eq)]
pub enum CommandValue {
    Number(u16),
    Symbol(String),
}

/// One line of an assembly program.
#[derive(Clone, Debug, PartialEq, Eq)]
pub enum CommandType {
    /// `@operand`: loads the operand into the address register.
    CommandA(CommandValue),
    /// `dest=operation;jump`: computes `operation`, stores the result in
    /// the chosen registers and jumps if the result satisfies `jump`.
    CommandC {
        destination_a: bool,
        destination_m: bool,
        destination_d: bool,
        operation: u16,
        jump_condition: u16,
    },
    /// `(name)`: names the address of the next instruction. It occupies no
    /// word of the program.
    CommandL(CommandValue),
}

/// The mathematical value of an operand.
pub enum ValueView {
    Number(u16),
    Symbol(Seq<char>),
}

/// The mathematical value of an instruction.
pub enum InstructionView {
    Address(ValueView),
    Compute {
        destination_a: bool,
        destination_m: bool,
        destination_d: bool,
        operation: u16,
        jump_condition: u16,
    },
    Label(ValueView),
}

impl View for CommandValue {
    type V = ValueView;

    open spec fn view(&self) -> ValueView {
        match *self {
            CommandValue::Number(number) => ValueView::Number(number),
            CommandValue::Symbol(name) => ValueView::Symbol(name@),
        }
    }
}

impl View for CommandType {
    type V = InstructionView;

    open spec fn view(&self) -> InstructionView {
        match *self {
            CommandType::CommandA(value) => InstructionView::Address(value@),
            CommandType::CommandC {
                destination_a,
                destination_m,
                destination_d,
                operation,
                jump_condition,
            } => InstructionView::Compute {
                destination_a,
                destination_m,
                destination_d,
                operation,
                jump_condition,
            },
            CommandType::CommandL(value) => InstructionView::Label(value@),
        }
    }
}

/// The values of a list of instructions, in order.
pub open spec fn views(commands: Seq<CommandType>) -> Seq<InstructionView> {
    commands.map_values(|command: CommandType| command@)
}

impl InstructionView {
    /// Whether the instruction is a label declaration.
    pub open spec fn is_label(self) -> bool {
        self is Label
    }

    /// Whether the instruction holds no name: every operand is a number.
    pub open spec fn is_numeric(self) -> bool {
        match self {
            InstructionView::Address(value) => value is Number,
            InstructionView::Compute { .. } => true,
            InstructionView::Label(value) => value is Number,
        }
    }

    /// Whether the instruction has a machine word: it is a compute
    /// instruction or an address instruction with a number.
    pub open spec fn is_encodable(self) -> bool {
        self.is_numeric() && !self.is_label()
    }
}

} // verus!
