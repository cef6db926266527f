//! Resolution: every name in a program becomes a number.

use vstd::hash_map::StringHashMap;
use vstd::prelude::*;
use vstd::string::StringExecFns;
use crate::assembler::instruction::{views, CommandType, CommandValue, InstructionView, ValueView};

verus! {

/// Why a program cannot be resolved.
#[derive(Clone, Debug, PartialEq, Eq)]
pub enum SymbolError {
    /// A label is declared under a name that is predefined or that an
    /// earlier label has.
    DuplicateLabel(String),
    /// The program has more than 32768 instructions.
    ProgramTooLong,
    /// The program uses more variables than the addresses 16 to 32767 hold.
    TooManyVariables,
}

/// The mathematical value of a [`SymbolError`].
pub enum SymbolErrorView {
    DuplicateLabel(Seq<char>),
    ProgramTooLong,
    TooManyVariables,
}

impl View for SymbolError {
    type V = SymbolErrorView;

    open spec fn view(&self) -> SymbolErrorView {
        match *self {
            SymbolError::DuplicateLabel(name) => SymbolErrorView::DuplicateLabel(name@),
            SymbolError::ProgramTooLong => SymbolErrorView::ProgramTooLong,
            SymbolError::TooManyVariables => SymbolErrorView::TooManyVariables,
        }
    }
}

/// The number of addresses of the instruction memory, and of the data
/// memory that variables may take.
pub const ADDRESS_SPACE: usize = 0x8000;

/// The address of the first variable.
pub const FIRST_VARIABLE: usize = 16;

/// The names that every program knows, with their addresses.
pub open spec fn predefined_symbols() -> Map<Seq<char>, nat> {
    Map::<Seq<char>, nat>::empty().insert("SP"@, 0).insert("LCL"@, 1).insert("ARG"@, 2).insert(
        "THIS"@,
        3,
    ).insert("THAT"@, 4).insert("R0"@, 0).insert("R1"@, 1).insert("R2"@, 2).insert(
        "R3"@,
        3,
    ).insert("R4"@, 4).insert("R5"@, 5).insert("R6"@, 6).insert("R7"@, 7).insert("R8"@, 8).insert(
        "R9"@,
        9,
    ).insert("R10"@, 10).insert("R11"@, 11).insert("R12"@, 12).insert("R13"@, 13).insert(
        "R14"@,
        14,
    ).insert("R15"@, 15).insert("SCREEN"@, 0x4000).insert("KBD"@, 0x6000)
}

/// How many of the first `n` instructions occupy a word: all but the label
/// declarations. It is the address of the instruction that follows them.
pub open spec fn instruction_count(program: Seq<InstructionView>, n: int) -> nat
    decreases n,
{
    if n <= 0 {
        0
    } else if program[n - 1].is_label() {
        instruction_count(program, n - 1)
    } else {
        instruction_count(program, n - 1) + 1
    }
}

/// The table after the first pass has read the first `n` instructions: the
/// predefined names, and each label declared among them with the address of
/// the instruction that follows it.
pub open spec fn label_table(program: Seq<InstructionView>, n: int) -> Map<Seq<char>, nat>
    decreases n,
{
    if n <= 0 {
        predefined_symbols()
    } else {
        match program[n - 1] {
            InstructionView::Label(ValueView::Symbol(name)) => label_table(program, n - 1).insert(
                name,
                instruction_count(program, n - 1),
            ),
            _ => label_table(program, n - 1),
        }
    }
}

/// Whether instruction `i` declares a label under a name that is taken.
pub open spec fn redeclares(program: Seq<InstructionView>, i: int) -> bool {
    program[i] matches InstructionView::Label(ValueView::Symbol(name)) && label_table(
        program,
        i,
    ).contains_key(name)
}

/// How many of the first `n` instructions the first pass reads: all of
/// them, or those before the first that declares a taken name.
pub open spec fn scanned(program: Seq<InstructionView>, n: int) -> int
    decreases n,
{
    if n <= 0 {
        0
    } else if scanned(program, n - 1) == n - 1 && !redeclares(program, n - 1) {
        n
    } else {
        scanned(program, n - 1)
    }
}

/// How many variables the second pass has met in the first `n`
/// instructions: the names in address instructions that the table did not
/// hold when they were met.
pub open spec fn variable_count(program: Seq<InstructionView>, n: int) -> nat
    decreases n, 0nat,
{
    if n <= 0 {
        0
    } else {
        match program[n - 1] {
            InstructionView::Address(ValueView::Symbol(name)) => if symbol_table(
                program,
                n - 1,
            ).contains_key(name) {
                variable_count(program, n - 1)
            } else {
                variable_count(program, n - 1) + 1
            },
            _ => variable_count(program, n - 1),
        }
    }
}

/// The table after the second pass has read the first `n` instructions:
/// what the first pass left, and each variable met among them, the first at
/// 16, the next at 17, and so on.
pub open spec fn symbol_table(program: Seq<InstructionView>, n: int) -> Map<Seq<char>, nat>
    decreases n, 1nat,
{
    if n <= 0 {
        label_table(program, program.len() as int)
    } else {
        match program[n - 1] {
            InstructionView::Address(ValueView::Symbol(name)) => if symbol_table(
                program,
                n - 1,
            ).contains_key(name) {
                symbol_table(program, n - 1)
            } else {
                symbol_table(program, n - 1).insert(
                    name,
                    FIRST_VARIABLE as nat + variable_count(program, n - 1),
                )
            },
            _ => symbol_table(program, n - 1),
        }
    }
}

/// Instruction `i` with its name replaced: a label by the address of the
/// instruction that follows it, the name in an address instruction by what
/// the table holds for it once the second pass has read the instruction.
pub open spec fn resolved_at(program: Seq<InstructionView>, i: int) -> InstructionView {
    match program[i] {
        InstructionView::Label(ValueView::Symbol(_)) => InstructionView::Label(
            ValueView::Number(instruction_count(program, i) as u16),
        ),
        InstructionView::Address(ValueView::Symbol(name)) => InstructionView::Address(
            ValueView::Number(symbol_table(program, i + 1)[name] as u16),
        ),
        other => other,
    }
}

/// The program with every name replaced.
pub open spec fn resolved(program: Seq<InstructionView>) -> Seq<InstructionView> {
    Seq::new(program.len(), |i: int| resolved_at(program, i))
}

/// What resolution makes of a program. A label declared under a taken name
/// is reported first, and the first such label; then a program that is too
/// long; then too many variables.
pub open spec fn resolution(program: Seq<InstructionView>) -> Result<
    Seq<InstructionView>,
    SymbolErrorView,
> {
    let length = program.len() as int;
    if scanned(program, length) < length {
        Err(
            SymbolErrorView::DuplicateLabel(
                program[scanned(program, length)]->Label_0->Symbol_0,
            ),
        )
    } else if instruction_count(program, length) > ADDRESS_SPACE {
        Err(SymbolErrorView::ProgramTooLong)
    } else if FIRST_VARIABLE + variable_count(program, length) > ADDRESS_SPACE {
        Err(SymbolErrorView::TooManyVariables)
    } else {
        Ok(resolved(program))
    }
}

/// Once a label has been declared twice, the first pass reads no further.
proof fn lemma_scanned_stays(program: Seq<InstructionView>, k: int, n: int)
    requires
        0 <= k < n,
        scanned(program, k) == k,
        redeclares(program, k),
    ensures
        scanned(program, n) == k,
    decreases n,
{
    if n > k + 1 {
        lemma_scanned_stays(program, k, n - 1);
    }
}

/// Later instructions never lower the count.
pub proof fn lemma_instruction_count_grows(program: Seq<InstructionView>, i: int, n: int)
    requires
        i <= n,
    ensures
        instruction_count(program, i) <= instruction_count(program, n),
    decreases n - i,
{
    if i < n {
        lemma_instruction_count_grows(program, i, n - 1);
    }
}

/// Later instructions never lower the number of variables.
pub proof fn lemma_variable_count_grows(program: Seq<InstructionView>, i: int, n: int)
    requires
        i <= n,
    ensures
        variable_count(program, i) <= variable_count(program, n),
    decreases n - i,
{
    if i < n {
        lemma_variable_count_grows(program, i, n - 1);
    }
}

/// Whether a table of the machine holds what a table of the model holds.
spec fn agrees(table: Map<Seq<char>, usize>, model: Map<Seq<char>, nat>) -> bool {
    &&& forall|name: Seq<char>| table.contains_key(name) <==> model.contains_key(name)
    &&& forall|name: Seq<char>| table.contains_key(name) ==> table[name] == model[name]
}

/// Whether no address in the table lies beyond both `limit` and the
/// highest predefined address.
spec fn within(table: Map<Seq<char>, usize>, limit: usize) -> bool {
    forall|name: Seq<char>|
        table.contains_key(name) ==> table[name] <= limit || table[name] <= 0x6000
}

/// Whether no address in the table lies beyond the address space.
spec fn bounded(table: Map<Seq<char>, usize>) -> bool {
    within(table, ADDRESS_SPACE)
}

fn define(table: &mut StringHashMap<usize>, name: &str, address: usize)
    ensures
        final(table)@ == old(table)@.insert(name@, address),
{
    table.insert(String::from_str(name), address);
}

fn predefined_table() -> (table: StringHashMap<usize>)
    ensures
        agrees(table@, predefined_symbols()),
        within(table@, 0),
{
    let mut table: StringHashMap<usize> = StringHashMap::new();
    define(&mut table, "SP", 0);
    define(&mut table, "LCL", 1);
    define(&mut table, "ARG", 2);
    define(&mut table, "THIS", 3);
    define(&mut table, "THAT", 4);
    define(&mut table, "R0", 0);
    define(&mut table, "R1", 1);
    define(&mut table, "R2", 2);
    define(&mut table, "R3", 3);
    define(&mut table, "R4", 4);
    define(&mut table, "R5", 5);
    define(&mut table, "R6", 6);
    define(&mut table, "R7", 7);
    define(&mut table, "R8", 8);
    define(&mut table, "R9", 9);
    define(&mut table, "R10", 10);
    define(&mut table, "R11", 11);
    define(&mut table, "R12", 12);
    define(&mut table, "R13", 13);
    define(&mut table, "R14", 14);
    define(&mut table, "R15", 15);
    define(&mut table, "SCREEN", 0x4000);
    define(&mut table, "KBD", 0x6000);
    table
}

/// Replaces every name in `commands` by its number, in two passes. The
/// first gives each label the address of the instruction that follows its
/// declaration. The second gives each name in an address instruction what
/// the table holds for it, and a name that the table does not hold the next
/// free address from 16 on. A label declaration that already holds a number
/// is left as it is and occupies no word. Where resolution fails,
/// `commands` is left as it was.
pub fn replace_symbols(commands: &mut Vec<CommandType>) -> (result: Result<(), SymbolError>)
    ensures
        match resolution(views(old(commands)@)) {
            Ok(program) => result is Ok && views(final(commands)@) == program,
            Err(error) => result matches Err(e) && e@ == error && final(commands)@ == old(
                commands,
            )@,
        },
{
    let ghost program = views(commands@);
    let length = commands.len();
    let mut table = predefined_table();
    let mut rom_location: usize = 0;
    let mut i: usize = 0;
    while i < length
        invariant
            i <= length,
            length == commands.len(),
            commands@ == old(commands)@,
            program == views(commands@),
            scanned(program, i as int) == i,
            rom_location == instruction_count(program, i as int),
            rom_location <= i,
            agrees(table@, label_table(program, i as int)),
            within(table@, rom_location),
        decreases length - i,
    {
        match &commands[i] {
            CommandType::CommandL(CommandValue::Symbol(name)) => {
                if table.contains_key(name.as_str()) {
                    proof {
                        lemma_scanned_stays(program, i as int, length as int);
                    }
                    return Err(SymbolError::DuplicateLabel(name.clone()));
                }
                table.insert(name.clone(), rom_location);
            },
            CommandType::CommandL(CommandValue::Number(_)) => {},
            _ => {
                rom_location = rom_location + 1;
            },
        }
        i = i + 1;
    }
    if rom_location > ADDRESS_SPACE {
        return Err(SymbolError::ProgramTooLong);
    }
    let mut output: Vec<CommandType> = Vec::new();
    let mut variable_location: usize = FIRST_VARIABLE;
    rom_location = 0;
    i = 0;
    while i < length
        invariant
            i <= length,
            length == commands.len(),
            commands@ == old(commands)@,
            program == views(commands@),
            scanned(program, length as int) == length,
            instruction_count(program, length as int) <= ADDRESS_SPACE,
            rom_location == instruction_count(program, i as int),
            variable_location == FIRST_VARIABLE + variable_count(program, i as int),
            variable_location <= ADDRESS_SPACE,
            agrees(table@, symbol_table(program, i as int)),
            bounded(table@),
            output.len() == i,
            forall|j: int| 0 <= j < i ==> (#[trigger] output@[j])@ == resolved_at(program, j),
        decreases length - i,
    {
        proof {
            lemma_instruction_count_grows(program, i as int, length as int);
        }
        let command = match &commands[i] {
            CommandType::CommandA(CommandValue::Symbol(name)) => {
                let known = match table.get(name.as_str()) {
                    Some(address) => Some(*address),
                    None => None,
                };
                let address = match known {
                    Some(address) => address,
                    None => {
                        if variable_location >= ADDRESS_SPACE {
                            proof {
                                lemma_variable_count_grows(program, i + 1, length as int);
                            }
                            return Err(SymbolError::TooManyVariables);
                        }
                        table.insert(name.clone(), variable_location);
                        variable_location = variable_location + 1;
                        variable_location - 1
                    },
                };
                rom_location = rom_location + 1;
                CommandType::CommandA(CommandValue::Number(address as u16))
            },
            CommandType::CommandA(CommandValue::Number(number)) => {
                rom_location = rom_location + 1;
                CommandType::CommandA(CommandValue::Number(*number))
            },
            CommandType::CommandC {
                destination_a,
                destination_m,
                destination_d,
                operation,
                jump_condition,
            } => {
                rom_location = rom_location + 1;
                CommandType::CommandC {
                    destination_a: *destination_a,
                    destination_m: *destination_m,
                    destination_d: *destination_d,
                    operation: *operation,
                    jump_condition: *jump_condition,
                }
            },
            CommandType::CommandL(CommandValue::Symbol(_)) => CommandType::CommandL(
                CommandValue::Number(rom_location as u16),
            ),
            CommandType::CommandL(CommandValue::Number(number)) => CommandType::CommandL(
                CommandValue::Number(*number),
            ),
        };
        output.push(command);
        i = i + 1;
    }
    *commands = output;
    Ok(())
}

} // verus!
