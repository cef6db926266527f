//! What holds of every program that resolution accepts.

use vstd::prelude::*;
use crate::assembler::encoder::{flag, machine_word};
use crate::assembler::instruction::{InstructionView, ValueView};
use crate::assembler::parser::{compute_spec, jump_code, operation_code};
use crate::assembler::symbols::{
    instruction_count, label_table, predefined_symbols, redeclares, resolution, resolved_at,
    scanned, symbol_table, variable_count, FIRST_VARIABLE,
};

verus! {

/// The first pass reads no more instructions than there are.
pub proof fn lemma_scanned_bound(program: Seq<InstructionView>, n: int)
    requires
        0 <= n,
    ensures
        0 <= scanned(program, n) <= n,
    decreases n,
{
    if n > 0 {
        lemma_scanned_bound(program, n - 1);
    }
}

/// Where the first pass reads all of the first `n` instructions, none of
/// them declares a taken name.
pub proof fn lemma_scanned_all(program: Seq<InstructionView>, n: int, k: int)
    requires
        0 <= k < n,
        scanned(program, n) == n,
    ensures
        scanned(program, k) == k,
        !redeclares(program, k),
    decreases n,
{
    lemma_scanned_bound(program, n - 1);
    if k < n - 1 {
        lemma_scanned_all(program, n - 1, k);
    }
}

/// The first pass never changes what the table holds for a name.
pub proof fn lemma_label_table_keeps(program: Seq<InstructionView>, n: int, m: int, name: Seq<char>)
    requires
        0 <= n <= m,
        scanned(program, m) == m,
        label_table(program, n).contains_key(name),
    ensures
        label_table(program, m).contains_key(name),
        label_table(program, m)[name] == label_table(program, n)[name],
    decreases m - n,
{
    if n < m {
        lemma_scanned_all(program, m, m - 1);
        lemma_label_table_keeps(program, n, m - 1, name);
    }
}

/// The second pass never changes what the table holds for a name.
pub proof fn lemma_symbol_table_keeps(program: Seq<InstructionView>, n: int, m: int, name: Seq<char>)
    requires
        0 <= n <= m,
        symbol_table(program, n).contains_key(name),
    ensures
        symbol_table(program, m).contains_key(name),
        symbol_table(program, m)[name] == symbol_table(program, n)[name],
    decreases m - n,
{
    if n < m {
        lemma_symbol_table_keeps(program, n, m - 1, name);
    }
}

/// The addresses of the predefined names.
pub proof fn lemma_predefined_addresses()
    ensures
        predefined_symbols().contains_key("SP"@) && predefined_symbols()["SP"@] == 0,
        predefined_symbols().contains_key("LCL"@) && predefined_symbols()["LCL"@] == 1,
        predefined_symbols().contains_key("ARG"@) && predefined_symbols()["ARG"@] == 2,
        predefined_symbols().contains_key("THIS"@) && predefined_symbols()["THIS"@] == 3,
        predefined_symbols().contains_key("THAT"@) && predefined_symbols()["THAT"@] == 4,
        predefined_symbols().contains_key("R0"@) && predefined_symbols()["R0"@] == 0,
        predefined_symbols().contains_key("R1"@) && predefined_symbols()["R1"@] == 1,
        predefined_symbols().contains_key("R2"@) && predefined_symbols()["R2"@] == 2,
        predefined_symbols().contains_key("R3"@) && predefined_symbols()["R3"@] == 3,
        predefined_symbols().contains_key("R4"@) && predefined_symbols()["R4"@] == 4,
        predefined_symbols().contains_key("R5"@) && predefined_symbols()["R5"@] == 5,
        predefined_symbols().contains_key("R6"@) && predefined_symbols()["R6"@] == 6,
        predefined_symbols().contains_key("R7"@) && predefined_symbols()["R7"@] == 7,
        predefined_symbols().contains_key("R8"@) && predefined_symbols()["R8"@] == 8,
        predefined_symbols().contains_key("R9"@) && predefined_symbols()["R9"@] == 9,
        predefined_symbols().contains_key("R10"@) && predefined_symbols()["R10"@] == 10,
        predefined_symbols().contains_key("R11"@) && predefined_symbols()["R11"@] == 11,
        predefined_symbols().contains_key("R12"@) && predefined_symbols()["R12"@] == 12,
        predefined_symbols().contains_key("R13"@) && predefined_symbols()["R13"@] == 13,
        predefined_symbols().contains_key("R14"@) && predefined_symbols()["R14"@] == 14,
        predefined_symbols().contains_key("R15"@) && predefined_symbols()["R15"@] == 15,
        predefined_symbols().contains_key("SCREEN"@) && predefined_symbols()["SCREEN"@] == 16384,
        predefined_symbols().contains_key("KBD"@) && predefined_symbols()["KBD"@] == 24576,
{
    reveal_strlit("SP");
    reveal_strlit("LCL");
    reveal_strlit("ARG");
    reveal_strlit("THIS");
    reveal_strlit("THAT");
    reveal_strlit("R0");
    reveal_strlit("R1");
    reveal_strlit("R2");
    reveal_strlit("R3");
    reveal_strlit("R4");
    reveal_strlit("R5");
    reveal_strlit("R6");
    reveal_strlit("R7");
    reveal_strlit("R8");
    reveal_strlit("R9");
    reveal_strlit("R10");
    reveal_strlit("R11");
    reveal_strlit("R12");
    reveal_strlit("R13");
    reveal_strlit("R14");
    reveal_strlit("R15");
    reveal_strlit("SCREEN");
    reveal_strlit("KBD");
    assert("SP"@.len() == 2 && "SP"@[1] == 'P');
    assert("LCL"@.len() == 3 && "LCL"@[0] == 'L');
    assert("ARG"@.len() == 3 && "ARG"@[0] == 'A');
    assert("THIS"@.len() == 4 && "THIS"@[2] == 'I');
    assert("THAT"@.len() == 4 && "THAT"@[2] == 'A');
    assert("R0"@.len() == 2 && "R0"@[1] == '0');
    assert("R1"@.len() == 2 && "R1"@[1] == '1');
    assert("R2"@.len() == 2 && "R2"@[1] == '2');
    assert("R3"@.len() == 2 && "R3"@[1] == '3');
    assert("R4"@.len() == 2 && "R4"@[1] == '4');
    assert("R5"@.len() == 2 && "R5"@[1] == '5');
    assert("R6"@.len() == 2 && "R6"@[1] == '6');
    assert("R7"@.len() == 2 && "R7"@[1] == '7');
    assert("R8"@.len() == 2 && "R8"@[1] == '8');
    assert("R9"@.len() == 2 && "R9"@[1] == '9');
    assert("R10"@.len() == 3 && "R10"@[0] == 'R' && "R10"@[2] == '0');
    assert("R11"@.len() == 3 && "R11"@[0] == 'R' && "R11"@[2] == '1');
    assert("R12"@.len() == 3 && "R12"@[0] == 'R' && "R12"@[2] == '2');
    assert("R13"@.len() == 3 && "R13"@[0] == 'R' && "R13"@[2] == '3');
    assert("R14"@.len() == 3 && "R14"@[0] == 'R' && "R14"@[2] == '4');
    assert("R15"@.len() == 3 && "R15"@[0] == 'R' && "R15"@[2] == '5');
    assert("SCREEN"@.len() == 6 && "SCREEN"@[0] == 'S');
    assert("KBD"@.len() == 3 && "KBD"@[0] == 'K');
}

/// An address instruction that names a predefined symbol resolves to the
/// address of that symbol, wherever in the program it stands and whatever
/// else the program holds.
pub proof fn lemma_predefined_resolves(program: Seq<InstructionView>, i: int, name: Seq<char>)
    requires
        resolution(program) is Ok,
        0 <= i < program.len(),
        program[i] == InstructionView::Address(ValueView::Symbol(name)),
        predefined_symbols().contains_key(name),
    ensures
        predefined_symbols()[name] <= 0x6000,
        resolution(program)->Ok_0[i] == InstructionView::Address(
            ValueView::Number(predefined_symbols()[name] as u16),
        ),
{
    let length = program.len() as int;
    lemma_scanned_bound(program, length);
    lemma_label_table_keeps(program, 0, length, name);
    lemma_symbol_table_keeps(program, 0, i + 1, name);
}

/// Whether one of the first `n` instructions is an address instruction
/// with `name`.
pub open spec fn used_before(program: Seq<InstructionView>, n: int, name: Seq<char>) -> bool {
    exists|j: int|
        0 <= j < n && #[trigger] program[j] == InstructionView::Address(ValueView::Symbol(name))
}

/// Whether instruction `i` is the first use of a variable: an address
/// instruction with a name that is neither predefined nor a label, and that
/// no earlier address instruction has.
pub open spec fn is_first_use(program: Seq<InstructionView>, i: int) -> bool {
    program[i] matches InstructionView::Address(ValueView::Symbol(name)) && !label_table(
        program,
        program.len() as int,
    ).contains_key(name) && !used_before(program, i, name)
}

/// How many of the first `n` instructions are the first use of a variable.
pub open spec fn first_uses(program: Seq<InstructionView>, n: int) -> nat
    decreases n,
{
    if n <= 0 {
        0
    } else if is_first_use(program, n - 1) {
        first_uses(program, n - 1) + 1
    } else {
        first_uses(program, n - 1)
    }
}

/// After the first `n` instructions the second pass knows the predefined
/// names, the labels of the whole program, and the names that it has met.
pub proof fn lemma_symbol_table_names(program: Seq<InstructionView>, n: int, name: Seq<char>)
    requires
        0 <= n,
    ensures
        symbol_table(program, n).contains_key(name) <==> label_table(
            program,
            program.len() as int,
        ).contains_key(name) || used_before(program, n, name),
    decreases n,
{
    if n > 0 {
        lemma_symbol_table_names(program, n - 1, name);
        if used_before(program, n, name) && !used_before(program, n - 1, name) {
            let j = choose|j: int|
                0 <= j < n && #[trigger] program[j] == InstructionView::Address(
                    ValueView::Symbol(name),
                );
            assert(j == n - 1);
        }
        if used_before(program, n - 1, name) {
            let j = choose|j: int|
                0 <= j < n - 1 && #[trigger] program[j] == InstructionView::Address(
                    ValueView::Symbol(name),
                );
            assert(0 <= j < n && program[j] == InstructionView::Address(ValueView::Symbol(name)));
        }
        if program[n - 1] == InstructionView::Address(ValueView::Symbol(name)) {
            assert(used_before(program, n, name));
        }
    }
}

/// The variables that the second pass has met are the first uses.
pub proof fn lemma_variable_count_is_first_uses(program: Seq<InstructionView>, n: int)
    requires
        0 <= n,
    ensures
        variable_count(program, n) == first_uses(program, n),
    decreases n,
{
    if n > 0 {
        lemma_variable_count_is_first_uses(program, n - 1);
        match program[n - 1] {
            InstructionView::Address(ValueView::Symbol(name)) => {
                lemma_symbol_table_names(program, n - 1, name);
            },
            _ => {},
        }
    }
}

/// The first use of a variable resolves to 16 plus the number of first uses
/// before it: the first variable of a program gets 16, the next 17, and so
/// on.
pub proof fn lemma_variables_sequential(program: Seq<InstructionView>, i: int)
    requires
        resolution(program) is Ok,
        0 <= i < program.len(),
        is_first_use(program, i),
    ensures
        FIRST_VARIABLE + first_uses(program, i) < 0x8000,
        resolution(program)->Ok_0[i] == InstructionView::Address(
            ValueView::Number((FIRST_VARIABLE + first_uses(program, i)) as u16),
        ),
{
    let name = program[i]->Address_0->Symbol_0;
    lemma_variable_count_is_first_uses(program, i);
    lemma_symbol_table_names(program, i, name);
    crate::assembler::symbols::lemma_variable_count_grows(program, i + 1, program.len() as int);
}

/// Two address instructions with the same name resolve to the same
/// address.
pub proof fn lemma_same_name_same_address(program: Seq<InstructionView>, i: int, j: int)
    requires
        resolution(program) is Ok,
        0 <= i <= j < program.len(),
        program[i] is Address,
        program[i] == program[j],
    ensures
        resolution(program)->Ok_0[i] == resolution(program)->Ok_0[j],
{
    match program[i] {
        InstructionView::Address(ValueView::Symbol(name)) => {
            lemma_symbol_table_keeps(program, i + 1, j + 1, name);
        },
        _ => {},
    }
}

/// A label resolves to the number of instructions before it that occupy a
/// word, and an address instruction that names it to the same number.
pub proof fn lemma_label_resolves(program: Seq<InstructionView>, i: int, j: int, name: Seq<char>)
    requires
        resolution(program) is Ok,
        0 <= i < program.len(),
        0 <= j < program.len(),
        program[i] == InstructionView::Label(ValueView::Symbol(name)),
        program[j] == InstructionView::Address(ValueView::Symbol(name)),
    ensures
        instruction_count(program, i) <= 0x8000,
        resolution(program)->Ok_0[i] == InstructionView::Label(
            ValueView::Number(instruction_count(program, i) as u16),
        ),
        resolution(program)->Ok_0[j] == InstructionView::Address(
            ValueView::Number(instruction_count(program, i) as u16),
        ),
{
    let length = program.len() as int;
    lemma_scanned_bound(program, length);
    lemma_scanned_all(program, length, i);
    lemma_label_table_keeps(program, i + 1, length, name);
    lemma_symbol_table_keeps(program, 0, j + 1, name);
    crate::assembler::symbols::lemma_instruction_count_grows(program, i, length);
}

/// The code of an operation fits seven bits, and the code of a jump three.
pub proof fn lemma_codes_fit(text: Seq<char>)
    ensures
        operation_code(text) matches Some(code) ==> code < 128,
        jump_code(text) matches Some(code) ==> code < 8,
{
}

/// The word of a compute instruction that was read from text can be read
/// back: each field stands in the word unchanged, below three set bits.
pub proof fn lemma_compute_round_trip(destination: Seq<char>, operation: Seq<char>, jump: Seq<char>)
    requires
        compute_spec(destination, operation, jump) is Ok,
    ensures
        ({
            let word = machine_word(compute_spec(destination, operation, jump)->Ok_0);
            &&& word >> 13u16 == 7
            &&& (word >> 6u16) & 0x7F == operation_code(operation)->Some_0
            &&& (word >> 5u16) & 1 == flag(destination.contains('A'))
            &&& (word >> 4u16) & 1 == flag(destination.contains('D'))
            &&& (word >> 3u16) & 1 == flag(destination.contains('M'))
            &&& word & 7 == jump_code(jump)->Some_0
        }),
{
    lemma_codes_fit(operation);
    lemma_codes_fit(jump);
    crate::assembler::encoder::lemma_word_fields(
        destination.contains('A'),
        destination.contains('M'),
        destination.contains('D'),
        operation_code(operation)->Some_0,
        jump_code(jump)->Some_0,
    );
}

} // verus!
