//! Encoding: the 16-bit word of an instruction, and how it is written.

use vstd::prelude::*;
use crate::assembler::instruction::{CommandType, CommandValue, InstructionView, ValueView};

verus! {

/// 1 for a chosen destination, 0 for one that is not.
pub open spec fn flag(chosen: bool) -> u16 {
    if chosen {
        1
    } else {
        0
    }
}

/// The word of an instruction. An address instruction is its number. A
/// compute instruction has its three highest bits set, then the seven bits
/// of the operation, then one bit each for the destinations `A`, `D` and
/// `M`, in this order, then the three bits of the jump. A label declaration
/// and an unresolved name have no word; 0 stands for it here.
pub open spec fn machine_word(instruction: InstructionView) -> u16 {
    match instruction {
        InstructionView::Address(ValueView::Number(number)) => number,
        InstructionView::Compute {
            destination_a,
            destination_m,
            destination_d,
            operation,
            jump_condition,
        } => 0xE000u16 | (operation << 6u16) | (flag(destination_a) << 5u16) | (flag(destination_d)
            << 4u16) | (flag(destination_m) << 3u16) | jump_condition,
        _ => 0,
    }
}

/// The word of an instruction that holds no name and is no label.
pub fn compile_command(command: &CommandType) -> (word: u16)
    requires
        command@.is_encodable(),
    ensures
        word == machine_word(command@),
{
    match command {
        CommandType::CommandA(CommandValue::Number(number)) => *number,
        CommandType::CommandC {
            destination_a,
            destination_m,
            destination_d,
            operation,
            jump_condition,
        } => {
            let a: u16 = if *destination_a {
                1
            } else {
                0
            };
            let d: u16 = if *destination_d {
                1
            } else {
                0
            };
            let m: u16 = if *destination_m {
                1
            } else {
                0
            };
            0xE000u16 | (*operation << 6u16) | (a << 5u16) | (d << 4u16) | (m << 3u16)
                | *jump_condition
        },
        _ => {
            assert(false);
            0
        },
    }
}

/// The word of a compute instruction can be read back: where the operation
/// fits seven bits and the jump three, each field stands in the word
/// unchanged, below three set bits.
pub proof fn lemma_word_fields(
    destination_a: bool,
    destination_m: bool,
    destination_d: bool,
    operation: u16,
    jump_condition: u16,
)
    requires
        operation < 128,
        jump_condition < 8,
    ensures
        ({
            let word = machine_word(
                InstructionView::Compute {
                    destination_a,
                    destination_m,
                    destination_d,
                    operation,
                    jump_condition,
                },
            );
            &&& word >> 13u16 == 7
            &&& (word >> 6u16) & 0x7F == operation
            &&& (word >> 5u16) & 1 == flag(destination_a)
            &&& (word >> 4u16) & 1 == flag(destination_d)
            &&& (word >> 3u16) & 1 == flag(destination_m)
            &&& word & 7 == jump_condition
        }),
{
    let a = flag(destination_a);
    let d = flag(destination_d);
    let m = flag(destination_m);
    assert({
        let word = 0xE000u16 | (operation << 6u16) | (a << 5u16) | (d << 4u16) | (m << 3u16)
            | jump_condition;
        &&& word >> 13u16 == 7
        &&& (word >> 6u16) & 0x7F == operation
        &&& (word >> 5u16) & 1 == a
        &&& (word >> 4u16) & 1 == d
        &&& (word >> 3u16) & 1 == m
        &&& word & 7 == jump_condition
    }) by (bit_vector)
        requires
            operation < 128,
            jump_condition < 8,
            a < 2,
            d < 2,
            m < 2,
    ;
}

/// The word of an address below 32768 has its highest bit clear, which
/// tells it from the word of a compute instruction.
pub proof fn lemma_address_word(number: u16)
    requires
        number < 0x8000,
    ensures
        machine_word(InstructionView::Address(ValueView::Number(number))) >> 15u16 == 0,
{
    assert(number >> 15u16 == 0) by (bit_vector)
        requires
            number < 0x8000,
    ;
}

/// The character for bit `i` of `word`, counted from the most significant,
/// which is bit 0.
pub open spec fn bit_char(word: u16, i: int) -> char {
    if (word >> ((15 - i) as u16)) & 1 == 1 {
        '1'
    } else {
        '0'
    }
}

/// The sixteen binary digits of `word`, the most significant first.
pub open spec fn binary_text(word: u16) -> Seq<char> {
    Seq::new(16, |i: int| bit_char(word, i))
}

/// Appends the sixteen binary digits of `word` to `out`.
pub fn push_binary(out: &mut String, word: u16)
    ensures
        final(out)@ == old(out)@ + binary_text(word),
{
    let mut i: u16 = 0;
    while i < 16
        invariant
            i <= 16,
            out@ == old(out)@ + binary_text(word).take(i as int),
        decreases 16 - i,
    {
        let bit = (word >> (15 - i)) & 1;
        out.push(
            if bit == 1 {
                '1'
            } else {
                '0'
            },
        );
        i = i + 1;
    }
}

} // verus!
