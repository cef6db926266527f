//! The whole assembler: from the text of a program to the text of its
//! words.

use vstd::prelude::*;
use crate::assembler::encoder::{binary_text, compile_command, machine_word, push_binary};
use crate::assembler::instruction::{views, CommandType, InstructionView};
use crate::assembler::parser::{parse_command, parse_spec, ParseError, ParseErrorView};
use crate::assembler::symbols::{
    replace_symbols, resolution, resolved_at, SymbolError, SymbolErrorView,
};
use crate::text::{cleaned, lines_of, raw_lines, source_lines, texts};

verus! {

/// Why a source text has no words.
#[derive(Clone, Debug, PartialEq, Eq)]
pub enum AssemblyError {
    /// A line is no instruction: the line as it was read, and why.
    Syntax { line: String, error: ParseError },
    /// The program cannot be resolved.
    Symbols(SymbolError),
}

/// The mathematical value of an [`AssemblyError`].
pub enum AssemblyErrorView {
    Syntax { line: Seq<char>, error: ParseErrorView },
    Symbols(SymbolErrorView),
}

impl View for AssemblyError {
    type V = AssemblyErrorView;

    open spec fn view(&self) -> AssemblyErrorView {
        match *self {
            AssemblyError::Syntax { line, error } => AssemblyErrorView::Syntax {
                line: line@,
                error: error@,
            },
            AssemblyError::Symbols(error) => AssemblyErrorView::Symbols(error@),
        }
    }
}

/// How many of the first `n` lines are read: all of them, or those before
/// the first that is no instruction.
pub open spec fn parsed_count(lines: Seq<Seq<char>>, n: int) -> int
    decreases n,
{
    if n <= 0 {
        0
    } else if parsed_count(lines, n - 1) == n - 1 && parse_spec(lines[n - 1]) is Ok {
        n
    } else {
        parsed_count(lines, n - 1)
    }
}

/// The instructions of the lines of a source text, or the first line that
/// is none.
pub open spec fn program_spec(source: Seq<char>) -> Result<Seq<InstructionView>, AssemblyErrorView> {
    let lines = source_lines(source);
    let count = parsed_count(lines, lines.len() as int);
    if count < lines.len() {
        Err(AssemblyErrorView::Syntax { line: lines[count], error: parse_spec(lines[count])->Err_0 })
    } else {
        Ok(Seq::new(lines.len(), |i: int| parse_spec(lines[i])->Ok_0))
    }
}

/// Tells the instructions that occupy a word from the label declarations.
pub open spec fn occupies_word() -> spec_fn(InstructionView) -> bool {
    |instruction: InstructionView| !instruction.is_label()
}

/// Tells the label declarations from the instructions that occupy a word.
pub open spec fn declares_label() -> spec_fn(InstructionView) -> bool {
    |instruction: InstructionView| instruction.is_label()
}

/// The program without its label declarations.
pub open spec fn instructions(program: Seq<InstructionView>) -> Seq<InstructionView> {
    program.filter(occupies_word())
}

/// The label declarations of the program.
pub open spec fn labels(program: Seq<InstructionView>) -> Seq<InstructionView> {
    program.filter(declares_label())
}

/// The text of a list of instructions: for each its sixteen binary digits
/// and a line feed.
pub open spec fn listing(program: Seq<InstructionView>) -> Seq<char>
    decreases program.len(),
{
    if program.len() == 0 {
        Seq::<char>::empty()
    } else {
        (listing(program.drop_last()) + binary_text(machine_word(program.last()))).push('\n')
    }
}

/// What the assembler makes of a source text: the listing of its resolved
/// instructions, or the first error. A line that is no instruction is
/// reported before any error of resolution.
pub open spec fn assembly(source: Seq<char>) -> Result<Seq<char>, AssemblyErrorView> {
    match program_spec(source) {
        Err(error) => Err(error),
        Ok(program) => match resolution(program) {
            Err(error) => Err(AssemblyErrorView::Symbols(error)),
            Ok(resolved) => Ok(listing(instructions(resolved))),
        },
    }
}

/// Every line of a source text holds a character.
pub proof fn lemma_source_lines_hold(lines: Seq<Seq<char>>, i: int)
    requires
        0 <= i < cleaned(lines).len(),
    ensures
        cleaned(lines)[i].len() > 0,
    decreases lines.len(),
{
    if lines.len() > 0 {
        if i < cleaned(lines.drop_last()).len() {
            lemma_source_lines_hold(lines.drop_last(), i);
        }
    }
}

/// Once a line has failed, the count of lines read stays.
proof fn lemma_parsed_count_stays(lines: Seq<Seq<char>>, k: int, n: int)
    requires
        0 <= k < n,
        parsed_count(lines, k) == k,
        parse_spec(lines[k]) is Err,
    ensures
        parsed_count(lines, n) == k,
    decreases n,
{
    if n > k + 1 {
        lemma_parsed_count_stays(lines, k, n - 1);
    }
}

/// Taking the label declarations out of a program removes as many
/// instructions as there are label declarations, and nothing else.
pub proof fn lemma_labels_removed(program: Seq<InstructionView>)
    ensures
        instructions(program).len() + labels(program).len() == program.len(),
    decreases program.len(),
{
    reveal(Seq::filter);
    if program.len() > 0 {
        lemma_labels_removed(program.drop_last());
    }
}

/// What is left of a resolved program once its label declarations are out
/// holds no name: each instruction has a word.
pub proof fn lemma_resolved_is_encodable(program: Seq<InstructionView>, i: int)
    requires
        resolution(program) is Ok,
        0 <= i < instructions(resolution(program)->Ok_0).len(),
    ensures
        instructions(resolution(program)->Ok_0)[i].is_encodable(),
{
    let resolved = resolution(program)->Ok_0;
    assert forall|j: int| 0 <= j < resolved.len() implies (#[trigger] resolved[j]).is_numeric() by {
        assert(resolved[j] == resolved_at(program, j));
    }
    lemma_filter_keeps(resolved, i);
}

/// Whatever holds no name before the label declarations are taken out holds
/// none after, and is no label.
proof fn lemma_filter_keeps(program: Seq<InstructionView>, i: int)
    requires
        forall|j: int| 0 <= j < program.len() ==> (#[trigger] program[j]).is_numeric(),
        0 <= i < instructions(program).len(),
    ensures
        instructions(program)[i].is_encodable(),
    decreases program.len(),
{
    reveal(Seq::filter);
    if program.len() > 0 {
        let before = program.drop_last();
        assert forall|j: int| 0 <= j < before.len() implies (#[trigger] before[j]).is_numeric() by {
            assert(before[j] == program[j]);
        }
        if i < instructions(before).len() {
            lemma_filter_keeps(before, i);
        }
    }
}

/// Reads the instructions of a source text: one for each line that holds
/// something once its comment is cut and it is trimmed.
pub fn parse_program(source: &str) -> (result: Result<Vec<CommandType>, AssemblyError>)
    ensures
        match program_spec(source@) {
            Ok(program) => result matches Ok(commands) && views(commands@) == program,
            Err(error) => result matches Err(e) && e@ == error,
        },
{
    let lines = lines_of(source);
    let ghost model = source_lines(source@);
    let mut commands: Vec<CommandType> = Vec::new();
    let mut i: usize = 0;
    while i < lines.len()
        invariant
            i <= lines.len(),
            model == source_lines(source@),
            texts(lines@) == model,
            parsed_count(model, i as int) == i,
            commands.len() == i,
            forall|j: int| 0 <= j < i ==> Ok::<InstructionView, ParseErrorView>(
                (#[trigger] commands@[j])@,
            ) == parse_spec(model[j]),
        decreases lines.len() - i,
    {
        proof {
            lemma_source_lines_hold(raw_lines(source@), i as int);
        }
        match parse_command(lines[i].as_str()) {
            Ok(command) => {
                commands.push(command);
            },
            Err(error) => {
                proof {
                    lemma_parsed_count_stays(model, i as int, model.len() as int);
                }
                return Err(AssemblyError::Syntax { line: lines[i].clone(), error });
            },
        }
        i = i + 1;
    }
    Ok(commands)
}

/// The program without its label declarations, which occupy no word.
pub fn remove_labels(commands: Vec<CommandType>) -> (kept: Vec<CommandType>)
    ensures
        views(kept@) == instructions(views(commands@)),
        kept.len() + labels(views(commands@)).len() == commands.len(),
{
    let ghost program = views(commands@);
    let mut kept: Vec<CommandType> = Vec::new();
    proof {
        reveal(Seq::filter);
    }
    for command in it: commands
        invariant
            views(it.seq()) == program,
            views(kept@) == instructions(program.take(it.index())),
    {
        proof {
            reveal(Seq::filter);
            assert(program.take(it.index() + 1).drop_last() =~= program.take(it.index()));
        }
        match command {
            CommandType::CommandL(_) => {},
            other => {
                kept.push(other);
            },
        }
    }
    proof {
        assert(program.take(program.len() as int) =~= program);
        lemma_labels_removed(program);
    }
    kept
}

/// Writes one line of sixteen binary digits for each instruction, none of
/// which holds a name or is a label.
pub fn write_listing(commands: &Vec<CommandType>) -> (text: String)
    requires
        forall|i: int| 0 <= i < commands.len() ==> (#[trigger] commands@[i])@.is_encodable(),
    ensures
        text@ == listing(views(commands@)),
{
    let ghost program = views(commands@);
    let mut text = String::new();
    let mut i: usize = 0;
    while i < commands.len()
        invariant
            i <= commands.len(),
            program == views(commands@),
            forall|i: int| 0 <= i < commands.len() ==> (#[trigger] commands@[i])@.is_encodable(),
            text@ == listing(program.take(i as int)),
        decreases commands.len() - i,
    {
        assert(program.take(i + 1).drop_last() =~= program.take(i as int));
        let word = compile_command(&commands[i]);
        push_binary(&mut text, word);
        text.push('\n');
        i = i + 1;
    }
    assert(program.take(i as int) =~= program);
    text
}

/// Assembles a source text: reads its lines, resolves the names, takes the
/// label declarations out and writes the words, one line of sixteen binary
/// digits each.
pub fn assemble(source: &str) -> (result: Result<String, AssemblyError>)
    ensures
        match assembly(source@) {
            Ok(text) => result matches Ok(listing) && listing@ == text,
            Err(error) => result matches Err(e) && e@ == error,
        },
{
    let mut commands = match parse_program(source) {
        Ok(commands) => commands,
        Err(error) => {
            return Err(error);
        },
    };
    let ghost program = views(commands@);
    match replace_symbols(&mut commands) {
        Ok(()) => {},
        Err(error) => {
            return Err(AssemblyError::Symbols(error));
        },
    }
    let kept = remove_labels(commands);
    proof {
        assert forall|i: int| 0 <= i < kept.len() implies (#[trigger] kept@[i])@.is_encodable() by {
            lemma_resolved_is_encodable(program, i);
        }
    }
    Ok(write_listing(&kept))
}

} // verus!
