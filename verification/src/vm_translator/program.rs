//! The whole translator: from the texts of the units of a program to one
//! assembly text.

use vstd::prelude::*;
use vstd::string::StringExecFns;
use crate::text::{
    is_white_space, lemma_trim_ends, lines_of, raw_lines, source_lines, texts, trim, words,
};
use crate::vm_translator::codegen::{
    call_code, code_at, compile_file, compiled_count, state_at, unit_code, CodeGenerator,
    CompileError, GeneratorView,
};
use crate::vm_translator::command::{views, CommandType, CommandView};
use crate::vm_translator::parser::{command_spec, parse_command, ParseError, ParseErrorView};

verus! {

/// One unit of a program: a source file.
#[derive(Clone, Debug, PartialEq, Eq)]
pub struct SourceUnit {
    /// The name of the file without its extension. The `static` cells of
    /// the unit are named after it.
    pub name: String,
    /// What the file holds.
    pub text: String,
}

/// The mathematical value of a [`SourceUnit`].
pub struct UnitView {
    pub name: Seq<char>,
    pub text: Seq<char>,
}

impl View for SourceUnit {
    type V = UnitView;

    open spec fn view(&self) -> UnitView {
        UnitView { name: self.name@, text: self.text@ }
    }
}

/// Why a line of a unit is no command: the line as it was read, and why.
#[derive(Clone, Debug, PartialEq, Eq)]
pub struct SyntaxError {
    pub line: String,
    pub error: ParseError,
}

/// The mathematical value of a [`SyntaxError`].
pub struct SyntaxErrorView {
    pub line: Seq<char>,
    pub error: ParseErrorView,
}

impl View for SyntaxError {
    type V = SyntaxErrorView;

    open spec fn view(&self) -> SyntaxErrorView {
        SyntaxErrorView { line: self.line@, error: self.error@ }
    }
}

/// What is wrong with a unit.
#[derive(Clone, Debug, PartialEq, Eq)]
pub enum UnitError {
    /// A line is no command.
    Syntax(SyntaxError),
    /// A command has no code.
    Compile(CompileError),
}

/// The mathematical value of a [`UnitError`].
pub enum UnitErrorView {
    Syntax(SyntaxErrorView),
    Compile(CompileError),
}

impl View for UnitError {
    type V = UnitErrorView;

    open spec fn view(&self) -> UnitErrorView {
        match *self {
            UnitError::Syntax(error) => UnitErrorView::Syntax(error@),
            UnitError::Compile(error) => UnitErrorView::Compile(error),
        }
    }
}

/// Why a program has no assembly text: the unit that is at fault, and what
/// is wrong with it.
#[derive(Clone, Debug, PartialEq, Eq)]
pub struct TranslationError {
    pub unit: String,
    pub error: UnitError,
}

/// The mathematical value of a [`TranslationError`].
pub struct TranslationErrorView {
    pub unit: Seq<char>,
    pub error: UnitErrorView,
}

impl View for TranslationError {
    type V = TranslationErrorView;

    open spec fn view(&self) -> TranslationErrorView {
        TranslationErrorView { unit: self.unit@, error: self.error@ }
    }
}

/// How many of the first `n` lines are read: all of them, or those before
/// the first that is no command.
pub open spec fn parsed_count(lines: Seq<Seq<char>>, n: int) -> int
    decreases n,
{
    if n <= 0 {
        0
    } else if parsed_count(lines, n - 1) == n - 1 && command_spec(words(lines[n - 1])) is Ok {
        n
    } else {
        parsed_count(lines, n - 1)
    }
}

/// The commands of the lines of a source text, or the first line that is
/// none.
pub open spec fn program_spec(source: Seq<char>) -> Result<Seq<CommandView>, SyntaxErrorView> {
    let lines = source_lines(source);
    let count = parsed_count(lines, lines.len() as int);
    if count < lines.len() {
        Err(SyntaxErrorView { line: lines[count], error: command_spec(words(lines[count]))->Err_0 })
    } else {
        Ok(Seq::new(lines.len(), |i: int| command_spec(words(lines[i]))->Ok_0))
    }
}

/// The code that starts a program: sets the stack pointer to 256 and calls
/// `Sys.init` without arguments, as any other call is made.
pub open spec fn bootstrap_code(state: GeneratorView) -> Seq<char> {
    "@256\nD=A\n@SP\nM=D\n"@ + call_code(
        state.current_function,
        state.command_number,
        "Sys.init"@,
        0,
    )
}

/// The text and the state of a translation under way.
pub struct Progress {
    pub text: Seq<char>,
    pub state: GeneratorView,
}

/// What the translation of one unit adds to a translation under way. A line
/// that is no command is reported before a command that has no code.
pub open spec fn unit_translation(unit: UnitView, before: Progress) -> Result<
    Progress,
    TranslationErrorView,
> {
    match program_spec(unit.text) {
        Err(error) => Err(
            TranslationErrorView { unit: unit.name, error: UnitErrorView::Syntax(error) },
        ),
        Ok(commands) => {
            let length = commands.len() as int;
            let compiled = compiled_count(unit.name, before.state, commands, length);
            if compiled < length {
                Err(
                    TranslationErrorView {
                        unit: unit.name,
                        error: UnitErrorView::Compile(
                            code_at(unit.name, before.state, commands, compiled)->Err_0,
                        ),
                    },
                )
            } else {
                Ok(
                    Progress {
                        text: before.text + unit_code(unit.name, before.state, commands, length),
                        state: state_at(before.state, commands, length),
                    },
                )
            }
        },
    }
}

/// Where a translation starts: with the bootstrap code as command number 0
/// if it is asked for, with nothing if not.
pub open spec fn start(use_bootstrap: bool) -> Progress {
    let fresh = GeneratorView { current_function: Seq::<char>::empty(), command_number: 0 };
    if use_bootstrap {
        Progress {
            text: bootstrap_code(fresh),
            state: GeneratorView { current_function: Seq::<char>::empty(), command_number: 1 },
        }
    } else {
        Progress { text: Seq::<char>::empty(), state: fresh }
    }
}

/// The translation of the first `n` units, in order. The state goes from
/// each unit to the next: commands are numbered through the whole program.
pub open spec fn translation(units: Seq<UnitView>, use_bootstrap: bool, n: int) -> Result<
    Progress,
    TranslationErrorView,
>
    decreases n,
{
    if n <= 0 {
        Ok(start(use_bootstrap))
    } else {
        match translation(units, use_bootstrap, n - 1) {
            Err(error) => Err(error),
            Ok(before) => unit_translation(units[n - 1], before),
        }
    }
}

/// The values of a list of units, in order.
pub open spec fn unit_views(units: Seq<SourceUnit>) -> Seq<UnitView> {
    units.map_values(|unit: SourceUnit| unit@)
}

/// A text that starts with a character that is no white space holds a
/// word.
pub proof fn lemma_words_exist(text: Seq<char>)
    requires
        text.len() > 0,
        !is_white_space(text[0]),
    ensures
        words(text).len() > 0,
    decreases text.len(),
{
    if text.len() > 1 {
        lemma_words_exist(text.drop_last());
    }
}

/// Every line of a source text holds a word.
pub proof fn lemma_source_lines_have_words(lines: Seq<Seq<char>>, i: int)
    requires
        0 <= i < crate::text::cleaned(lines).len(),
    ensures
        words(crate::text::cleaned(lines)[i]).len() > 0,
    decreases lines.len(),
{
    if lines.len() > 0 {
        if i < crate::text::cleaned(lines.drop_last()).len() {
            lemma_source_lines_have_words(lines.drop_last(), i);
        } else {
            let line = lines.last();
            lemma_trim_ends(line.subrange(0, crate::text::comment_start(line)));
            lemma_words_exist(crate::text::clean_line(line));
        }
    }
}

/// Once a line has failed, the count of lines read stays.
proof fn lemma_parsed_count_stays(lines: Seq<Seq<char>>, k: int, n: int)
    requires
        0 <= k < n,
        parsed_count(lines, k) == k,
        command_spec(words(lines[k])) is Err,
    ensures
        parsed_count(lines, n) == k,
    decreases n,
{
    if n > k + 1 {
        lemma_parsed_count_stays(lines, k, n - 1);
    }
}

/// Once a unit has failed, the translation has failed.
proof fn lemma_translation_stays(units: Seq<UnitView>, use_bootstrap: bool, k: int, n: int)
    requires
        0 <= k <= n,
        translation(units, use_bootstrap, k) is Err,
    ensures
        translation(units, use_bootstrap, n) == translation(units, use_bootstrap, k),
    decreases n,
{
    if n > k {
        lemma_translation_stays(units, use_bootstrap, k, n - 1);
    }
}

/// The commands of unit `k`, where its text can be read.
pub open spec fn unit_commands(units: Seq<UnitView>, k: int) -> Seq<CommandView> {
    program_spec(units[k].text)->Ok_0
}

/// The number under which command `i` of unit `k` is compiled.
pub open spec fn number_at(units: Seq<UnitView>, use_bootstrap: bool, k: int, i: int) -> nat {
    state_at(translation(units, use_bootstrap, k)->Ok_0.state, unit_commands(units, k), i).command_number
}

/// A translation that has come through `n` units has come through each
/// number of units before, and has counted every command of every unit.
pub proof fn lemma_translation_counts(units: Seq<UnitView>, use_bootstrap: bool, k: int, n: int)
    requires
        0 <= k < n,
        translation(units, use_bootstrap, n) is Ok,
    ensures
        translation(units, use_bootstrap, k) is Ok,
        translation(units, use_bootstrap, k + 1) is Ok,
        program_spec(units[k].text) is Ok,
        translation(units, use_bootstrap, k + 1)->Ok_0.state.command_number == translation(
            units,
            use_bootstrap,
            k,
        )->Ok_0.state.command_number + unit_commands(units, k).len(),
        translation(units, use_bootstrap, k + 1)->Ok_0.state.command_number <= translation(
            units,
            use_bootstrap,
            n,
        )->Ok_0.state.command_number,
    decreases n - k,
{
    if k + 1 < n {
        lemma_translation_counts(units, use_bootstrap, k + 1, n);
    }
}

/// After the bootstrap code, every number is 1 at least.
pub proof fn lemma_numbers_after_bootstrap(units: Seq<UnitView>, k: int)
    requires
        translation(units, true, k) is Ok,
    ensures
        translation(units, true, k)->Ok_0.state.command_number >= 1,
    decreases k,
{
    if k > 0 {
        lemma_numbers_after_bootstrap(units, k - 1);
    }
}

/// Commands are numbered through the whole program: a command of one unit
/// and a command of a later unit are compiled under different numbers, and
/// under numbers other than that of the bootstrap code, which is 0. So the
/// labels made from the numbers never clash between units either.
pub proof fn lemma_units_numbered_apart(
    units: Seq<UnitView>,
    use_bootstrap: bool,
    first: int,
    i: int,
    second: int,
    j: int,
)
    requires
        0 <= first < second < units.len(),
        translation(units, use_bootstrap, units.len() as int) is Ok,
        0 <= i < unit_commands(units, first).len(),
        0 <= j < unit_commands(units, second).len(),
    ensures
        number_at(units, use_bootstrap, first, i) < number_at(units, use_bootstrap, second, j),
        use_bootstrap ==> number_at(units, use_bootstrap, first, i) >= 1,
{
    lemma_translation_counts(units, use_bootstrap, second, units.len() as int);
    lemma_translation_counts(units, use_bootstrap, first, second);
    if use_bootstrap {
        lemma_numbers_after_bootstrap(units, first);
    }
}

/// Reads the commands of a source text: one for each line that holds
/// something once its comment is cut and it is trimmed.
pub fn parse_program(source: &str) -> (result: Result<Vec<CommandType>, SyntaxError>)
    ensures
        match program_spec(source@) {
            Ok(program) => result matches Ok(commands) && views(commands@) == program,
            Err(error) => result matches Err(e) && e@ == error,
        },
{
    let lines = lines_of(source);
    let ghost model = source_lines(source@);
    let mut commands: Vec<CommandType> = Vec::new();
    let mut i: usize = 0;
    while i < lines.len()
        invariant
            i <= lines.len(),
            model == source_lines(source@),
            texts(lines@) == model,
            parsed_count(model, i as int) == i,
            commands.len() == i,
            forall|j: int| 0 <= j < i ==> Ok::<CommandView, ParseErrorView>(
                (#[trigger] commands@[j])@,
            ) == command_spec(words(model[j])),
        decreases lines.len() - i,
    {
        proof {
            lemma_source_lines_have_words(raw_lines(source@), i as int);
        }
        match parse_command(lines[i].as_str()) {
            Ok(command) => {
                commands.push(command);
            },
            Err(error) => {
                proof {
                    lemma_parsed_count_stays(model, i as int, model.len() as int);
                }
                return Err(SyntaxError { line: lines[i].clone(), error });
            },
        }
        i = i + 1;
    }
    Ok(commands)
}

/// Appends the code that starts a program to `output`, and counts its call
/// as a command.
pub fn bootstrap(output: &mut String, state: &mut CodeGenerator)
    requires
        old(state).command_number < u128::MAX,
    ensures
        final(output)@ == old(output)@ + bootstrap_code(old(state)@),
        final(state)@ == (GeneratorView {
            current_function: old(state)@.current_function,
            command_number: old(state)@.command_number + 1,
        }),
{
    output.append("@256\nD=A\n@SP\nM=D\n");
    let call = CommandType::Call(String::from_str("Sys.init"), 0);
    let generated = state.generate("", &call, output);
    assert(generated is Ok);
}

/// Translates the units of a program, in the order given, into one assembly
/// text, which starts with the bootstrap code if that is asked for.
pub fn translate(units: &Vec<SourceUnit>, use_bootstrap: bool) -> (result: Result<
    String,
    TranslationError,
>)
    ensures
        match translation(unit_views(units@), use_bootstrap, units.len() as int) {
            Ok(progress) => result matches Ok(text) && text@ == progress.text,
            Err(error) => result matches Err(e) && e@ == error,
        },
{
    let ghost program = unit_views(units@);
    let mut output = String::new();
    let mut state = CodeGenerator::new();
    if use_bootstrap {
        bootstrap(&mut output, &mut state);
    }
    let mut i: usize = 0;
    while i < units.len()
        invariant
            i <= units.len(),
            program == unit_views(units@),
            translation(program, use_bootstrap, i as int) == Ok::<Progress, TranslationErrorView>(
                Progress { text: output@, state: state@ },
            ),
            state.command_number <= 1 + i * 0xFFFF_FFFF_FFFF_FFFF,
        decreases units.len() - i,
    {
        let unit = &units[i];
        let commands = match parse_program(unit.text.as_str()) {
            Ok(commands) => commands,
            Err(error) => {
                proof {
                    lemma_translation_stays(program, use_bootstrap, i + 1, units.len() as int);
                }
                return Err(
                    TranslationError { unit: unit.name.clone(), error: UnitError::Syntax(error) },
                );
            },
        };
        match compile_file(unit.name.as_str(), &commands, &mut output, &mut state) {
            Ok(()) => {},
            Err(error) => {
                proof {
                    lemma_translation_stays(program, use_bootstrap, i + 1, units.len() as int);
                }
                return Err(
                    TranslationError { unit: unit.name.clone(), error: UnitError::Compile(error) },
                );
            },
        }
        i = i + 1;
    }
    Ok(output)
}

} // verus!
