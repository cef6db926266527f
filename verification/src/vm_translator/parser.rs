//! Reading one line of the stack-machine language.

use vstd::prelude::*;
use crate::text::{chars_of, parse_u16, read_u16, spells, split_words, texts, words};
use crate::vm_translator::command::{ArithmeticOperation, CommandType, CommandView, Segment};

verus! {

/// Why a line is no command.
#[derive(Clone, Debug, PartialEq, Eq)]
pub enum ParseError {
    /// The first word is none of the seventeen keywords.
    UnknownCommand(String),
    /// The word after `push` or `pop` names none of the eight segments.
    UnknownSegment(String),
    /// The word that should be a number is none that fits 16 bits.
    InvalidNumber(String),
    /// The command of this keyword has too few or too many words.
    WrongArgumentCount(String),
}

/// The mathematical value of a [`ParseError`].
pub enum ParseErrorView {
    UnknownCommand(Seq<char>),
    UnknownSegment(Seq<char>),
    InvalidNumber(Seq<char>),
    WrongArgumentCount(Seq<char>),
}

impl View for ParseError {
    type V = ParseErrorView;

    open spec fn view(&self) -> ParseErrorView {
        match *self {
            ParseError::UnknownCommand(word) => ParseErrorView::UnknownCommand(word@),
            ParseError::UnknownSegment(word) => ParseErrorView::UnknownSegment(word@),
            ParseError::InvalidNumber(word) => ParseErrorView::InvalidNumber(word@),
            ParseError::WrongArgumentCount(word) => ParseErrorView::WrongArgumentCount(word@),
        }
    }
}

/// The value of what parsing a command returns.
pub open spec fn parsed(result: Result<CommandType, ParseError>) -> Result<
    CommandView,
    ParseErrorView,
> {
    match result {
        Ok(command) => Ok(command@),
        Err(error) => Err(error@),
    }
}

/// The value of what looking up a segment returns.
pub open spec fn found(result: Result<Segment, ParseError>) -> Result<Segment, ParseErrorView> {
    match result {
        Ok(segment) => Ok(segment),
        Err(error) => Err(error@),
    }
}

/// The segment that `name` names.
pub open spec fn segment_spec(name: Seq<char>) -> Result<Segment, ParseErrorView> {
    if name == "local"@ {
        Ok(Segment::Local)
    } else if name == "argument"@ {
        Ok(Segment::Argument)
    } else if name == "this"@ {
        Ok(Segment::This)
    } else if name == "that"@ {
        Ok(Segment::That)
    } else if name == "constant"@ {
        Ok(Segment::Constant)
    } else if name == "static"@ {
        Ok(Segment::Static)
    } else if name == "temp"@ {
        Ok(Segment::Temp)
    } else if name == "pointer"@ {
        Ok(Segment::Pointer)
    } else {
        Err(ParseErrorView::UnknownSegment(name))
    }
}

/// The operator that `keyword` names, if it names one.
pub open spec fn operator_spec(keyword: Seq<char>) -> Option<ArithmeticOperation> {
    if keyword == "add"@ {
        Some(ArithmeticOperation::Add)
    } else if keyword == "sub"@ {
        Some(ArithmeticOperation::Sub)
    } else if keyword == "neg"@ {
        Some(ArithmeticOperation::Neg)
    } else if keyword == "eq"@ {
        Some(ArithmeticOperation::Eq)
    } else if keyword == "gt"@ {
        Some(ArithmeticOperation::Gt)
    } else if keyword == "lt"@ {
        Some(ArithmeticOperation::Lt)
    } else if keyword == "and"@ {
        Some(ArithmeticOperation::And)
    } else if keyword == "or"@ {
        Some(ArithmeticOperation::Or)
    } else if keyword == "not"@ {
        Some(ArithmeticOperation::Not)
    } else {
        None
    }
}

/// A segment and an offset, read from the second and third of exactly three
/// words. The count of words is checked first, then the segment, then the
/// number.
pub open spec fn access_spec(line: Seq<Seq<char>>) -> Result<(Segment, u16), ParseErrorView> {
    if line.len() != 3 {
        Err(ParseErrorView::WrongArgumentCount(line[0]))
    } else {
        match segment_spec(line[1]) {
            Err(error) => Err(error),
            Ok(segment) => match parse_u16(line[2]) {
                None => Err(ParseErrorView::InvalidNumber(line[2])),
                Some(offset) => Ok((segment, offset)),
            },
        }
    }
}

/// A function's name and a count, read from the second and third of exactly
/// three words.
pub open spec fn named_count_spec(line: Seq<Seq<char>>) -> Result<(Seq<char>, u16), ParseErrorView> {
    if line.len() != 3 {
        Err(ParseErrorView::WrongArgumentCount(line[0]))
    } else {
        match parse_u16(line[2]) {
            None => Err(ParseErrorView::InvalidNumber(line[2])),
            Some(count) => Ok((line[1], count)),
        }
    }
}

/// A label's name, read from the second word; further words count for
/// nothing.
pub open spec fn target_spec(line: Seq<Seq<char>>) -> Result<Seq<char>, ParseErrorView> {
    if line.len() < 2 {
        Err(ParseErrorView::WrongArgumentCount(line[0]))
    } else {
        Ok(line[1])
    }
}

/// The command that the words of a line make, the first of which is the
/// keyword. After an operator or `return`, further words count for nothing.
pub open spec fn command_spec(line: Seq<Seq<char>>) -> Result<CommandView, ParseErrorView>
    recommends
        line.len() > 0,
{
    let keyword = line[0];
    if operator_spec(keyword) is Some {
        Ok(CommandView::Arithmetic(operator_spec(keyword)->Some_0))
    } else if keyword == "push"@ {
        match access_spec(line) {
            Ok((segment, offset)) => Ok(CommandView::Push(segment, offset)),
            Err(error) => Err(error),
        }
    } else if keyword == "pop"@ {
        match access_spec(line) {
            Ok((segment, offset)) => Ok(CommandView::Pop(segment, offset)),
            Err(error) => Err(error),
        }
    } else if keyword == "label"@ {
        match target_spec(line) {
            Ok(name) => Ok(CommandView::Label(name)),
            Err(error) => Err(error),
        }
    } else if keyword == "goto"@ {
        match target_spec(line) {
            Ok(name) => Ok(CommandView::Goto(name)),
            Err(error) => Err(error),
        }
    } else if keyword == "if-goto"@ {
        match target_spec(line) {
            Ok(name) => Ok(CommandView::IfGoto(name)),
            Err(error) => Err(error),
        }
    } else if keyword == "call"@ {
        match named_count_spec(line) {
            Ok((name, count)) => Ok(CommandView::Call(name, count)),
            Err(error) => Err(error),
        }
    } else if keyword == "function"@ {
        match named_count_spec(line) {
            Ok((name, count)) => Ok(CommandView::Function(name, count)),
            Err(error) => Err(error),
        }
    } else if keyword == "return"@ {
        Ok(CommandView::Return)
    } else {
        Err(ParseErrorView::UnknownCommand(keyword))
    }
}

/// The segment that `segment` names, or that it names none.
pub fn get_segment(segment: &str) -> (result: Result<Segment, ParseError>)
    ensures
        found(result) == segment_spec(segment@),
{
    let chars = chars_of(segment);
    let name = chars.as_slice();
    if spells(name, "local") {
        Ok(Segment::Local)
    } else if spells(name, "argument") {
        Ok(Segment::Argument)
    } else if spells(name, "this") {
        Ok(Segment::This)
    } else if spells(name, "that") {
        Ok(Segment::That)
    } else if spells(name, "constant") {
        Ok(Segment::Constant)
    } else if spells(name, "static") {
        Ok(Segment::Static)
    } else if spells(name, "temp") {
        Ok(Segment::Temp)
    } else if spells(name, "pointer") {
        Ok(Segment::Pointer)
    } else {
        Err(ParseError::UnknownSegment(segment.to_owned()))
    }
}

fn operator_of(keyword: &[char]) -> (operator: Option<ArithmeticOperation>)
    ensures
        operator == operator_spec(keyword@),
{
    if spells(keyword, "add") {
        Some(ArithmeticOperation::Add)
    } else if spells(keyword, "sub") {
        Some(ArithmeticOperation::Sub)
    } else if spells(keyword, "neg") {
        Some(ArithmeticOperation::Neg)
    } else if spells(keyword, "eq") {
        Some(ArithmeticOperation::Eq)
    } else if spells(keyword, "gt") {
        Some(ArithmeticOperation::Gt)
    } else if spells(keyword, "lt") {
        Some(ArithmeticOperation::Lt)
    } else if spells(keyword, "and") {
        Some(ArithmeticOperation::And)
    } else if spells(keyword, "or") {
        Some(ArithmeticOperation::Or)
    } else if spells(keyword, "not") {
        Some(ArithmeticOperation::Not)
    } else {
        None
    }
}

fn number_of(word: &String) -> (result: Result<u16, ParseError>)
    ensures
        match parse_u16(word@) {
            Some(number) => result == Ok::<u16, ParseError>(number),
            None => result matches Err(error) && error@ == ParseErrorView::InvalidNumber(word@),
        },
{
    let chars = chars_of(word.as_str());
    match read_u16(chars.as_slice()) {
        Some(number) => Ok(number),
        None => Err(ParseError::InvalidNumber(word.clone())),
    }
}

fn access_of(line: &Vec<String>) -> (result: Result<(Segment, u16), ParseError>)
    requires
        line.len() > 0,
    ensures
        match access_spec(texts(line@)) {
            Ok(pair) => result == Ok::<(Segment, u16), ParseError>(pair),
            Err(view) => result matches Err(error) && error@ == view,
        },
{
    if line.len() != 3 {
        return Err(ParseError::WrongArgumentCount(line[0].clone()));
    }
    let segment = match get_segment(line[1].as_str()) {
        Ok(segment) => segment,
        Err(error) => {
            return Err(error);
        },
    };
    match number_of(&line[2]) {
        Ok(offset) => Ok((segment, offset)),
        Err(error) => Err(error),
    }
}

fn named_count_of(line: &Vec<String>) -> (result: Result<(String, u16), ParseError>)
    requires
        line.len() > 0,
    ensures
        match named_count_spec(texts(line@)) {
            Ok(pair) => result matches Ok(named) && named.0@ == pair.0 && named.1 == pair.1,
            Err(view) => result matches Err(error) && error@ == view,
        },
{
    if line.len() != 3 {
        return Err(ParseError::WrongArgumentCount(line[0].clone()));
    }
    match number_of(&line[2]) {
        Ok(count) => Ok((line[1].clone(), count)),
        Err(error) => Err(error),
    }
}

fn target_of(line: &Vec<String>) -> (result: Result<String, ParseError>)
    requires
        line.len() > 0,
    ensures
        match target_spec(texts(line@)) {
            Ok(name) => result matches Ok(text) && text@ == name,
            Err(view) => result matches Err(error) && error@ == view,
        },
{
    if line.len() < 2 {
        Err(ParseError::WrongArgumentCount(line[0].clone()))
    } else {
        Ok(line[1].clone())
    }
}

/// Builds the command that the words of a line make.
pub fn parse_words(line: &Vec<String>) -> (result: Result<CommandType, ParseError>)
    requires
        line.len() > 0,
    ensures
        parsed(result) == command_spec(texts(line@)),
{
    let chars = chars_of(line[0].as_str());
    let keyword = chars.as_slice();
    if let Some(operator) = operator_of(keyword) {
        Ok(CommandType::Arithmetic(operator))
    } else if spells(keyword, "push") {
        match access_of(line) {
            Ok((segment, offset)) => Ok(CommandType::Push(segment, offset)),
            Err(error) => Err(error),
        }
    } else if spells(keyword, "pop") {
        match access_of(line) {
            Ok((segment, offset)) => Ok(CommandType::Pop(segment, offset)),
            Err(error) => Err(error),
        }
    } else if spells(keyword, "label") {
        match target_of(line) {
            Ok(name) => Ok(CommandType::Label(name)),
            Err(error) => Err(error),
        }
    } else if spells(keyword, "goto") {
        match target_of(line) {
            Ok(name) => Ok(CommandType::Goto(name)),
            Err(error) => Err(error),
        }
    } else if spells(keyword, "if-goto") {
        match target_of(line) {
            Ok(name) => Ok(CommandType::IfGoto(name)),
            Err(error) => Err(error),
        }
    } else if spells(keyword, "call") {
        match named_count_of(line) {
            Ok((name, count)) => Ok(CommandType::Call(name, count)),
            Err(error) => Err(error),
        }
    } else if spells(keyword, "function") {
        match named_count_of(line) {
            Ok((name, count)) => Ok(CommandType::Function(name, count)),
            Err(error) => Err(error),
        }
    } else if spells(keyword, "return") {
        Ok(CommandType::Return)
    } else {
        Err(ParseError::UnknownCommand(line[0].clone()))
    }
}

/// Reads one line of the stack-machine language, which holds a word at
/// least. The words are what `str::split_whitespace` yields.
pub fn parse_command(command: &str) -> (result: Result<CommandType, ParseError>)
    requires
        words(command@).len() > 0,
    ensures
        parsed(result) == command_spec(words(command@)),
{
    let chars = chars_of(command);
    let line = split_words(chars.as_slice());
    parse_words(&line)
}

} // verus!
