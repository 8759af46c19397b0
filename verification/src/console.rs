//! The decisions of the command-line program: the delimiter argument, and
//! what the interactive console does with each line it reads.

use vstd::prelude::*;

use vstd::string::StringSliceAdditionalSpecFns;

use crate::errors::CsvQueryError;

verus! {

broadcast use vstd::string::group_string_axioms;

/// Whether `c` has the Unicode `White_Space` property, which is what
/// `char::is_whitespace` and `str::trim` go by.
pub open spec fn is_white_space(c: char) -> bool {
    let u = c as u32;
    ||| 0x09 <= u <= 0x0D
    ||| u == 0x20
    ||| u == 0x85
    ||| u == 0xA0
    ||| u == 0x1680
    ||| 0x2000 <= u <= 0x200A
    ||| u == 0x2028
    ||| u == 0x2029
    ||| u == 0x202F
    ||| u == 0x205F
    ||| u == 0x3000
}

/// Whether a line holds nothing but white space, so that trimming it leaves
/// nothing.
pub open spec fn is_blank_line(line: Seq<char>) -> bool {
    forall|k: int| 0 <= k < line.len() ==> is_white_space(#[trigger] line[k])
}

/// Whether `c` has the Unicode `White_Space` property.
pub fn white_space(c: char) -> (b: bool)
    ensures
        b == is_white_space(c),
{
    let u = c as u32;
    (0x09 <= u && u <= 0x0D) || u == 0x20 || u == 0x85 || u == 0xA0 || u == 0x1680 || (0x2000
        <= u && u <= 0x200A) || u == 0x2028 || u == 0x2029 || u == 0x202F || u == 0x205F || u
        == 0x3000
}

/// Whether `line` is empty once trimmed.
pub fn is_blank(line: &str) -> (b: bool)
    ensures
        b == is_blank_line(line@),
{
    let ghost chars = line@;
    for c in it: line.chars()
        invariant
            it.seq() == chars,
            chars == line@,
            forall|k: int| 0 <= k < it.index() ==> is_white_space(#[trigger] chars[k]),
    {
        if !white_space(c) {
            assert(c == chars[it.index()]);
            assert(!is_white_space(chars[it.index()]));
            return false;
        }
    }
    true
}

/// The delimiter given on the command line: its one byte, or an error when it
/// is longer than one byte.
pub fn parse_delimiter(arg: &str) -> (r: Result<u8, CsvQueryError>)
    requires
        arg.spec_bytes().len() > 0,
    ensures
        match r {
            Ok(b) => arg.spec_bytes().len() == 1 && b == arg.spec_bytes()[0],
            Err(e) => arg.spec_bytes().len() > 1 && (e matches CsvQueryError::InvalidDelimiter(
                given,
            ) && given@ == arg@),
        },
{
    let bytes = arg.as_bytes();
    if bytes.len() > 1 {
        return Err(CsvQueryError::InvalidDelimiter(arg.to_owned()));
    }
    Ok(bytes[0])
}

/// What the console read.
pub enum ConsoleInput {
    /// A line of text.
    Line(String),
    /// The user pressed Ctrl-C.
    Interrupted,
    /// The input ended.
    Eof,
    /// Reading failed otherwise.
    Failed,
}

/// What the console does next.
#[derive(Debug, PartialEq, Eq)]
pub enum ConsoleAction {
    /// Read the next line.
    Ignore,
    /// Remember the line in the history, run it as a query, report any error
    /// and read the next line.
    Run(String),
    /// Leave the console normally.
    Finish,
    /// Leave the console with the reading error.
    Abort,
}

/// The console's decision on what it read: blank lines are skipped, other
/// lines are run as queries, Ctrl-C and the end of input leave the console,
/// and a reading error ends it with that error.
pub fn next_action(input: ConsoleInput) -> (action: ConsoleAction)
    ensures
        match input {
            ConsoleInput::Line(line) => if is_blank_line(line@) {
                action is Ignore
            } else {
                action matches ConsoleAction::Run(q) && q@ == line@
            },
            ConsoleInput::Interrupted => action is Finish,
            ConsoleInput::Eof => action is Finish,
            ConsoleInput::Failed => action is Abort,
        },
{
    match input {
        ConsoleInput::Line(line) => {
            if is_blank(line.as_str()) {
                ConsoleAction::Ignore
            } else {
                ConsoleAction::Run(line)
            }
        },
        ConsoleInput::Interrupted => ConsoleAction::Finish,
        ConsoleInput::Eof => ConsoleAction::Finish,
        ConsoleInput::Failed => ConsoleAction::Abort,
    }
}

} // verus!
