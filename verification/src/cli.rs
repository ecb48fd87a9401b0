//! What the program writes and with which code it exits.

use vstd::prelude::*;

use crate::path::PathError;
use crate::search;
use crate::search::SearchError;
use crate::text;

verus! {

/// The exit code where the marker was found.
pub const EXIT_FOUND: u8 = 0;

/// The exit code where the marker was not found.
pub const EXIT_NOT_FOUND: u8 = 1;

/// The exit code where the parameters are wrong or the system fails.
pub const EXIT_FAILURE: u8 = 2;

/// What the program writes to its two outputs, and its exit code.
#[derive(Debug)]
pub struct Report {
    /// What it writes to standard output.
    pub stdout: String,
    /// What it writes to standard error.
    pub stderr: String,
    /// Its exit code.
    pub exit_code: u8,
}

/// Why the command line was not turned into parameters.
#[derive(Clone, Copy, Debug, PartialEq, Eq, Structural)]
pub enum UsageKind {
    /// Help was asked for.
    Help,
    /// The version was asked for.
    Version,
    /// The parameters are wrong.
    Error,
}

/// A line of text: the text and the line feed behind it.
pub open spec fn line(text: Seq<char>) -> Seq<char> {
    text.push('\n')
}

/// Writes a line that says `prefix` and `rest`.
fn line_of(prefix: &str, rest: &str) -> (r: String)
    ensures
        r@ == line(prefix@ + rest@),
{
    let mut r = text::join(prefix, rest);
    r.push('\n');
    r
}

/// A report that goes to standard error where `to_stderr`, and else to standard
/// output.
fn one_output(text: String, to_stderr: bool, exit_code: u8) -> (r: Report)
    ensures
        r.stdout@ == (if to_stderr { Seq::empty() } else { text@ }),
        r.stderr@ == (if to_stderr { text@ } else { Seq::empty() }),
        r.exit_code == exit_code,
{
    if to_stderr {
        Report { stdout: String::new(), stderr: text, exit_code }
    } else {
        Report { stdout: text, stderr: String::new(), exit_code }
    }
}

/// Whether the program is called without parameters, and shows its help: the
/// name of the program is then its only argument.
pub fn wants_help(argument_count: usize) -> (r: bool)
    ensures
        r == (argument_count == 1),
{
    argument_count == 1
}

/// Whether one of the arguments is `--verbose`.
pub fn verbose_requested(arguments: &Vec<String>) -> (r: bool)
    ensures
        r == exists|i: int|
            0 <= i < arguments.len() && (#[trigger] arguments@[i])@ == "--verbose"@,
{
    let mut i: usize = 0;
    while i < arguments.len()
        invariant
            i <= arguments.len(),
            forall|k: int| 0 <= k < i ==> (#[trigger] arguments@[k])@ != "--verbose"@,
        decreases arguments.len() - i,
    {
        if text::same_text(&arguments[i], "--verbose") {
            return true;
        }
        i = i + 1;
    }
    false
}

/// The report on a command line that was not turned into parameters: what the
/// command line parser says, with its exit code. It goes to standard output,
/// but to standard error where the parameters are wrong and `--verbose` is one
/// of them.
pub fn usage_report(verbose_requested: bool, kind: UsageKind, message: String, exit_code: u8) -> (r:
    Report)
    ensures
        verbose_requested && kind == UsageKind::Error ==> r.stdout@.len() == 0 && r.stderr@
            == message@,
        !(verbose_requested && kind == UsageKind::Error) ==> r.stdout@ == message@
            && r.stderr@.len() == 0,
        r.exit_code == exit_code,
{
    let to_stderr = match kind {
        UsageKind::Error => verbose_requested,
        UsageKind::Help => false,
        UsageKind::Version => false,
    };
    one_output(message, to_stderr, exit_code)
}

/// The report on a path that cannot be searched for. As with all wrong
/// parameters, it goes to standard output, or to standard error in a verbose
/// run.
pub fn invalid_path_report(error: PathError, verbose: bool) -> (r: Report)
    ensures
        verbose ==> r.stdout@.len() == 0 && r.stderr@ == line("Invalid path: "@ + error.text()),
        !verbose ==> r.stdout@ == line("Invalid path: "@ + error.text()) && r.stderr@.len() == 0,
        r.exit_code == EXIT_FAILURE,
{
    one_output(line_of("Invalid path: ", &error.message()), verbose, EXIT_FAILURE)
}

/// The report on a finished search: the path alone where the marker was found,
/// nothing where it was not, and nothing but the reason, in a verbose run, where
/// the search failed.
pub fn search_report(result: Result<Option<String>, SearchError>, verbose: bool) -> (r: Report)
    ensures
        match search::result_facts(result) {
            Ok(Some(found)) => {
                &&& r.exit_code == EXIT_FOUND
                &&& r.stdout@ == line(found)
                &&& r.stderr@.len() == 0
            },
            Ok(None) => {
                &&& r.exit_code == EXIT_NOT_FOUND
                &&& r.stdout@.len() == 0
                &&& r.stderr@.len() == 0
            },
            Err(error) => {
                &&& r.exit_code == EXIT_FAILURE
                &&& r.stdout@.len() == 0
                &&& r.stderr@ == (if verbose {
                    line("Search failed: "@ + error)
                } else {
                    Seq::empty()
                })
            },
        },
{
    match result {
        Ok(Some(found)) => {
            let mut stdout = found;
            stdout.push('\n');
            Report { stdout, stderr: String::new(), exit_code: EXIT_FOUND }
        },
        Ok(None) => {
            Report { stdout: String::new(), stderr: String::new(), exit_code: EXIT_NOT_FOUND }
        },
        Err(SearchError::System(error)) => {
            let stderr = if verbose {
                line_of("Search failed: ", &error)
            } else {
                String::new()
            };
            Report { stdout: String::new(), stderr, exit_code: EXIT_FAILURE }
        },
    }
}

/// A line is the text, all of it, and one line feed.
pub proof fn line_is_text_and_line_feed(text: Seq<char>)
    ensures
        line(text).len() == text.len() + 1,
        forall|i: int| 0 <= i < text.len() ==> #[trigger] line(text)[i] == text[i],
        line(text)[text.len() as int] as int == 10,
{
}

} // verus!
