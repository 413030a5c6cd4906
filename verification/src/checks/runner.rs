//! Running the configured checks: which program each command runs, and what
//! the outcomes come to.
use vstd::prelude::*;
use vstd::string::*;

use crate::text;

verus! {

/// The outcome of one command.
#[derive(Debug, Clone, PartialEq, Eq)]
pub struct CommandResult {
    pub command: String,
    pub passed: bool,
    pub stdout: String,
    pub stderr: String,
}

/// The outcome of all commands.
#[derive(Debug, Clone, PartialEq, Eq)]
pub struct CheckResult {
    pub passed: bool,
    pub commands: Vec<CommandResult>,
}

/// The text of bytes in which what is not UTF-8 is replaced.
pub uninterp spec fn lossy_text(bytes: Seq<u8>) -> Seq<char>;

/// `String::from_utf8_lossy` gives the text of UTF-8 bytes, with a replacement
/// character in the place of what is not UTF-8. The text is a function of the
/// bytes alone.
#[verifier::external_body]
pub(crate) fn text_of_bytes(bytes: &Vec<u8>) -> (out: String)
    ensures
        out@ == lossy_text(bytes@),
{
    String::from_utf8_lossy(bytes).into_owned()
}

/// A program with its arguments.
#[derive(Debug, Clone, PartialEq, Eq)]
pub struct Invocation {
    pub program: String,
    pub args: Vec<String>,
}

/// What a command runs: its first word, with the others as arguments; nothing
/// where it has no words.
pub fn invocation(command: &str) -> (out: Option<Invocation>)
    ensures
        match out {
            Some(call) => text::words(command@).len() > 0 && call.program@ == text::words(
                command@,
            )[0] && text::views(call.args@) == text::words(command@).skip(1),
            None => text::words(command@).len() == 0,
        },
{
    let mut words: Vec<String> = text::word_strings(command);
    let ghost all = words@;
    if words.len() == 0 {
        return None;
    }
    let program: String = words.remove(0);
    assert(text::views(words@) =~= text::views(all).skip(1));
    Some(Invocation { program, args: words })
}

/// The outcome of a command that has nothing to run: it passes.
pub fn blank_result(command: &str) -> (out: CommandResult)
    ensures
        out.command@ == command@,
        out.passed,
        out.stdout@.len() == 0,
        out.stderr@.len() == 0,
{
    CommandResult {
        command: command.to_owned(),
        passed: true,
        stdout: String::new(),
        stderr: String::new(),
    }
}

/// The outcome of a command whose program ended.
pub fn run_command(command: &str, success: bool, stdout: &Vec<u8>, stderr: &Vec<u8>) -> (out:
    CommandResult)
    ensures
        out.command@ == command@,
        out.passed == success,
        out.stdout@ == lossy_text(stdout@),
        out.stderr@ == lossy_text(stderr@),
{
    CommandResult {
        command: command.to_owned(),
        passed: success,
        stdout: text_of_bytes(stdout),
        stderr: text_of_bytes(stderr),
    }
}

/// Whether every command passed.
pub open spec fn all_passed(results: Seq<CommandResult>) -> bool {
    forall|i: int| 0 <= i < results.len() ==> (#[trigger] results[i]).passed
}

/// The outcome of all commands: passed where each of them did.
pub fn run_checks(results: Vec<CommandResult>) -> (out: CheckResult)
    ensures
        out.commands@ == results@,
        out.passed == all_passed(results@),
{
    let mut passed: bool = true;
    let mut i: usize = 0;
    while i < results.len()
        invariant
            i <= results@.len(),
            passed == all_passed(results@.take(i as int)),
        decreases results@.len() - i,
    {
        let ghost before = results@.take(i as int);
        let ghost after = results@.take(i + 1);
        assert(after =~= before.push(results@[i as int]));
        if !results[i].passed {
            passed = false;
            assert(!after[i as int].passed);
        }
        proof {
            if all_passed(after) {
                assert forall|k: int| 0 <= k < before.len() implies (#[trigger]
                before[k]).passed by {
                    assert(after[k] == before[k]);
                }
            }
        }
        i = i + 1;
    }
    assert(results@.take(i as int) =~= results@);
    CheckResult { passed, commands: results }
}

/// The message about a command that could not be run.
pub open spec fn spawn_failure(command: Seq<char>) -> Seq<char> {
    "Failed to spawn command: "@ + command
}

/// The message about a command that could not be run.
pub fn spawn_failure_message(command: &str) -> (out: String)
    ensures
        out@ == spawn_failure(command@),
{
    let mut out: String = "Failed to spawn command: ".to_owned();
    out.append(command);
    out
}

/// The checks passed exactly where no command failed: one that fails fails them all,
/// and one that passes changes nothing.
pub proof fn law_one_failure_fails_the_checks(
    results: Seq<CommandResult>,
    more: CommandResult,
)
    ensures
        all_passed(Seq::<CommandResult>::empty()),
        all_passed(results.push(more)) <==> all_passed(results) && more.passed,
{
    let after = results.push(more);
    if all_passed(after) {
        assert forall|i: int| 0 <= i < results.len() implies (#[trigger] results[i]).passed by {
            assert(after[i] == results[i]);
        }
        assert(after[results.len() as int] == more);
    }
}

} // verus!
