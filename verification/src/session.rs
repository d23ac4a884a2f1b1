//! The decisions of a run once the queue of rename actions stands: whether
//! to do nothing, to preview, to ask first or to rename, what counts as
//! consent, and how an action and a failure are put into words.

use crate::boundary::lowercased;
use crate::text::{chars_of, string_of, trim, trimmed};
use vstd::prelude::*;
use vstd::string::StringExecFns;

verus! {

/// The switches of a run that bear on what happens to the queue.
#[derive(Clone, Copy, Debug, PartialEq, Eq, Structural)]
pub struct RunOptions {
    /// Show what would be renamed, rename nothing, ask nothing.
    pub dry_run: bool,
    /// The files of all subdirectories were collected.
    pub recursive: bool,
}

/// What a run does with its queue.
#[derive(Clone, Copy, Debug, PartialEq, Eq, Structural)]
pub enum Course {
    /// The queue is empty: say so and end.
    NothingToDo,
    /// Show the queue under the dry-run banner and end.
    Preview,
    /// Show the queue, ask whether to proceed, and rename only on consent.
    Confirm,
    /// Rename at once.
    Rename,
}

/// The course of a run with `queued` actions in its queue.
pub open spec fn course_of(options: RunOptions, queued: nat) -> Course {
    if queued == 0 {
        Course::NothingToDo
    } else if options.recursive && !options.dry_run {
        Course::Confirm
    } else if options.dry_run {
        Course::Preview
    } else {
        Course::Rename
    }
}

/// Whether `answer` is consent: trimmed and in lower case it reads `y`.
pub open spec fn is_consent(answer: Seq<char>) -> bool {
    lowercased(trimmed(answer)) == seq!['y']
}

/// Whether a run on `course` renames anything, `answer` being what was
/// answered where the course asks (`None` where nothing was).
pub open spec fn renames(course: Course, answer: Option<Seq<char>>) -> bool {
    match course {
        Course::Rename => true,
        Course::Confirm => answer matches Some(a) && is_consent(a),
        Course::Preview => false,
        Course::NothingToDo => false,
    }
}

/// Decides what a run does with a queue of `queued` actions.
pub fn course(options: RunOptions, queued: usize) -> (c: Course)
    ensures
        c == course_of(options, queued as nat),
        options.dry_run ==> c == Course::NothingToDo || c == Course::Preview,
{
    if queued == 0 {
        Course::NothingToDo
    } else if options.recursive && !options.dry_run {
        Course::Confirm
    } else if options.dry_run {
        Course::Preview
    } else {
        Course::Rename
    }
}

/// Whether `answer` to the question "proceed?" is consent.
pub fn consents(answer: &str) -> (yes: bool)
    ensures
        yes == is_consent(answer@),
{
    let stripped = string_of(&trim(&chars_of(answer)));
    let lower = chars_of(stripped.as_str().to_lowercase().as_str());
    let yes = lower.len() == 1 && lower[0] == 'y';
    assert(yes == (lower@ =~= seq!['y']));
    yes
}

/// Whether a run on `course` goes on to rename, given what was answered
/// where the course asks.
pub fn proceeds(course: Course, answer: Option<&str>) -> (go: bool)
    ensures
        go == renames(
            course,
            match answer {
                Some(a) => Some(a@),
                None => None,
            },
        ),
{
    match course {
        Course::Rename => true,
        Course::Confirm => match answer {
            Some(a) => consents(a),
            None => false,
        },
        Course::Preview => false,
        Course::NothingToDo => false,
    }
}

/// A dry run renames nothing, whatever is queued and whatever is answered.
pub proof fn lemma_dry_run_renames_nothing(
    options: RunOptions,
    queued: nat,
    answer: Option<Seq<char>>,
)
    requires
        options.dry_run,
    ensures
        !renames(course_of(options, queued), answer),
{
}

/// The line that shows an action: both names in single quotes with an arrow
/// between them.
pub open spec fn action_line_text(original_name: Seq<char>, new_name: Seq<char>) -> Seq<char> {
    "'"@ + original_name + "' -> '"@ + new_name + "'"@
}

/// The line that reports a rename that failed, with the system's words for
/// the reason.
pub open spec fn failure_line_text(original_name: Seq<char>, reason: Seq<char>) -> Seq<char> {
    "Failed to rename '"@ + original_name + "': "@ + reason
}

/// Puts an action into words.
pub fn action_line(original_name: &str, new_name: &str) -> (line: String)
    ensures
        line@ == action_line_text(original_name@, new_name@),
{
    let mut line = String::from_str("'");
    line.append(original_name);
    line.append("' -> '");
    line.append(new_name);
    line.append("'");
    line
}

/// Puts a failed rename into words.
pub fn failure_line(original_name: &str, reason: &str) -> (line: String)
    ensures
        line@ == failure_line_text(original_name@, reason@),
{
    let mut line = String::from_str("Failed to rename '");
    line.append(original_name);
    line.append("': ");
    line.append(reason);
    line
}

} // verus!
