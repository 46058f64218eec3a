//! The text lines shown to the operator.

use vstd::prelude::*;
use vstd::string::*;

verus! {

/// Text of the summary line of a target whose worker has ended.
pub open spec fn finished_text(target: Seq<char>, duration: Seq<char>) -> Seq<char> {
    "Finished "@ + target + " after "@ + duration
}

/// Text of the line that reports a write failure.
pub open spec fn write_error_text(target: Seq<char>, message: Seq<char>) -> Seq<char> {
    "Error writing to "@ + target + ": "@ + message
}

/// Text of the notice printed when the device query gave no size.
pub open spec fn fallback_text(reason: Seq<char>) -> Seq<char> {
    "Error getting size the standard way; falling back to fs2 ("@ + reason + ")"@
}

/// Text of the line that reports a target whose capacity no query could give.
pub open spec fn no_capacity_text(target: Seq<char>, reason: Seq<char>) -> Seq<char> {
    "Couldn't get the total space for "@ + target + " ("@ + reason + ")"@
}

/// Text of the line that reports a target that could not be opened.
pub open spec fn open_error_text(target: Seq<char>, reason: Seq<char>) -> Seq<char> {
    "Couldn't open "@ + target + " ("@ + reason + ")"@
}

/// Text of the line that reports a target for which no random stream could be
/// seeded.
pub open spec fn no_entropy_text(target: Seq<char>, reason: Seq<char>) -> Seq<char> {
    "Couldn't seed the random stream for "@ + target + " ("@ + reason + ")"@
}

/// Text of the reason given for device output that is no byte count.
pub open spec fn invalid_size_text(output: Seq<char>) -> Seq<char> {
    "Invalid disk size number? "@ + output
}

/// Builds the summary line `Finished <target> after <duration>`.
pub fn finished_line(target: &str, duration: &str) -> (line: String)
    ensures
        line@ == finished_text(target@, duration@),
{
    let mut line = String::from_str("Finished ");
    line.append(target);
    line.append(" after ");
    line.append(duration);
    line
}

/// Builds the line `Error writing to <target>: <message>`.
pub fn write_error_line(target: &str, message: &str) -> (line: String)
    ensures
        line@ == write_error_text(target@, message@),
{
    let mut line = String::from_str("Error writing to ");
    line.append(target);
    line.append(": ");
    line.append(message);
    line
}

/// Builds the notice that the filesystem query takes over from the device query.
pub fn fallback_notice(reason: &str) -> (line: String)
    ensures
        line@ == fallback_text(reason@),
{
    let mut line = String::from_str("Error getting size the standard way; falling back to fs2 (");
    line.append(reason);
    line.append(")");
    line
}

/// Builds the line `Couldn't get the total space for <target> (<reason>)`.
pub fn no_capacity_line(target: &str, reason: &str) -> (line: String)
    ensures
        line@ == no_capacity_text(target@, reason@),
{
    let mut line = String::from_str("Couldn't get the total space for ");
    line.append(target);
    line.append(" (");
    line.append(reason);
    line.append(")");
    line
}

/// Builds the line `Couldn't open <target> (<reason>)`.
pub fn open_error_line(target: &str, reason: &str) -> (line: String)
    ensures
        line@ == open_error_text(target@, reason@),
{
    let mut line = String::from_str("Couldn't open ");
    line.append(target);
    line.append(" (");
    line.append(reason);
    line.append(")");
    line
}

/// Builds the line `Couldn't seed the random stream for <target> (<reason>)`.
pub fn no_entropy_line(target: &str, reason: &str) -> (line: String)
    ensures
        line@ == no_entropy_text(target@, reason@),
{
    let mut line = String::from_str("Couldn't seed the random stream for ");
    line.append(target);
    line.append(" (");
    line.append(reason);
    line.append(")");
    line
}

/// Builds the reason `Invalid disk size number? <output>`.
pub fn invalid_size_reason(output: &str) -> (reason: String)
    ensures
        reason@ == invalid_size_text(output@),
{
    let mut reason = String::from_str("Invalid disk size number? ");
    reason.append(output);
    reason
}

} // verus!
