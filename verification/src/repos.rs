//! What a git command that has ended has to say.

use vstd::prelude::*;

verus! {

/// What is said of a git command that failed: its error output, or its
/// ordinary output when it wrote no errors.
pub open spec fn git_failure(stdout: Seq<char>, stderr: Seq<char>) -> Seq<char> {
    "git failed: "@ + (if stderr.len() == 0 {
        stdout
    } else {
        stderr
    })
}

/// Decides what a git command that has ended gives: its output when it
/// succeeded, and otherwise the reason why it failed.
pub fn git_outcome(success: bool, stdout: String, stderr: String) -> (r: Result<String, String>)
    ensures
        match r {
            Ok(out) => success && out@ == stdout@,
            Err(msg) => !success && msg@ == git_failure(stdout@, stderr@),
        },
{
    if success {
        Ok(stdout)
    } else {
        let mut msg = "git failed: ".to_owned();
        if stderr.as_str().is_empty() {
            msg.append(stdout.as_str());
        } else {
            msg.append(stderr.as_str());
        }
        Err(msg)
    }
}

} // verus!
