//! Bounded capture of a command's output.  The subprocess itself is
//! spawned by the caller; this module builds the result value: each
//! stream is truncated independently to a fixed cap with an explicit
//! marker, success is derived from the exit code, and exit code `-1`
//! stands for a launch failure rather than a command-level failure.

use vstd::prelude::*;

use crate::text::{i32_to_string, spec_int_str};

verus! {

/// Characters of captured output kept per stream.
pub const MAX_CAPTURE_LEN: usize = 800;

/// The marker appended to a stream that was cut at the cap.
pub open spec fn truncation_marker() -> Seq<char> {
    "\n... (truncated)"@
}

/// The stored view of a captured text: the text itself when it fits the
/// cap, else its first `MAX_CAPTURE_LEN` characters with the marker
/// appended — never a silent cut.
pub open spec fn spec_truncate(s: Seq<char>) -> Seq<char> {
    if s.len() > MAX_CAPTURE_LEN {
        s.take(MAX_CAPTURE_LEN as int) + truncation_marker()
    } else {
        s
    }
}

/// Truncates a captured text exactly as `spec_truncate` describes.
pub fn truncate(s: &str) -> (r: String)
    ensures
        r@ == spec_truncate(s@),
{
    let n: usize = s.unicode_len();
    if n > MAX_CAPTURE_LEN {
        let head = String::from_str(s.substring_char(0, MAX_CAPTURE_LEN));
        head.concat("\n... (truncated)")
    } else {
        String::from_str(s)
    }
}

/// A truncated text keeps the cap: an untruncated one is the text
/// itself, no longer than the cap; a truncated one keeps exactly the
/// first `MAX_CAPTURE_LEN` characters of the original, ends with the
/// marker, and is never longer than the cap plus the marker.
pub proof fn lemma_truncation_bounds(s: Seq<char>)
    ensures
        spec_truncate(s).len() <= MAX_CAPTURE_LEN + truncation_marker().len(),
        s.len() <= MAX_CAPTURE_LEN ==> spec_truncate(s) == s && spec_truncate(s).len()
            <= MAX_CAPTURE_LEN,
        s.len() > MAX_CAPTURE_LEN ==> spec_truncate(s).take(MAX_CAPTURE_LEN as int) == s.take(
            MAX_CAPTURE_LEN as int,
        ) && spec_truncate(s).skip(MAX_CAPTURE_LEN as int) == truncation_marker()
            && spec_truncate(s).len() == MAX_CAPTURE_LEN + truncation_marker().len(),
{
    if s.len() > MAX_CAPTURE_LEN {
        let t = spec_truncate(s);
        assert(t.take(MAX_CAPTURE_LEN as int) =~= s.take(MAX_CAPTURE_LEN as int));
        assert(t.skip(MAX_CAPTURE_LEN as int) =~= truncation_marker());
    }
}

/// Outcome of one command execution: the exit code, the two bounded
/// stream views, and whether the command succeeded.
pub struct CommandResult {
    pub success: bool,
    pub exit_code: i32,
    pub stdout: String,
    pub stderr: String,
}

/// Internal consistency of a result: success means exactly exit code 0,
/// and both stream views are bounded.
pub open spec fn result_wf(r: CommandResult) -> bool {
    &&& r.success <==> r.exit_code == 0
    &&& r.stdout@.len() <= MAX_CAPTURE_LEN + truncation_marker().len()
    &&& r.stderr@.len() <= MAX_CAPTURE_LEN + truncation_marker().len()
}

/// Builds the result of a command that the interpreter ran to
/// completion: streams truncated, success derived from the exit code.
pub fn build_result(exit_code: i32, stdout: &str, stderr: &str) -> (r: CommandResult)
    ensures
        r.exit_code == exit_code,
        r.success == (exit_code == 0),
        r.stdout@ == spec_truncate(stdout@),
        r.stderr@ == spec_truncate(stderr@),
        result_wf(r),
{
    proof {
        lemma_truncation_bounds(stdout@);
        lemma_truncation_bounds(stderr@);
    }
    CommandResult {
        success: exit_code == 0,
        exit_code,
        stdout: truncate(stdout),
        stderr: truncate(stderr),
    }
}

/// Builds the result of a launch failure: the interpreter could not be
/// started.  Exit code `-1`, an empty stdout view, and the error text as
/// the stderr view; never surfaced as a fault.
pub fn launch_failure_result(error_text: &str) -> (r: CommandResult)
    ensures
        r.exit_code == -1,
        !r.success,
        r.stdout@.len() == 0,
        r.stderr@ == spec_truncate(error_text@),
        result_wf(r),
{
    proof {
        lemma_truncation_bounds(error_text@);
    }
    CommandResult {
        success: false,
        exit_code: -1,
        stdout: String::new(),
        stderr: truncate(error_text),
    }
}

/// The machine-readable view of a result, as it is fed back to the
/// model: exit code and both stream views under fixed headers.
pub open spec fn spec_ai_view(r: CommandResult) -> Seq<char> {
    "exit_code: "@ + spec_int_str(r.exit_code as int) + "\nstdout:\n"@ + r.stdout@ + "\nstderr:\n"@
        + r.stderr@
}

impl CommandResult {
    /// Renders the machine-readable view exactly as `spec_ai_view`
    /// describes it.
    pub fn ai_view(&self) -> (r: String)
        ensures
            r@ == spec_ai_view(*self),
    {
        let mut out = String::from_str("exit_code: ");
        let code = i32_to_string(self.exit_code);
        out.append(code.as_str());
        out.append("\nstdout:\n");
        out.append(self.stdout.as_str());
        out.append("\nstderr:\n");
        out.append(self.stderr.as_str());
        proof {
            assert(out@ =~= spec_ai_view(*self));
        }
        out
    }
}

} // verus!
