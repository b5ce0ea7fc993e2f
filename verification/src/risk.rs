//! Risk grading of a proposed shell command: a pure, case-insensitive
//! function of the command text.  A fixed denylist of catastrophic
//! patterns is checked by substring containment first; a fixed set of
//! mutating-verb prefixes is checked second; everything else is safe.

use vstd::prelude::*;

use crate::text::{
    contains_sub, has_sub, is_prefix, spec_lower, spec_trim, starts_with_sub, to_lowercase_str,
    trim_str,
};

verus! {

/// Risk grade of a proposed shell command, as a pure function of its text.
#[derive(Clone, Copy, PartialEq, Eq, Structural, Debug)]
pub enum CommandRisk {
    Safe,
    Caution,
    Dangerous,
}

/// The normal form classification works on: the command trimmed, then
/// ASCII lower-cased.
pub open spec fn spec_normalize(cmd: Seq<char>) -> Seq<char> {
    spec_lower(spec_trim(cmd))
}

/// The normalized command contains one of the catastrophic patterns:
/// recursive deletion of root, home or a wildcard, a raw disk write,
/// filesystem formatting, shutdown or reboot, or the fork-bomb signature.
pub open spec fn spec_is_dangerous(cmd: Seq<char>) -> bool {
    let n = spec_normalize(cmd);
    ||| has_sub(n, "rm -rf /"@)
    ||| has_sub(n, "rm -rf ~"@)
    ||| has_sub(n, "rm -rf *"@)
    ||| has_sub(n, "dd if="@)
    ||| has_sub(n, "mkfs"@)
    ||| has_sub(n, "shutdown"@)
    ||| has_sub(n, "reboot"@)
    ||| has_sub(n, ":(){:|:&};:"@)
}

/// The normalized command starts with one of the mutating-verb prefixes:
/// remove, move, copy, permission or ownership change, or process
/// termination.
pub open spec fn spec_is_caution(cmd: Seq<char>) -> bool {
    let n = spec_normalize(cmd);
    ||| is_prefix("rm "@, n)
    ||| is_prefix("mv "@, n)
    ||| is_prefix("cp "@, n)
    ||| is_prefix("chmod "@, n)
    ||| is_prefix("chown "@, n)
    ||| is_prefix("kill "@, n)
    ||| is_prefix("pkill "@, n)
}

/// The risk grade of a command: `Dangerous` wins over `Caution`, and a
/// command matching neither list is `Safe`.  Total and deterministic by
/// construction.
pub open spec fn spec_classify(cmd: Seq<char>) -> CommandRisk {
    if spec_is_dangerous(cmd) {
        CommandRisk::Dangerous
    } else if spec_is_caution(cmd) {
        CommandRisk::Caution
    } else {
        CommandRisk::Safe
    }
}

/// Grades a command exactly as `spec_classify` describes.
pub fn classify_command(cmd: &str) -> (r: CommandRisk)
    ensures
        r == spec_classify(cmd@),
{
    let trimmed = trim_str(cmd);
    let norm = to_lowercase_str(trimmed.as_str());
    let n = norm.as_str();
    if contains_sub(n, "rm -rf /") || contains_sub(n, "rm -rf ~") || contains_sub(n, "rm -rf *")
        || contains_sub(n, "dd if=") || contains_sub(n, "mkfs") || contains_sub(n, "shutdown")
        || contains_sub(n, "reboot") || contains_sub(n, ":(){:|:&};:") {
        return CommandRisk::Dangerous;
    }
    if starts_with_sub(n, "rm ") || starts_with_sub(n, "mv ") || starts_with_sub(n, "cp ")
        || starts_with_sub(n, "chmod ") || starts_with_sub(n, "chown ") || starts_with_sub(
        n,
        "kill ",
    ) || starts_with_sub(n, "pkill ") {
        return CommandRisk::Caution;
    }
    CommandRisk::Safe
}

/// A denylist match always grades `Dangerous`: the substring check takes
/// precedence over the prefix check, even when a caution prefix matches
/// the same command.
pub proof fn lemma_dangerous_takes_precedence(cmd: Seq<char>)
    requires
        spec_is_dangerous(cmd),
    ensures
        spec_classify(cmd) == CommandRisk::Dangerous,
{
}

} // verus!
