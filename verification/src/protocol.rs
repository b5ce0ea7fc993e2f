//! The reply protocol: decoding one raw model reply into its intent and
//! driving the confirm → execute → report → continue decisions.  The
//! wire format is line-oriented: a line after the message marker
//! contributes to the accumulated message, a line after the command
//! marker sets the single pending command (last one wins), and unmarked
//! lines are silently dropped.  At most one command is carried per reply.

use vstd::prelude::*;

use crate::capability::{is_screenshot_command, spec_is_screenshot};
use crate::capture::{spec_ai_view, CommandResult};
use crate::log::{spec_msg, ConversationLog, Message, Role};
use crate::risk::{classify_command, spec_classify, CommandRisk};
use crate::text::{
    is_prefix, opt_view, spec_lines, spec_lower, spec_trim, split_lines, starts_with_sub, str_eq,
    to_lowercase_str, trim_str,
};

verus! {

/// Intent decoded from one raw reply: the optional human-facing text and
/// the optional single pending command.  Neither is ever empty when
/// present.
pub struct ParsedReply {
    pub message: Option<String>,
    pub command: Option<String>,
}

/// Parse state while scanning the reply's lines: the accumulated message
/// and the last command marker's text, trimmed, if one was seen.
pub struct SpecParsed {
    pub message: Seq<char>,
    pub command: Option<Seq<char>>,
}

/// One line's contribution to the parse state: a message line joins the
/// accumulated message with a newline, a command line replaces the
/// pending command, and any other line changes nothing.
pub open spec fn parse_step(st: SpecParsed, line: Seq<char>) -> SpecParsed {
    if is_prefix("MSG:"@, line) {
        let rest = spec_trim(line.skip("MSG:"@.len() as int));
        SpecParsed {
            message: if st.message.len() == 0 {
                rest
            } else {
                st.message + seq!['\n'] + rest
            },
            command: st.command,
        }
    } else if is_prefix("CMD:"@, line) {
        SpecParsed { message: st.message, command: Option::Some(spec_trim(line.skip("CMD:"@.len() as int))) }
    } else {
        st
    }
}

/// The parse state after scanning a sequence of lines in order.
pub open spec fn parse_fold(lines: Seq<Seq<char>>, st: SpecParsed) -> SpecParsed
    decreases lines.len(),
{
    if lines.len() == 0 {
        st
    } else {
        parse_fold(lines.drop_first(), parse_step(st, lines[0]))
    }
}

/// The parse state of a whole raw reply.
pub open spec fn spec_parse(reply: Seq<char>) -> SpecParsed {
    parse_fold(spec_lines(reply), SpecParsed { message: Seq::empty(), command: Option::None })
}

/// Scanning one more line continues the fold from the state so far.
proof fn lemma_parse_fold_snoc(lines: Seq<Seq<char>>, x: Seq<char>, st: SpecParsed)
    ensures
        parse_fold(lines.push(x), st) == parse_step(parse_fold(lines, st), x),
    decreases lines.len(),
{
    let snoc = lines.push(x);
    assert(snoc.len() == lines.len() + 1);
    assert(parse_fold(snoc, st) == parse_fold(snoc.drop_first(), parse_step(st, snoc[0])));
    if lines.len() == 0 {
        assert(snoc[0] == x);
        assert(snoc.drop_first() =~= Seq::<Seq<char>>::empty());
        assert(parse_fold(snoc.drop_first(), parse_step(st, x)) == parse_step(st, x));
    } else {
        assert(snoc[0] == lines[0]);
        assert(snoc.drop_first() =~= lines.drop_first().push(x));
        lemma_parse_fold_snoc(lines.drop_first(), x, parse_step(st, lines[0]));
        assert(parse_fold(lines, st) == parse_fold(lines.drop_first(), parse_step(st, lines[0])));
    }
}

/// Decodes one raw reply.  The returned message is the accumulated
/// message text exactly when that text is non-empty; the returned
/// command is the last command line's trimmed text exactly when a
/// command line was seen and its text is non-empty.
pub fn parse_reply(reply: &str) -> (r: ParsedReply)
    ensures
        ({
            let p = spec_parse(reply@);
            &&& match r.message {
                Option::Some(m) => p.message.len() > 0 && m@ == p.message,
                Option::None => p.message.len() == 0,
            }
            &&& match r.command {
                Option::Some(c) => p.command matches Option::Some(pc) && pc.len() > 0 && c@ == pc,
                Option::None => p.command matches Option::Some(pc) ==> pc.len() == 0,
            }
        }),
{
    let ghost init = SpecParsed { message: Seq::empty(), command: Option::None };
    let ghost all = spec_lines(reply@);
    let lines = split_lines(reply);
    let mut msg = String::new();
    let mut cmd: Option<String> = Option::None;
    let n = lines.len();
    let mut i: usize = 0;
    while i < n
        invariant
            n == lines@.len(),
            0 <= i <= n,
            lines.deep_view() == all,
            all == spec_lines(reply@),
            ({
                let st = parse_fold(all.take(i as int), init);
                msg@ == st.message && opt_view(cmd) == st.command
            }),
        decreases n - i,
    {
        let ghost st_before = parse_fold(all.take(i as int), init);
        let line: &String = &lines[i];
        proof {
            assert(lines.deep_view()[i as int] == lines@[i as int]@);
            assert(line@ == all[i as int]);
        }
        let ln = line.as_str();
        let len: usize = ln.unicode_len();
        if starts_with_sub(ln, "MSG:") {
            proof {
                reveal_strlit("MSG:");
            }
            let rest = trim_str(ln.substring_char(4, len));
            proof {
                assert(ln@.subrange(4, len as int) =~= line@.skip("MSG:"@.len() as int));
            }
            if msg.as_str().unicode_len() == 0 {
                msg = rest;
            } else {
                msg.append("\n");
                msg.append(rest.as_str());
                proof {
                    reveal_strlit("\n");
                    assert("\n"@ =~= seq!['\n']);
                    assert(msg@ =~= st_before.message + seq!['\n'] + rest@);
                }
            }
        } else if starts_with_sub(ln, "CMD:") {
            proof {
                reveal_strlit("CMD:");
            }
            let rest = trim_str(ln.substring_char(4, len));
            proof {
                assert(ln@.subrange(4, len as int) =~= line@.skip("CMD:"@.len() as int));
            }
            cmd = Option::Some(rest);
        }
        proof {
            lemma_parse_fold_snoc(all.take(i as int), line@, init);
            assert(all.take(i as int).push(line@) =~= all.take(i + 1));
        }
        i = i + 1;
    }
    proof {
        assert(all.take(n as int) =~= all);
    }
    let message = if msg.as_str().unicode_len() == 0 {
        Option::None
    } else {
        Option::Some(msg)
    };
    let command = match cmd {
        Option::Some(c) => {
            if c.as_str().unicode_len() == 0 {
                Option::None
            } else {
                Option::Some(c)
            }
        },
        Option::None => Option::None,
    };
    ParsedReply { message, command }
}

/// The command is a `cd`-style directory change.
pub open spec fn spec_is_cd(c: Seq<char>) -> bool {
    is_prefix("cd"@, c)
}

/// The directory argument of a `cd`-style command: everything after the
/// verb, trimmed.
pub open spec fn spec_cd_arg(c: Seq<char>) -> Seq<char> {
    spec_trim(c.skip("cd"@.len() as int))
}

/// What one decoded reply leads to, before any side effect.
pub enum ReplyPlan {
    /// No command pending: append the raw reply and stop reasoning.
    NoCommand,
    /// Capability veto: the command is never executed.
    Blocked { command: String },
    /// Directory change handled locally; never dispatched to the shell.
    ChangeDirectory { path: String },
    /// An ordinary command: confirm at the given risk, then execute.
    Confirm { command: String, risk: CommandRisk },
}

/// Mathematical image of a plan.
pub enum SpecPlan {
    NoCommand,
    Blocked(Seq<char>),
    ChangeDirectory(Seq<char>),
    Confirm(Seq<char>, CommandRisk),
}

/// The plan for a pending command: the capability gate is consulted
/// first and is a hard veto, the directory branch is intercepted next,
/// and only what remains is graded and routed to confirmation.
pub open spec fn spec_plan(command: Option<Seq<char>>, has_display: bool) -> SpecPlan {
    match command {
        Option::None => SpecPlan::NoCommand,
        Option::Some(c) => {
            if !has_display && spec_is_screenshot(c) {
                SpecPlan::Blocked(c)
            } else if spec_is_cd(c) {
                SpecPlan::ChangeDirectory(spec_cd_arg(c))
            } else {
                SpecPlan::Confirm(c, spec_classify(c))
            }
        },
    }
}

/// Routes one decoded reply exactly as `spec_plan` describes.
pub fn plan_reply(parsed: &ParsedReply, has_display: bool) -> (r: ReplyPlan)
    ensures
        ({
            let sp = spec_plan(opt_view(parsed.command), has_display);
            match r {
                ReplyPlan::NoCommand => sp == SpecPlan::NoCommand,
                ReplyPlan::Blocked { command } => sp == SpecPlan::Blocked(command@),
                ReplyPlan::ChangeDirectory { path } => sp == SpecPlan::ChangeDirectory(path@),
                ReplyPlan::Confirm { command, risk } => sp == SpecPlan::Confirm(command@, risk),
            }
        }),
{
    match &parsed.command {
        Option::None => ReplyPlan::NoCommand,
        Option::Some(c) => {
            if !has_display && is_screenshot_command(c.as_str()) {
                ReplyPlan::Blocked { command: c.clone() }
            } else if starts_with_sub(c.as_str(), "cd") {
                let len: usize = c.as_str().unicode_len();
                proof {
                    reveal_strlit("cd");
                }
                let arg = trim_str(c.as_str().substring_char(2, len));
                proof {
                    assert(c@.subrange(2, len as int) =~= c@.skip("cd"@.len() as int));
                }
                ReplyPlan::ChangeDirectory { path: arg }
            } else {
                let risk = classify_command(c.as_str());
                ReplyPlan::Confirm { command: c.clone(), risk }
            }
        },
    }
}

/// A command routed through the directory branch never reaches the
/// shell: a `cd`-style command is never planned for confirmation and
/// execution, whatever the capability situation, and outside a
/// capability veto it is always handled as a local directory change.
pub proof fn lemma_cd_never_dispatched(command: Seq<char>, has_display: bool)
    requires
        spec_is_cd(command),
    ensures
        !(spec_plan(Option::Some(command), has_display) is Confirm),
        has_display || !spec_is_screenshot(command) ==> spec_plan(Option::Some(command), has_display)
            == SpecPlan::ChangeDirectory(spec_cd_arg(command)),
{
}

/// The capability veto is unconditional: with no display available, a
/// screen-capture command is blocked outright — execution never occurs,
/// regardless of what any confirmation would have answered.
pub proof fn lemma_capability_veto(command: Seq<char>)
    requires
        spec_is_screenshot(command),
    ensures
        spec_plan(Option::Some(command), false) == SpecPlan::Blocked(command),
{
}

/// The answer is an affirmative `y`: trimmed and compared without regard
/// to ASCII case.
pub open spec fn spec_affirmative(answer: Seq<char>) -> bool {
    spec_lower(spec_trim(answer)) == "y"@
}

/// Whether a confirmation answer lets a command proceed.  `Safe` and
/// `Caution` take a simple affirmative; `Dangerous` demands the full
/// command retyped byte for byte — deliberate friction, not a second
/// risk evaluation.
pub open spec fn spec_confirmed(risk: CommandRisk, command: Seq<char>, answer: Seq<char>) -> bool {
    match risk {
        CommandRisk::Dangerous => answer == command,
        _ => spec_affirmative(answer),
    }
}

/// Applies the confirmation policy exactly as `spec_confirmed` describes.
pub fn confirmation_decision(risk: CommandRisk, command: &str, answer: &str) -> (r: bool)
    ensures
        r == spec_confirmed(risk, command@, answer@),
{
    match risk {
        CommandRisk::Dangerous => str_eq(answer, command),
        _ => {
            let t = trim_str(answer);
            let l = to_lowercase_str(t.as_str());
            str_eq(l.as_str(), "y")
        },
    }
}

/// A `Dangerous` command proceeds only when the retyped line is
/// identical to the original, so any deviation — a trailing whitespace
/// difference included — cancels.
pub proof fn lemma_dangerous_requires_retype(command: Seq<char>, answer: Seq<char>)
    ensures
        spec_confirmed(CommandRisk::Dangerous, command, answer) <==> answer == command,
{
}

/// When the reasoning loop continues after a command execution.
#[derive(Clone, Copy, PartialEq, Eq, Structural, Debug)]
pub enum ContinuationPolicy {
    /// Continue after every execution, success or failure, so the model
    /// confirms success explicitly.  The canonical behaviour.
    AlwaysContinue,
    /// Continue only when the command failed.
    ContinueOnFailure,
}

/// Whether the loop asks the model to re-reason after an execution with
/// the given exit code.
pub open spec fn spec_should_continue(policy: ContinuationPolicy, exit_code: int) -> bool {
    match policy {
        ContinuationPolicy::AlwaysContinue => true,
        ContinuationPolicy::ContinueOnFailure => exit_code != 0,
    }
}

/// Decides continuation exactly as `spec_should_continue` describes.
pub fn should_continue(policy: ContinuationPolicy, result: &CommandResult) -> (r: bool)
    ensures
        r == spec_should_continue(policy, result.exit_code as int),
{
    match policy {
        ContinuationPolicy::AlwaysContinue => true,
        ContinuationPolicy::ContinueOnFailure => result.exit_code != 0,
    }
}

/// The notice appended when the capability gate blocks a command.
pub open spec fn blocked_notice() -> Seq<char> {
    "Screenshot blocked: no graphical display."@
}

/// The notice appended when the human declines a confirmation.
pub open spec fn cancelled_notice() -> Seq<char> {
    "Command cancelled by user."@
}

/// Appends the raw, unparsed reply as the assistant's transcript entry —
/// the one append a command-less reply gets.
pub fn record_reply(log: &mut ConversationLog, raw_reply: &str)
    ensures
        final(log)@ == old(log)@.push(spec_msg(Role::Assistant, raw_reply@)),
{
    log.append(Message { role: Role::Assistant, content: String::from_str(raw_reply) });
}

/// Appends the synthetic assistant-tagged blocked notice; the command is
/// not executed.
pub fn record_blocked(log: &mut ConversationLog)
    ensures
        final(log)@ == old(log)@.push(spec_msg(Role::Assistant, blocked_notice())),
{
    log.append(
        Message {
            role: Role::Assistant,
            content: String::from_str("Screenshot blocked: no graphical display."),
        },
    );
}

/// Appends the assistant-tagged cancelled notice after a declined
/// confirmation; a declined command is a normal outcome, not a fault.
pub fn record_cancelled(log: &mut ConversationLog)
    ensures
        final(log)@ == old(log)@.push(spec_msg(Role::Assistant, cancelled_notice())),
{
    log.append(
        Message { role: Role::Assistant, content: String::from_str("Command cancelled by user.") },
    );
}

/// Appends what one execution leaves in the transcript: the raw reply,
/// assistant-tagged, then a synthesized user-tagged `COMMAND_OUTPUT`
/// entry carrying the machine-readable view of the result.
pub fn record_execution(log: &mut ConversationLog, raw_reply: &str, result: &CommandResult)
    ensures
        final(log)@ == old(log)@.push(spec_msg(Role::Assistant, raw_reply@)).push(
            spec_msg(Role::User, "COMMAND_OUTPUT:\n"@ + spec_ai_view(*result)),
        ),
{
    log.append(Message { role: Role::Assistant, content: String::from_str(raw_reply) });
    let mut content = String::from_str("COMMAND_OUTPUT:\n");
    let view = result.ai_view();
    content.append(view.as_str());
    log.append(Message { role: Role::User, content });
}

} // verus!
