//! The agent's logical working directory.  Navigation commands are
//! intercepted before shell dispatch: the target is resolved against the
//! current directory (with `dirs_next` supplying the home directory),
//! the caller probes the filesystem, and the change is committed or
//! rejected here — the directory is never re-derived from shell state.

use vstd::prelude::*;

use crate::log::{ConversationLog, Message, Role, spec_msg};
use crate::text::{opt_view, push_char, str_eq};

verus! {

/// The argument asks for the home directory: it is empty or the bare
/// tilde.
pub open spec fn spec_is_home_request(path: Seq<char>) -> bool {
    path.len() == 0 || path == "~"@
}

/// Joining a relative path onto a directory, inserting a separator
/// unless the directory already ends in one.
pub open spec fn spec_join(cwd: Seq<char>, path: Seq<char>) -> Seq<char> {
    if cwd.len() > 0 && cwd.last() == '/' {
        cwd + path
    } else {
        cwd + seq!['/'] + path
    }
}

/// Where a `cd` argument leads: the home directory (or, when none is
/// known, the current directory) for a home request, the path itself
/// when absolute, and the path joined onto the current directory
/// otherwise.
pub open spec fn spec_resolve(path: Seq<char>, cwd: Seq<char>, home: Option<Seq<char>>) -> Seq<
    char,
> {
    if spec_is_home_request(path) {
        match home {
            Option::Some(h) => h,
            Option::None => cwd,
        }
    } else if path[0] == '/' {
        path
    } else {
        spec_join(cwd, path)
    }
}

/// Relies on `dirs_next::home_dir`: the platform's home directory, if
/// one is known, converted to a plain string.  Which directory comes
/// back depends on the environment, so nothing is promised of the value.
#[verifier::external_body]
fn home_dir_string() -> (r: Option<String>) {
    dirs_next::home_dir().map(|p| p.to_string_lossy().into_owned())
}

/// Resolves a `cd` argument against the current directory and a known
/// home directory, exactly as `spec_resolve` describes.
pub fn resolve_with_home(path: &str, cwd: &str, home: &Option<String>) -> (r: String)
    ensures
        r@ == spec_resolve(path@, cwd@, opt_view(*home)),
{
    let is_home = path.unicode_len() == 0 || str_eq(path, "~");
    if is_home {
        match home {
            Option::Some(h) => h.clone(),
            Option::None => String::from_str(cwd),
        }
    } else if path.get_char(0) == '/' {
        String::from_str(path)
    } else {
        let n: usize = cwd.unicode_len();
        let mut out = String::from_str(cwd);
        if n == 0 || cwd.get_char(n - 1) != '/' {
            push_char(&mut out, '/');
            proof {
                assert(out@ =~= cwd@ + seq!['/']);
            }
        }
        out.append(path);
        proof {
            assert(out@ =~= spec_join(cwd@, path@));
        }
        out
    }
}

/// Resolves a `cd` argument, asking the platform for the home directory.
/// A non-home argument resolves exactly as `spec_resolve` describes; for
/// a home request the result is the resolution under whichever home
/// directory the platform reported.
pub fn resolve_cd_target(path: &str, cwd: &String) -> (r: String)
    ensures
        !spec_is_home_request(path@) ==> r@ == spec_resolve(path@, cwd@, Option::None),
        exists|h: Option<Seq<char>>| r@ == spec_resolve(path@, cwd@, h),
{
    let home = home_dir_string();
    let r = resolve_with_home(path, cwd.as_str(), &home);
    proof {
        assert(r@ == spec_resolve(path@, cwd@, opt_view(home)));
    }
    r
}

/// Commits or rejects a directory change whose target the caller has
/// resolved and probed.  On success the working directory becomes the
/// target and an assistant-tagged confirmation is appended; on failure
/// the directory is left unchanged and a user-tagged failure notice is
/// appended.  Either way the change never reaches the shell.
pub fn apply_cd(cwd: &mut String, log: &mut ConversationLog, target: &str, target_is_dir: bool)
    ensures
        target_is_dir ==> final(cwd)@ == target@ && final(log)@ == old(log)@.push(
            spec_msg(Role::Assistant, "Changed directory to "@ + target@),
        ),
        !target_is_dir ==> final(cwd)@ == old(cwd)@ && final(log)@ == old(log)@.push(
            spec_msg(Role::User, "cd failed: "@ + target@),
        ),
{
    if target_is_dir {
        *cwd = String::from_str(target);
        let mut content = String::from_str("Changed directory to ");
        content.append(target);
        log.append(Message { role: Role::Assistant, content });
    } else {
        let mut content = String::from_str("cd failed: ");
        content.append(target);
        log.append(Message { role: Role::User, content });
    }
}

} // verus!
