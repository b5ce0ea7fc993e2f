//! The typo-correction heuristic for failed commands.  A "missing file"
//! token is extracted from stderr by known Unix error phrasings, each
//! directory entry is scored against it with a simple symmetric
//! distance, and the best-scoring entry, if close enough, replaces the
//! token's first occurrence in the command — a purely textual
//! substitution, not a re-parse of the command.

use vstd::prelude::*;

use crate::text::{
    find_sub, first_at, has_sub, opt_view, spec_trim, trim_str, contains_sub,
};

verus! {

/// Number of positions in `0..i` where `a` and `b` hold different
/// characters.
pub open spec fn count_diff(a: Seq<char>, b: Seq<char>, i: int) -> int
    decreases i,
{
    if i <= 0 {
        0
    } else {
        count_diff(a, b, i - 1) + if a[i - 1] != b[i - 1] {
            1int
        } else {
            0int
        }
    }
}

/// The shorter of the two lengths.
pub open spec fn min_len(a: Seq<char>, b: Seq<char>) -> int {
    if a.len() <= b.len() {
        a.len() as int
    } else {
        b.len() as int
    }
}

/// The scoring distance: absolute length difference plus the count of
/// differing same-position characters — not a full edit distance, no
/// insertion or transposition alignment.
pub open spec fn spec_distance(a: Seq<char>, b: Seq<char>) -> int {
    (if a.len() >= b.len() {
        a.len() - b.len()
    } else {
        b.len() - a.len()
    }) + count_diff(a, b, min_len(a, b))
}

/// Scores two names exactly as `spec_distance` describes.
pub fn token_distance(a: &str, b: &str) -> (r: usize)
    ensures
        r as int == spec_distance(a@, b@),
{
    let na: usize = a.unicode_len();
    let nb: usize = b.unicode_len();
    let m: usize = if na <= nb {
        na
    } else {
        nb
    };
    let long: usize = if na <= nb {
        nb
    } else {
        na
    };
    let mut count: usize = 0;
    let mut i: usize = 0;
    while i < m
        invariant
            na == a@.len(),
            nb == b@.len(),
            m == min_len(a@, b@),
            0 <= i <= m,
            count <= i,
            count as int == count_diff(a@, b@, i as int),
        decreases m - i,
    {
        if a.get_char(i) != b.get_char(i) {
            count = count + 1;
        }
        i = i + 1;
    }
    (long - m) + count
}

/// Index of the lowest-scoring entry, ties keeping the first
/// encountered; `-1` on an empty list.
pub open spec fn spec_best_idx(tok: Seq<char>, entries: Seq<Seq<char>>) -> int
    decreases entries.len(),
{
    if entries.len() == 0 {
        -1
    } else {
        let r = spec_best_idx(tok, entries.drop_last());
        if r >= 0 && spec_distance(tok, entries[r]) <= spec_distance(tok, entries.last()) {
            r
        } else {
            entries.len() - 1
        }
    }
}

/// `spec_best_idx` names a valid index whose score no entry beats, and
/// which every earlier entry scores strictly worse than.
pub proof fn lemma_best_idx(tok: Seq<char>, entries: Seq<Seq<char>>)
    ensures
        entries.len() == 0 ==> spec_best_idx(tok, entries) == -1,
        entries.len() > 0 ==> {
            let b = spec_best_idx(tok, entries);
            &&& 0 <= b < entries.len()
            &&& forall|j: int|
                0 <= j < entries.len() ==> spec_distance(tok, entries[b]) <= spec_distance(
                    tok,
                    entries[j],
                )
            &&& forall|j: int|
                0 <= j < b ==> spec_distance(tok, entries[j]) > spec_distance(tok, entries[b])
        },
    decreases entries.len(),
{
    if entries.len() > 0 {
        lemma_best_idx(tok, entries.drop_last());
        assert(forall|j: int|
            0 <= j < entries.len() - 1 ==> entries.drop_last()[j] == entries[j]);
        assert(entries.last() == entries[entries.len() - 1]);
    }
}

/// Picks the lowest-scoring directory entry for the token, first wins on
/// a tie, and accepts it only with a score of at most 2.
pub fn best_match(token: &str, entries: &Vec<String>) -> (r: Option<String>)
    ensures
        ({
            let evs = entries.deep_view();
            let b = spec_best_idx(token@, evs);
            match r {
                Option::Some(s) => b >= 0 && spec_distance(token@, evs[b]) <= 2 && s@ == evs[b],
                Option::None => b < 0 || spec_distance(token@, evs[b]) > 2,
            }
        }),
{
    let ghost evs = entries.deep_view();
    let n = entries.len();
    if n == 0 {
        return Option::None;
    }
    let mut best_i: usize = 0;
    let mut best_d: usize = token_distance(token, entries[0].as_str());
    proof {
        assert(spec_best_idx(token@, Seq::<Seq<char>>::empty()) == -1);
        assert(evs.take(1).drop_last() =~= Seq::<Seq<char>>::empty());
        assert(evs.take(1).last() == evs[0]);
        assert(spec_best_idx(token@, evs.take(1)) == 0);
    }
    let mut i: usize = 1;
    while i < n
        invariant
            n == entries@.len(),
            evs == entries.deep_view(),
            evs.len() == n,
            1 <= i <= n,
            best_i < i,
            best_i as int == spec_best_idx(token@, evs.take(i as int)),
            best_d as int == spec_distance(token@, evs[best_i as int]),
        decreases n - i,
    {
        let ghost prefix = evs.take(i as int);
        let d = token_distance(token, entries[i].as_str());
        proof {
            assert(evs.take(i + 1).drop_last() =~= prefix);
            assert(evs.take(i + 1).last() == evs[i as int]);
        }
        if d < best_d {
            best_i = i;
            best_d = d;
        }
        i = i + 1;
    }
    proof {
        assert(evs.take(n as int) =~= evs);
    }
    if best_d <= 2 {
        Option::Some(entries[best_i].clone())
    } else {
        Option::None
    }
}

/// The quoted token following `marker`: the characters between the
/// marker's first occurrence and the next single quote, if both exist.
pub open spec fn spec_token_after(s: Seq<char>, marker: Seq<char>) -> Option<Seq<char>> {
    let i = first_at(s, marker);
    if i < 0 {
        Option::None
    } else {
        let rest = s.skip(i + marker.len());
        let q = first_at(rest, seq!['\'']);
        if q < 0 {
            Option::None
        } else {
            Option::Some(rest.take(q))
        }
    }
}

/// Extracts the quoted token after `marker` exactly as `spec_token_after`
/// describes.
fn token_after(s: &str, marker: &str) -> (r: Option<String>)
    ensures
        opt_view(r) == spec_token_after(s@, marker@),
{
    let n: usize = s.unicode_len();
    let m: usize = marker.unicode_len();
    match find_sub(s, marker) {
        Option::None => Option::None,
        Option::Some(i) => {
            let rest = s.substring_char(i + m, n);
            proof {
                assert(rest@ =~= s@.skip(i + marker@.len()));
            }
            match find_sub(rest, "'") {
                Option::None => {
                    proof {
                        reveal_strlit("'");
                        assert("'"@ =~= seq!['\'']);
                    }
                    Option::None
                },
                Option::Some(q) => {
                    proof {
                        reveal_strlit("'");
                        assert("'"@ =~= seq!['\'']);
                    }
                    Option::Some(String::from_str(rest.substring_char(0, q)))
                },
            }
        },
    }
}

/// The fallback token: the text between the first colon and the next
/// (or the end), trimmed — the second field of a `prog: file: message`
/// diagnostic.
pub open spec fn spec_second_colon_field(s: Seq<char>) -> Option<Seq<char>> {
    let i = first_at(s, seq![':']);
    if i < 0 {
        Option::None
    } else {
        let rest = s.skip(i + 1);
        let j = first_at(rest, seq![':']);
        Option::Some(spec_trim(
            if j < 0 {
                rest
            } else {
                rest.take(j)
            },
        ))
    }
}

/// Extracts the second colon-separated field exactly as
/// `spec_second_colon_field` describes.
fn second_colon_field(s: &str) -> (r: Option<String>)
    ensures
        opt_view(r) == spec_second_colon_field(s@),
{
    let n: usize = s.unicode_len();
    proof {
        reveal_strlit(":");
        assert(":"@ =~= seq![':']);
    }
    match find_sub(s, ":") {
        Option::None => Option::None,
        Option::Some(i) => {
            let rest = s.substring_char(i + 1, n);
            proof {
                assert(rest@ =~= s@.skip(i + 1));
            }
            let field = match find_sub(rest, ":") {
                Option::None => rest,
                Option::Some(j) => rest.substring_char(0, j),
            };
            Option::Some(trim_str(field))
        },
    }
}

/// The "missing file" token of a failure's stderr: the name quoted after
/// `cannot remove '` or `cannot access '`, or — when only the generic
/// `No such file or directory` marker is present — the second
/// colon-separated field.
pub open spec fn spec_extract_token(stderr: Seq<char>) -> Option<Seq<char>> {
    if spec_token_after(stderr, "cannot remove '"@) is Some {
        spec_token_after(stderr, "cannot remove '"@)
    } else if spec_token_after(stderr, "cannot access '"@) is Some {
        spec_token_after(stderr, "cannot access '"@)
    } else if has_sub(stderr, "No such file or directory"@) {
        spec_second_colon_field(stderr)
    } else {
        Option::None
    }
}

/// Extracts the missing-file token exactly as `spec_extract_token`
/// describes.
pub fn extract_missing_token(stderr: &str) -> (r: Option<String>)
    ensures
        opt_view(r) == spec_extract_token(stderr@),
{
    let first = token_after(stderr, "cannot remove '");
    if let Option::Some(t) = first {
        return Option::Some(t);
    }
    let second = token_after(stderr, "cannot access '");
    if let Option::Some(t) = second {
        return Option::Some(t);
    }
    if contains_sub(stderr, "No such file or directory") {
        second_colon_field(stderr)
    } else {
        Option::None
    }
}

/// `s` with the first occurrence of `pat` replaced by `repl`; `s`
/// unchanged when `pat` does not occur.
pub open spec fn spec_replace_first(s: Seq<char>, pat: Seq<char>, repl: Seq<char>) -> Seq<char> {
    let i = first_at(s, pat);
    if i < 0 {
        s
    } else {
        s.take(i) + repl + s.skip(i + pat.len())
    }
}

/// Replaces the first occurrence of `pat` exactly as
/// `spec_replace_first` describes.
pub fn replace_first(s: &str, pat: &str, repl: &str) -> (r: String)
    ensures
        r@ == spec_replace_first(s@, pat@, repl@),
{
    let n: usize = s.unicode_len();
    let m: usize = pat.unicode_len();
    match find_sub(s, pat) {
        Option::None => String::from_str(s),
        Option::Some(i) => {
            let mut out = String::from_str(s.substring_char(0, i));
            out.append(repl);
            out.append(s.substring_char(i + m, n));
            proof {
                assert(out@ =~= s@.take(i as int) + repl@ + s@.skip(i + pat@.len()));
            }
            out
        },
    }
}

/// The corrected command a failure suggests, if any: the missing-file
/// token must be found and non-empty, the best directory entry must
/// score at most 2, and the correction replaces the token's first
/// occurrence in the command.
pub open spec fn spec_suggest(cmd: Seq<char>, stderr: Seq<char>, entries: Seq<Seq<char>>) -> Option<
    Seq<char>,
> {
    match spec_extract_token(stderr) {
        Option::None => Option::None,
        Option::Some(tok) => {
            if tok.len() == 0 {
                Option::None
            } else {
                let b = spec_best_idx(tok, entries);
                if b >= 0 && spec_distance(tok, entries[b]) <= 2 {
                    Option::Some(spec_replace_first(cmd, tok, entries[b]))
                } else {
                    Option::None
                }
            }
        },
    }
}

/// Proposes a corrected command for a failed one, exactly as
/// `spec_suggest` describes.  `entries` are the immediate names in the
/// working directory at failure time; the caller invokes this only on a
/// nonzero exit code.
pub fn suggest(cmd: &str, stderr: &str, entries: &Vec<String>) -> (r: Option<String>)
    ensures
        opt_view(r) == spec_suggest(cmd@, stderr@, entries.deep_view()),
{
    match extract_missing_token(stderr) {
        Option::None => Option::None,
        Option::Some(tok) => {
            if tok.as_str().unicode_len() == 0 {
                return Option::None;
            }
            match best_match(tok.as_str(), entries) {
                Option::None => Option::None,
                Option::Some(entry) => Option::Some(
                    replace_first(cmd, tok.as_str(), entry.as_str()),
                ),
            }
        },
    }
}

} // verus!
