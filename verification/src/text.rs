//! Verified text primitives over `Seq<char>` views: ASCII case folding,
//! whitespace trimming, substring search, and decimal formatting.
//! Every component of the library states its contracts in terms of the
//! spec functions defined here.

use vstd::prelude::*;

verus! {

/// ASCII lower-casing of a single character; anything outside `'A'..='Z'`
/// is left unchanged.
pub open spec fn spec_lower_char(c: char) -> char {
    if 'A' <= c && c <= 'Z' {
        (((c as u8) + 32) as char)
    } else {
        c
    }
}

/// ASCII lower-casing of a whole character sequence.
pub open spec fn spec_lower(s: Seq<char>) -> Seq<char> {
    Seq::new(s.len(), |i: int| spec_lower_char(s[i]))
}

/// The whitespace characters this library trims: space, tab, newline,
/// carriage return.
pub open spec fn is_space_char(c: char) -> bool {
    c == ' ' || c == '\t' || c == '\n' || c == '\r'
}

/// `s` without leading whitespace.
pub open spec fn spec_trim_front(s: Seq<char>) -> Seq<char>
    decreases s.len(),
{
    if s.len() > 0 && is_space_char(s[0]) {
        spec_trim_front(s.drop_first())
    } else {
        s
    }
}

/// `s` without trailing whitespace.
pub open spec fn spec_trim_back(s: Seq<char>) -> Seq<char>
    decreases s.len(),
{
    if s.len() > 0 && is_space_char(s.last()) {
        spec_trim_back(s.drop_last())
    } else {
        s
    }
}

/// `s` without leading or trailing whitespace.
pub open spec fn spec_trim(s: Seq<char>) -> Seq<char> {
    spec_trim_back(spec_trim_front(s))
}

/// The pattern `pat` occurs in `hay` starting at index `i`.
pub open spec fn match_at(hay: Seq<char>, pat: Seq<char>, i: int) -> bool {
    &&& 0 <= i
    &&& i + pat.len() <= hay.len()
    &&& forall|j: int| 0 <= j < pat.len() ==> hay[i + j] == pat[j]
}

/// `pat` occurs somewhere in `hay` as a contiguous substring.
pub open spec fn has_sub(hay: Seq<char>, pat: Seq<char>) -> bool {
    exists|i: int| match_at(hay, pat, i)
}

/// `pat` is a prefix of `s`.
pub open spec fn is_prefix(pat: Seq<char>, s: Seq<char>) -> bool {
    pat.len() <= s.len() && (forall|j: int| 0 <= j < pat.len() ==> s[j] == pat[j])
}

/// The view of an optional string: its character sequence, if present.
pub open spec fn opt_view(o: Option<String>) -> Option<Seq<char>> {
    match o {
        Option::Some(s) => Option::Some(s@),
        Option::None => Option::None,
    }
}

/// Relies on std's `String::push`: appends exactly one character
/// at the end of the string.
#[verifier::external_body]
pub fn push_char(s: &mut String, c: char)
    ensures
        final(s)@ == old(s)@.push(c),
{
    s.push(c);
}

/// ASCII lower-casing of one character, executable form.
pub fn lower_char(c: char) -> (r: char)
    ensures
        r == spec_lower_char(c),
{
    if 'A' <= c && c <= 'Z' {
        ((c as u8) + 32) as char
    } else {
        c
    }
}

/// Builds the ASCII-lower-cased copy of `s`.
pub fn to_lowercase_str(s: &str) -> (r: String)
    ensures
        r@ == spec_lower(s@),
{
    let n: usize = s.unicode_len();
    let mut out: String = String::new();
    let mut i: usize = 0;
    while i < n
        invariant
            n == s@.len(),
            0 <= i <= n,
            out@ == spec_lower(s@.take(i as int)),
        decreases n - i,
    {
        let c = s.get_char(i);
        let l = lower_char(c);
        push_char(&mut out, l);
        proof {
            assert(out@ =~= spec_lower(s@.take(i + 1)));
        }
        i = i + 1;
    }
    proof {
        assert(s@.take(n as int) =~= s@);
    }
    out
}

/// If the first `k` characters of `s` are whitespace and either the string
/// ends there or a non-whitespace character follows, trimming the front
/// drops exactly those `k` characters.
proof fn lemma_trim_front_skip(s: Seq<char>, k: int)
    requires
        0 <= k <= s.len(),
        forall|i: int| 0 <= i < k ==> is_space_char(s[i]),
        k == s.len() || !is_space_char(s[k]),
    ensures
        spec_trim_front(s) == s.skip(k),
    decreases k,
{
    if k == 0 {
        assert(s.skip(0) =~= s);
    } else {
        assert(is_space_char(s[0]));
        lemma_trim_front_skip(s.drop_first(), k - 1);
        assert(s.drop_first().skip(k - 1) =~= s.skip(k));
    }
}

/// Mirror image of `lemma_trim_front_skip` for the back of the string.
proof fn lemma_trim_back_take(s: Seq<char>, k: int)
    requires
        0 <= k <= s.len(),
        forall|i: int| k <= i < s.len() ==> is_space_char(s[i]),
        k == 0 || !is_space_char(s[k - 1]),
    ensures
        spec_trim_back(s) == s.take(k),
    decreases s.len() - k,
{
    if k == s.len() {
        assert(s.take(k) =~= s);
    } else {
        assert(is_space_char(s.last()));
        lemma_trim_back_take(s.drop_last(), k);
        assert(s.drop_last().take(k) =~= s.take(k));
    }
}

/// Executable whitespace test for one character.
pub fn is_space(c: char) -> (r: bool)
    ensures
        r == is_space_char(c),
{
    c == ' ' || c == '\t' || c == '\n' || c == '\r'
}

/// Builds the copy of `s` with leading and trailing whitespace removed.
pub fn trim_str(s: &str) -> (r: String)
    ensures
        r@ == spec_trim(s@),
{
    let n: usize = s.unicode_len();
    let mut start: usize = 0;
    while start < n && is_space(s.get_char(start))
        invariant
            n == s@.len(),
            0 <= start <= n,
            forall|i: int| 0 <= i < start ==> is_space_char(s@[i]),
        decreases n - start,
    {
        start = start + 1;
    }
    proof {
        lemma_trim_front_skip(s@, start as int);
    }
    if start == n {
        proof {
            assert(s@.skip(start as int) =~= Seq::<char>::empty());
        }
        let r = String::new();
        return r;
    }
    let mut end: usize = n;
    while end > start && is_space(s.get_char(end - 1))
        invariant
            n == s@.len(),
            start <= end <= n,
            !is_space_char(s@[start as int]),
            forall|i: int| end <= i < n ==> is_space_char(s@[i]),
        decreases end,
    {
        end = end - 1;
    }
    let piece = s.substring_char(start, end);
    proof {
        let front = s@.skip(start as int);
        lemma_trim_back_take(front, end - start);
        assert(front.take(end - start) =~= s@.subrange(start as int, end as int));
    }
    String::from_str(piece)
}

/// The two strings hold the same characters.
pub fn str_eq(a: &str, b: &str) -> (r: bool)
    ensures
        r == (a@ == b@),
{
    let na: usize = a.unicode_len();
    let nb: usize = b.unicode_len();
    if na != nb {
        return false;
    }
    let mut i: usize = 0;
    while i < na
        invariant
            na == a@.len(),
            na == b@.len(),
            0 <= i <= na,
            forall|j: int| 0 <= j < i ==> a@[j] == b@[j],
        decreases na - i,
    {
        if a.get_char(i) != b.get_char(i) {
            return false;
        }
        i = i + 1;
    }
    proof {
        assert(a@ =~= b@);
    }
    true
}

/// `pat` is a prefix of `s`, executable form.
pub fn starts_with_sub(s: &str, pat: &str) -> (r: bool)
    ensures
        r == is_prefix(pat@, s@),
{
    let n: usize = s.unicode_len();
    let m: usize = pat.unicode_len();
    if m > n {
        return false;
    }
    let mut j: usize = 0;
    while j < m
        invariant
            n == s@.len(),
            m == pat@.len(),
            m <= n,
            0 <= j <= m,
            forall|k: int| 0 <= k < j ==> s@[k] == pat@[k],
        decreases m - j,
    {
        if s.get_char(j) != pat.get_char(j) {
            return false;
        }
        j = j + 1;
    }
    true
}

/// Index of the first occurrence of `pat` in `hay`, if any.  `Some(i)`
/// means `pat` matches at `i` and at no smaller index; `None` means it
/// matches nowhere.  An empty pattern matches at index 0.
pub fn find_sub(hay: &str, pat: &str) -> (r: Option<usize>)
    ensures
        match r {
            Some(i) => match_at(hay@, pat@, i as int) && (forall|k: int|
                0 <= k < i ==> !match_at(hay@, pat@, k)) && first_at(hay@, pat@) == i as int,
            None => (forall|k: int| !match_at(hay@, pat@, k)) && first_at(hay@, pat@) == -1,
        },
{
    proof {
        lemma_first_at_correct(hay@, pat@);
    }
    let n: usize = hay.unicode_len();
    let m: usize = pat.unicode_len();
    if m > n {
        proof {
            assert forall|k: int| !match_at(hay@, pat@, k) by {}
            if has_sub(hay@, pat@) {
                let w = choose|w: int| match_at(hay@, pat@, w);
                assert(!match_at(hay@, pat@, w));
            }
        }
        return None;
    }
    let mut i: usize = 0;
    while i <= n - m
        invariant
            n == hay@.len(),
            m == pat@.len(),
            m <= n,
            0 <= i <= n - m + 1,
            forall|k: int| 0 <= k < i ==> !match_at(hay@, pat@, k),
        decreases n + 1 - m - i,
    {
        let mut j: usize = 0;
        let mut hit = true;
        while j < m
            invariant
                n == hay@.len(),
                m == pat@.len(),
                m <= n,
                0 <= i <= n - m,
                0 <= j <= m,
                hit ==> forall|k: int| 0 <= k < j ==> hay@[i + k] == pat@[k],
                !hit ==> !match_at(hay@, pat@, i as int),
            decreases m - j,
        {
            if hay.get_char(i + j) != pat.get_char(j) {
                hit = false;
                j = m;
            } else {
                j = j + 1;
            }
        }
        if hit {
            proof {
                lemma_first_at_correct(hay@, pat@);
                assert(match_at(hay@, pat@, i as int));
                assert(first_at(hay@, pat@) >= 0);
                lemma_first_match_unique(hay@, pat@, i as int, first_at(hay@, pat@));
            }
            return Some(i);
        }
        i = i + 1;
    }
    proof {
        assert forall|k: int| !match_at(hay@, pat@, k) by {
            if match_at(hay@, pat@, k) {
                assert(0 <= k < i);
            }
        }
        if has_sub(hay@, pat@) {
            let w = choose|w: int| match_at(hay@, pat@, w);
            assert(!match_at(hay@, pat@, w));
        }
    }
    None
}

/// Index of the first occurrence of `pat` in `hay`, or `-1` if there is
/// none.  An empty pattern occurs at index 0.
pub open spec fn first_at(hay: Seq<char>, pat: Seq<char>) -> int
    decreases hay.len(),
{
    if pat.len() > hay.len() {
        -1
    } else if match_at(hay, pat, 0) {
        0
    } else if hay.len() == 0 {
        -1
    } else {
        let r = first_at(hay.drop_first(), pat);
        if r < 0 {
            -1
        } else {
            1 + r
        }
    }
}

/// `first_at` finds the leftmost match when there is one, and `-1` exactly
/// when there is none.
pub proof fn lemma_first_at_correct(hay: Seq<char>, pat: Seq<char>)
    ensures
        first_at(hay, pat) >= -1,
        first_at(hay, pat) == -1 <==> !has_sub(hay, pat),
        first_at(hay, pat) >= 0 ==> match_at(hay, pat, first_at(hay, pat)) && (forall|k: int|
            0 <= k < first_at(hay, pat) ==> !match_at(hay, pat, k)),
    decreases hay.len(),
{
    if pat.len() > hay.len() {
        assert forall|i: int| !match_at(hay, pat, i) by {}
    } else if match_at(hay, pat, 0) {
    } else if hay.len() == 0 {
        assert(pat.len() == 0);
        assert(match_at(hay, pat, 0));
    } else {
        let tail = hay.drop_first();
        lemma_first_at_correct(tail, pat);
        let r = first_at(tail, pat);
        assert forall|k: int| 1 <= k <= hay.len() implies (match_at(hay, pat, k) <==> match_at(
            tail,
            pat,
            k - 1,
        )) by {
            assert forall|k: int|
                1 <= k <= hay.len() && match_at(hay, pat, k) implies match_at(tail, pat, k - 1) by {
                assert forall|j: int| 0 <= j < pat.len() implies tail[k - 1 + j] == pat[j] by {
                    assert(hay[k + j] == pat[j]);
                }
            }
            assert forall|k: int|
                1 <= k <= hay.len() && match_at(tail, pat, k - 1) implies match_at(hay, pat, k) by {
                assert forall|j: int| 0 <= j < pat.len() implies hay[k + j] == pat[j] by {
                    assert(tail[k - 1 + j] == pat[j]);
                }
            }
        }
        if r < 0 {
            assert forall|i: int| !match_at(hay, pat, i) by {
                if 1 <= i <= hay.len() {
                    assert(!match_at(tail, pat, i - 1));
                }
            }
        } else {
            assert(match_at(hay, pat, 1 + r));
        }
    }
}

/// Two indices that both match and have no earlier match are the same index.
pub proof fn lemma_first_match_unique(hay: Seq<char>, pat: Seq<char>, a: int, b: int)
    requires
        match_at(hay, pat, a),
        forall|k: int| 0 <= k < a ==> !match_at(hay, pat, k),
        match_at(hay, pat, b),
        forall|k: int| 0 <= k < b ==> !match_at(hay, pat, k),
    ensures
        a == b,
{
}

/// `pat` occurs in `hay`, executable form.
pub fn contains_sub(hay: &str, pat: &str) -> (r: bool)
    ensures
        r == has_sub(hay@, pat@),
{
    match find_sub(hay, pat) {
        Some(i) => {
            proof {
                assert(match_at(hay@, pat@, i as int));
            }
            true
        },
        None => {
            proof {
                assert(!has_sub(hay@, pat@)) by {
                    if has_sub(hay@, pat@) {
                        let w = choose|w: int| match_at(hay@, pat@, w);
                        assert(!match_at(hay@, pat@, w));
                    }
                }
            }
            false
        },
    }
}

/// A line with a final carriage return removed, as the line splitter
/// stores it.
pub open spec fn drop_final_cr(line: Seq<char>) -> Seq<char> {
    if line.len() > 0 && line.last() == '\r' {
        line.drop_last()
    } else {
        line
    }
}

/// The lines of `s`: segments separated by `'\n'`, each with a final
/// `'\r'` removed.  A trailing newline does not open an empty final line.
pub open spec fn spec_lines(s: Seq<char>) -> Seq<Seq<char>>
    decreases s.len(),
{
    if s.len() == 0 {
        Seq::empty()
    } else {
        let i = first_at(s, seq!['\n']);
        if 0 <= i < s.len() {
            seq![drop_final_cr(s.take(i))] + spec_lines(s.skip(i + 1))
        } else {
            seq![s]
        }
    }
}

/// Splits `s` into its lines, as `spec_lines` describes them.
pub fn split_lines(s: &str) -> (r: Vec<String>)
    ensures
        r.deep_view() == spec_lines(s@),
{
    let mut rest: String = String::from_str(s);
    let mut out: Vec<String> = Vec::new();
    let mut done = false;
    while !done
        invariant
            out.deep_view() + spec_lines(rest@) =~= spec_lines(s@),
            done ==> rest@.len() == 0,
        decreases rest@.len() + (if done { 0int } else { 1 }),
    {
        let n: usize = rest.as_str().unicode_len();
        if n == 0 {
            done = true;
        } else {
            let ghost prev = out.deep_view();
            let ghost restv = rest@;
            match find_sub(rest.as_str(), "\n") {
                Some(i) => {
                    proof {
                        reveal_strlit("\n");
                        assert("\n"@ =~= seq!['\n']);
                        assert(first_at(restv, seq!['\n']) == i as int);
                    }
                    let cut: usize = if i > 0 && rest.as_str().get_char(i - 1) == '\r' {
                        i - 1
                    } else {
                        i
                    };
                    let line = String::from_str(rest.as_str().substring_char(0, cut));
                    proof {
                        assert(line@ =~= drop_final_cr(restv.take(i as int)));
                    }
                    let tail = String::from_str(rest.as_str().substring_char(i + 1, n));
                    out.push(line);
                    rest = tail;
                    proof {
                        assert(rest@ =~= restv.skip(i + 1));
                        assert(spec_lines(restv) =~= seq![drop_final_cr(restv.take(i as int))]
                            + spec_lines(restv.skip(i + 1)));
                        assert(out.deep_view() =~= prev.push(drop_final_cr(restv.take(i as int))));
                        assert(out.deep_view() + spec_lines(rest@) =~= spec_lines(s@));
                    }
                },
                None => {
                    proof {
                        reveal_strlit("\n");
                        assert("\n"@ =~= seq!['\n']);
                        assert(first_at(restv, seq!['\n']) == -1);
                        assert(spec_lines(restv) =~= seq![restv]);
                    }
                    let whole = String::from_str(rest.as_str());
                    out.push(whole);
                    rest = String::new();
                    done = true;
                    proof {
                        assert(out.deep_view() =~= prev.push(restv));
                        assert(spec_lines(rest@) =~= Seq::<Seq<char>>::empty());
                        assert(out.deep_view() + spec_lines(rest@) =~= spec_lines(s@));
                    }
                },
            }
        }
    }
    proof {
        assert(spec_lines(rest@) =~= Seq::<Seq<char>>::empty());
        assert(out.deep_view() =~= out.deep_view() + spec_lines(rest@));
        assert(out.deep_view() == spec_lines(s@));
    }
    out
}

/// Decimal digit character for `d` in `0..=9`.
pub open spec fn digit_char(d: int) -> char {
    (((48 + d) as u8) as char)
}

/// Decimal notation of a non-negative number, most significant digit first.
pub open spec fn spec_nat_digits(n: int) -> Seq<char>
    decreases n,
{
    if n < 10 {
        seq![digit_char(n)]
    } else {
        spec_nat_digits(n / 10).push(digit_char(n % 10))
    }
}

/// Decimal notation of a signed number, with a leading `'-'` when negative.
pub open spec fn spec_int_str(n: int) -> Seq<char> {
    if n < 0 {
        seq!['-'] + spec_nat_digits(-n)
    } else {
        spec_nat_digits(n)
    }
}

/// Character for one decimal digit, executable form.
fn digit_to_char(d: u32) -> (r: char)
    requires
        d < 10,
    ensures
        r == digit_char(d as int),
{
    ((48 + d) as u8) as char
}

/// Decimal notation of a `u32`.
pub fn u32_to_string(n: u32) -> (r: String)
    ensures
        r@ == spec_nat_digits(n as int),
    decreases n,
{
    if n < 10 {
        let mut s = String::new();
        push_char(&mut s, digit_to_char(n));
        s
    } else {
        let mut s = u32_to_string(n / 10);
        push_char(&mut s, digit_to_char(n % 10));
        s
    }
}

/// Decimal notation of an `i32`, as `spec_int_str` describes it.
pub fn i32_to_string(n: i32) -> (r: String)
    ensures
        r@ == spec_int_str(n as int),
{
    if n >= 0 {
        u32_to_string(n as u32)
    } else {
        let mag: u32 = (-(n as i64)) as u32;
        let mut s = String::new();
        push_char(&mut s, '-');
        let d = u32_to_string(mag);
        let r = s.concat(d.as_str());
        proof {
            assert(r@ =~= seq!['-'] + spec_nat_digits(mag as int));
        }
        r
    }
}

/// View of the text `"true"` or `"false"`.
pub open spec fn spec_bool_str(b: bool) -> Seq<char> {
    if b {
        "true"@
    } else {
        "false"@
    }
}

/// The words `true` and `false`, executable form.
pub fn bool_to_string(b: bool) -> (r: String)
    ensures
        r@ == spec_bool_str(b),
{
    if b {
        String::from_str("true")
    } else {
        String::from_str("false")
    }
}

} // verus!
