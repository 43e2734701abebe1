//! Small verified text utilities: the line splitting, trimming, searching
//! and tokenising that the probe-output parsers are built on. Each
//! executable function is proved equal to a spec-level counterpart over
//! `Seq<char>`.

use vstd::prelude::*;

verus! {

/// The whitespace characters the utilities recognise: the ASCII whitespace
/// that command-line tool output contains.
pub open spec fn is_ws(c: char) -> bool {
    c == ' ' || c == '\t' || c == '\r' || c == '\n'
}

fn is_ws_char(c: char) -> (r: bool)
    ensures
        r == is_ws(c),
{
    c == ' ' || c == '\t' || c == '\r' || c == '\n'
}

/// Index of the first occurrence of `c` in `s`, if any.
pub open spec fn find_char(s: Seq<char>, c: char) -> Option<int>
    decreases s.len(),
{
    if s.len() == 0 {
        None
    } else if s[0] == c {
        Some(0int)
    } else {
        match find_char(s.drop_first(), c) {
            None => None,
            Some(i) => Some(i + 1),
        }
    }
}

pub proof fn lemma_find_char(s: Seq<char>, c: char)
    ensures
        match find_char(s, c) {
            Some(i) => 0 <= i < s.len() && s[i] == c && forall|j: int| 0 <= j < i ==> s[j] != c,
            None => forall|j: int| 0 <= j < s.len() ==> s[j] != c,
        },
    decreases s.len(),
{
    if s.len() != 0 && s[0] != c {
        lemma_find_char(s.drop_first(), c);
        assert forall|j: int| 1 <= j < s.len() implies s[j] == s.drop_first()[j - 1] by {}
    }
}

pub fn index_of_char(s: &str, c: char) -> (r: Option<usize>)
    ensures
        match r {
            Some(i) => find_char(s@, c) == Some(i as int),
            None => find_char(s@, c) is None,
        },
{
    let n = s.unicode_len();
    let mut i: usize = 0;
    while i < n
        invariant
            n == s@.len(),
            0 <= i <= n,
            forall|j: int| 0 <= j < i ==> s@[j] != c,
        decreases n - i,
    {
        if s.get_char(i) == c {
            proof {
                lemma_find_char(s@, c);
            }
            return Some(i);
        }
        i += 1;
    }
    proof {
        lemma_find_char(s@, c);
    }
    None
}

/// Whether `sub` occurs contiguously in `s`.
pub open spec fn contains_seq(s: Seq<char>, sub: Seq<char>) -> bool {
    exists|i: int|
        0 <= i && i + sub.len() <= s.len() && #[trigger] s.subrange(i, i + sub.len() as int) == sub
}

fn match_at(s: &str, i: usize, sub: &str) -> (r: bool)
    requires
        i + sub@.len() <= s@.len(),
    ensures
        r == (s@.subrange(i as int, i as int + sub@.len() as int) == sub@),
{
    let n = s.unicode_len();
    let m = sub.unicode_len();
    let mut j: usize = 0;
    while j < m
        invariant
            n == s@.len(),
            m == sub@.len(),
            i + m <= n,
            0 <= j <= m,
            forall|j2: int| 0 <= j2 < j ==> s@[i + j2] == sub@[j2],
        decreases m - j,
    {
        if s.get_char(i + j) != sub.get_char(j) {
            proof {
                let sr = s@.subrange(i as int, i as int + m as int);
                assert(sr[j as int] == s@[i + j]);
            }
            return false;
        }
        j += 1;
    }
    proof {
        assert(s@.subrange(i as int, i as int + m as int) =~= sub@);
    }
    true
}

pub fn str_contains(s: &str, sub: &str) -> (r: bool)
    ensures
        r == contains_seq(s@, sub@),
{
    let n = s.unicode_len();
    let m = sub.unicode_len();
    if m > n {
        return false;
    }
    if m == 0 {
        proof {
            assert(s@.subrange(0, 0 + sub@.len() as int) =~= sub@);
            assert(contains_seq(s@, sub@));
        }
        return true;
    }
    let mut i: usize = 0;
    while i <= n - m
        invariant
            n == s@.len(),
            m == sub@.len(),
            0 < m <= n,
            0 <= i <= n - m + 1,
            forall|k: int| 0 <= k < i ==> #[trigger] s@.subrange(k, k + m as int) != sub@,
        decreases n - i,
    {
        if match_at(s, i, sub) {
            return true;
        }
        i += 1;
    }
    false
}

/// Whether `s` begins with `prefix`.
pub open spec fn starts_with_seq(s: Seq<char>, prefix: Seq<char>) -> bool {
    prefix.len() <= s.len() && s.subrange(0, prefix.len() as int) == prefix
}

pub fn str_starts_with(s: &str, prefix: &str) -> (r: bool)
    ensures
        r == starts_with_seq(s@, prefix@),
{
    let n = s.unicode_len();
    let m = prefix.unicode_len();
    if m > n {
        return false;
    }
    match_at(s, 0, prefix)
}

pub fn str_eq(a: &str, b: &str) -> (r: bool)
    ensures
        r == (a@ == b@),
{
    let n = a.unicode_len();
    if n != b.unicode_len() {
        return false;
    }
    let r = match_at(a, 0, b);
    proof {
        assert(a@.subrange(0, a@.len() as int) =~= a@);
    }
    r
}

/// Count of whitespace characters at the front of `s`.
pub open spec fn leading_ws(s: Seq<char>) -> int
    decreases s.len(),
{
    if s.len() == 0 {
        0
    } else if !is_ws(s[0]) {
        0
    } else {
        1 + leading_ws(s.drop_first())
    }
}

pub proof fn lemma_leading_ws(s: Seq<char>)
    ensures
        0 <= leading_ws(s) <= s.len(),
        forall|j: int| 0 <= j < leading_ws(s) ==> is_ws(s[j]),
        leading_ws(s) < s.len() ==> !is_ws(s[leading_ws(s)]),
    decreases s.len(),
{
    if s.len() != 0 && is_ws(s[0]) {
        lemma_leading_ws(s.drop_first());
        assert forall|j: int| 1 <= j < s.len() implies s[j] == s.drop_first()[j - 1] by {}
    }
}

/// Count of whitespace characters at the back of `s`.
pub open spec fn trailing_ws(s: Seq<char>) -> int
    decreases s.len(),
{
    if s.len() == 0 {
        0
    } else if !is_ws(s.last()) {
        0
    } else {
        1 + trailing_ws(s.drop_last())
    }
}

pub proof fn lemma_trailing_ws(s: Seq<char>)
    ensures
        0 <= trailing_ws(s) <= s.len(),
        forall|j: int| s.len() - trailing_ws(s) <= j < s.len() ==> is_ws(s[j]),
        trailing_ws(s) < s.len() ==> !is_ws(s[s.len() - trailing_ws(s) - 1]),
    decreases s.len(),
{
    if s.len() != 0 && is_ws(s.last()) {
        lemma_trailing_ws(s.drop_last());
        assert forall|j: int| 0 <= j < s.len() - 1 implies s[j] == s.drop_last()[j] by {}
    }
}

/// `s` with leading and trailing whitespace removed.
pub open spec fn trim_spec(s: Seq<char>) -> Seq<char> {
    if leading_ws(s) == s.len() {
        Seq::empty()
    } else {
        s.subrange(leading_ws(s), s.len() - trailing_ws(s))
    }
}

pub fn trim_str<'a>(s: &'a str) -> (r: &'a str)
    ensures
        r@ == trim_spec(s@),
{
    let n = s.unicode_len();
    let mut a: usize = 0;
    while a < n && is_ws_char(s.get_char(a))
        invariant
            n == s@.len(),
            0 <= a <= n,
            forall|j: int| 0 <= j < a ==> is_ws(s@[j]),
        decreases n - a,
    {
        a += 1;
    }
    proof {
        lemma_leading_ws(s@);
        assert(a as int == leading_ws(s@));
    }
    if a == n {
        return s.substring_char(0, 0);
    }
    let mut b: usize = n;
    while b > a && is_ws_char(s.get_char(b - 1))
        invariant
            n == s@.len(),
            a <= b <= n,
            a < n,
            !is_ws(s@[a as int]),
            forall|j: int| b <= j < n ==> is_ws(s@[j]),
        decreases b,
    {
        b -= 1;
    }
    proof {
        lemma_trailing_ws(s@);
        assert(n - b == trailing_ws(s@));
    }
    s.substring_char(a, b)
}

/// First index at or after `from` holding a non-whitespace character, or the
/// length of `s` if there is none.
pub open spec fn next_non_ws(s: Seq<char>, from: int) -> int
    decreases s.len() - from,
    when 0 <= from <= s.len()
{
    if from >= s.len() {
        s.len() as int
    } else if !is_ws(s[from]) {
        from
    } else {
        next_non_ws(s, from + 1)
    }
}

pub proof fn lemma_next_non_ws(s: Seq<char>, from: int)
    requires
        0 <= from <= s.len(),
    ensures
        from <= next_non_ws(s, from) <= s.len(),
        forall|j: int| from <= j < next_non_ws(s, from) ==> is_ws(s[j]),
        next_non_ws(s, from) < s.len() ==> !is_ws(s[next_non_ws(s, from)]),
    decreases s.len() - from,
{
    if from < s.len() && is_ws(s[from]) {
        lemma_next_non_ws(s, from + 1);
    }
}

/// First index at or after `from` holding a whitespace character, or the
/// length of `s` if there is none.
pub open spec fn next_ws(s: Seq<char>, from: int) -> int
    decreases s.len() - from,
    when 0 <= from <= s.len()
{
    if from >= s.len() {
        s.len() as int
    } else if is_ws(s[from]) {
        from
    } else {
        next_ws(s, from + 1)
    }
}

pub proof fn lemma_next_ws(s: Seq<char>, from: int)
    requires
        0 <= from <= s.len(),
    ensures
        from <= next_ws(s, from) <= s.len(),
        forall|j: int| from <= j < next_ws(s, from) ==> !is_ws(s[j]),
        next_ws(s, from) < s.len() ==> is_ws(s[next_ws(s, from)]),
    decreases s.len() - from,
{
    if from < s.len() && !is_ws(s[from]) {
        lemma_next_ws(s, from + 1);
    }
}

fn scan_non_ws(s: &str, from: usize) -> (r: usize)
    requires
        from <= s@.len(),
    ensures
        r as int == next_non_ws(s@, from as int),
{
    let n = s.unicode_len();
    let mut i: usize = from;
    while i < n && is_ws_char(s.get_char(i))
        invariant
            n == s@.len(),
            from <= i <= n,
            forall|j: int| from <= j < i ==> is_ws(s@[j]),
        decreases n - i,
    {
        i += 1;
    }
    proof {
        lemma_next_non_ws(s@, from as int);
    }
    i
}

fn scan_ws(s: &str, from: usize) -> (r: usize)
    requires
        from <= s@.len(),
    ensures
        r as int == next_ws(s@, from as int),
{
    let n = s.unicode_len();
    let mut i: usize = from;
    while i < n && !is_ws_char(s.get_char(i))
        invariant
            n == s@.len(),
            from <= i <= n,
            forall|j: int| from <= j < i ==> !is_ws(s@[j]),
        decreases n - i,
    {
        i += 1;
    }
    proof {
        lemma_next_ws(s@, from as int);
    }
    i
}

/// The second whitespace-separated token of `s`, if `s` has at least two.
pub open spec fn second_token_spec(s: Seq<char>) -> Option<Seq<char>> {
    let a0 = next_non_ws(s, 0);
    let b0 = next_ws(s, a0);
    let a1 = next_non_ws(s, b0);
    let b1 = next_ws(s, a1);
    if a1 >= s.len() {
        None
    } else {
        Some(s.subrange(a1, b1))
    }
}

pub fn second_token<'a>(s: &'a str) -> (r: Option<&'a str>)
    ensures
        match r {
            Some(t) => second_token_spec(s@) == Some(t@),
            None => second_token_spec(s@) is None,
        },
{
    let n = s.unicode_len();
    let a0 = scan_non_ws(s, 0);
    proof {
        lemma_next_non_ws(s@, 0);
    }
    let b0 = scan_ws(s, a0);
    proof {
        lemma_next_ws(s@, a0 as int);
    }
    let a1 = scan_non_ws(s, b0);
    proof {
        lemma_next_non_ws(s@, b0 as int);
    }
    if a1 >= n {
        return None;
    }
    let b1 = scan_ws(s, a1);
    proof {
        lemma_next_ws(s@, a1 as int);
    }
    Some(s.substring_char(a1, b1))
}

/// The text between the first and second occurrence of `sep` (or to the end
/// if `sep` occurs once), if `sep` occurs at all. This is the second field
/// of a `sep`-separated line.
pub open spec fn between_seps_spec(s: Seq<char>, sep: char) -> Option<Seq<char>> {
    match find_char(s, sep) {
        None => None,
        Some(i) => {
            let rest = s.subrange(i + 1, s.len() as int);
            match find_char(rest, sep) {
                None => Some(rest),
                Some(j) => Some(rest.subrange(0, j)),
            }
        },
    }
}

pub fn between_seps<'a>(s: &'a str, sep: char) -> (r: Option<&'a str>)
    ensures
        match r {
            Some(t) => between_seps_spec(s@, sep) == Some(t@),
            None => between_seps_spec(s@, sep) is None,
        },
{
    match index_of_char(s, sep) {
        None => None,
        Some(i) => {
            proof {
                lemma_find_char(s@, sep);
            }
            let n = s.unicode_len();
            let rest = s.substring_char(i + 1, n);
            match index_of_char(rest, sep) {
                None => Some(rest),
                Some(j) => {
                    proof {
                        lemma_find_char(rest@, sep);
                    }
                    Some(rest.substring_char(0, j))
                },
            }
        },
    }
}

/// Index of the first occurrence of `pat` as a contiguous part of `s`, if
/// any. An empty pattern occurs at the front.
pub open spec fn find_sub(s: Seq<char>, pat: Seq<char>) -> Option<int>
    decreases s.len(),
{
    if s.len() >= pat.len() && s.subrange(0, pat.len() as int) == pat {
        Some(0int)
    } else if s.len() == 0 {
        None
    } else {
        match find_sub(s.drop_first(), pat) {
            None => None,
            Some(i) => Some(i + 1),
        }
    }
}

pub proof fn lemma_find_sub(s: Seq<char>, pat: Seq<char>)
    ensures
        match find_sub(s, pat) {
            Some(i) => 0 <= i && i + pat.len() <= s.len() && s.subrange(i, i + pat.len() as int)
                == pat && forall|j: int|
                0 <= j < i ==> #[trigger] s.subrange(j, j + pat.len() as int) != pat,
            None => forall|j: int|
                0 <= j && j + pat.len() <= s.len() ==> #[trigger] s.subrange(
                    j,
                    j + pat.len() as int,
                ) != pat,
        },
    decreases s.len(),
{
    if s.len() >= pat.len() && s.subrange(0, pat.len() as int) == pat {
    } else if s.len() == 0 {
    } else {
        lemma_find_sub(s.drop_first(), pat);
        assert forall|j: int|
            1 <= j && j + pat.len() <= s.len() implies s.drop_first().subrange(
            j - 1,
            j - 1 + pat.len() as int,
        ) =~= #[trigger] s.subrange(j, j + pat.len() as int) by {}
    }
}

pub fn find_substring(s: &str, pat: &str) -> (r: Option<usize>)
    ensures
        match r {
            Some(i) => find_sub(s@, pat@) == Some(i as int),
            None => find_sub(s@, pat@) is None,
        },
{
    let n = s.unicode_len();
    let m = pat.unicode_len();
    if m > n {
        proof {
            lemma_find_sub(s@, pat@);
        }
        return None;
    }
    if m == 0 {
        proof {
            assert(s@.subrange(0, 0 + pat@.len() as int) =~= pat@);
        }
        return Some(0);
    }
    let mut i: usize = 0;
    while i <= n - m
        invariant
            n == s@.len(),
            m == pat@.len(),
            0 < m <= n,
            0 <= i <= n - m + 1,
            forall|k: int| 0 <= k < i ==> #[trigger] s@.subrange(k, k + m as int) != pat@,
        decreases n - i,
    {
        if match_at(s, i, pat) {
            proof {
                lemma_find_sub(s@, pat@);
            }
            return Some(i);
        }
        i += 1;
    }
    proof {
        lemma_find_sub(s@, pat@);
    }
    None
}

/// `s` with every non-overlapping occurrence of `pat`, found left to right,
/// replaced by `repl`.
pub open spec fn replace_spec(s: Seq<char>, pat: Seq<char>, repl: Seq<char>) -> Seq<char>
    decreases s.len(),
    when pat.len() > 0
    via replace_spec_decreases
{
    match find_sub(s, pat) {
        None => s,
        Some(i) => s.subrange(0, i) + repl + replace_spec(
            s.subrange(i + pat.len(), s.len() as int),
            pat,
            repl,
        ),
    }
}

#[via_fn]
proof fn replace_spec_decreases(s: Seq<char>, pat: Seq<char>, repl: Seq<char>) {
    lemma_find_sub(s, pat);
}

pub fn replace_str(s: &str, pat: &str, repl: &str) -> (r: String)
    requires
        pat@.len() > 0,
    ensures
        r@ == replace_spec(s@, pat@, repl@),
{
    let m = pat.unicode_len();
    let mut out = String::new();
    let mut rem: &str = s;
    let mut n = rem.unicode_len();
    proof {
        assert(out@ + replace_spec(rem@, pat@, repl@) =~= replace_spec(s@, pat@, repl@));
    }
    while n > 0
        invariant
            n == rem@.len(),
            m == pat@.len(),
            m > 0,
            out@ + replace_spec(rem@, pat@, repl@) == replace_spec(s@, pat@, repl@),
        decreases rem@.len(),
    {
        let ghost rem0 = rem@;
        let ghost out0 = out@;
        match find_substring(rem, pat) {
            None => {
                out.append(rem);
                rem = rem.substring_char(n, n);
                proof {
                    assert(replace_spec(rem0, pat@, repl@) == rem0);
                    assert(replace_spec(rem@, pat@, repl@) =~= rem@);
                    assert(out@ + replace_spec(rem@, pat@, repl@) =~= out0 + replace_spec(
                        rem0,
                        pat@,
                        repl@,
                    ));
                }
            },
            Some(i) => {
                proof {
                    lemma_find_sub(rem0, pat@);
                }
                out.append(rem.substring_char(0, i));
                out.append(repl);
                rem = rem.substring_char(i + m, n);
                proof {
                    assert(replace_spec(rem0, pat@, repl@) == rem0.subrange(0, i as int) + repl@
                        + replace_spec(rem@, pat@, repl@));
                    assert(out@ + replace_spec(rem@, pat@, repl@) =~= out0 + replace_spec(
                        rem0,
                        pat@,
                        repl@,
                    ));
                }
            },
        }
        n = rem.unicode_len();
    }
    proof {
        assert(replace_spec(rem@, pat@, repl@) =~= rem@);
        assert(out@ =~= out@ + replace_spec(rem@, pat@, repl@));
    }
    out
}

/// A line with one trailing carriage return removed.
pub open spec fn strip_cr(line: Seq<char>) -> Seq<char> {
    if line.len() > 0 && line.last() == '\r' {
        line.drop_last()
    } else {
        line
    }
}

/// The lines of `s`: split at newlines, one trailing carriage return removed
/// from each line, and no final empty line for text that ends in a newline.
pub open spec fn split_lines(s: Seq<char>) -> Seq<Seq<char>>
    decreases s.len(),
    via split_lines_decreases
{
    if s.len() == 0 {
        Seq::empty()
    } else {
        match find_char(s, '\n') {
            None => seq![strip_cr(s)],
            Some(i) => seq![strip_cr(s.subrange(0, i))] + split_lines(
                s.subrange(i + 1, s.len() as int),
            ),
        }
    }
}

#[via_fn]
proof fn split_lines_decreases(s: Seq<char>) {
    lemma_find_char(s, '\n');
}

fn strip_cr_str<'a>(line: &'a str) -> (r: &'a str)
    ensures
        r@ == strip_cr(line@),
{
    let n = line.unicode_len();
    if n > 0 && line.get_char(n - 1) == '\r' {
        let r = line.substring_char(0, n - 1);
        proof {
            assert(line@.drop_last() =~= line@.subrange(0, n - 1));
        }
        r
    } else {
        line
    }
}

pub fn lines_of(s: &str) -> (r: Vec<String>)
    ensures
        r.deep_view() == split_lines(s@),
{
    let mut result: Vec<String> = Vec::new();
    let mut rem: &str = s;
    proof {
        assert(result.deep_view() =~= Seq::<Seq<char>>::empty());
    }
    let mut n = rem.unicode_len();
    while n > 0
        invariant
            n == rem@.len(),
            result.deep_view() + split_lines(rem@) == split_lines(s@),
        decreases rem@.len(),
    {
        let ghost dv0 = result.deep_view();
        match index_of_char(rem, '\n') {
            None => {
                let line = strip_cr_str(rem);
                result.push(String::from_str(line));
                proof {
                    assert(result.deep_view() =~= dv0.push(strip_cr(rem@)));
                    assert(split_lines(rem@) =~= seq![strip_cr(rem@)]);
                    assert(dv0.push(strip_cr(rem@)) =~= dv0 + seq![strip_cr(rem@)]);
                }
                rem = rem.substring_char(n, n);
                proof {
                    assert(split_lines(rem@) =~= Seq::<Seq<char>>::empty());
                    assert(result.deep_view() + split_lines(rem@) =~= result.deep_view());
                }
            },
            Some(i) => {
                proof {
                    lemma_find_char(rem@, '\n');
                }
                let raw = rem.substring_char(0, i);
                let line = strip_cr_str(raw);
                result.push(String::from_str(line));
                let ghost rem0 = rem@;
                rem = rem.substring_char(i + 1, n);
                proof {
                    assert(result.deep_view() =~= dv0.push(strip_cr(rem0.subrange(0, i as int))));
                    assert(split_lines(rem0) == seq![strip_cr(rem0.subrange(0, i as int))]
                        + split_lines(rem@));
                    assert(result.deep_view() + split_lines(rem@) =~= dv0 + split_lines(rem0));
                }
            },
        }
        n = rem.unicode_len();
    }
    proof {
        assert(result.deep_view() + split_lines(rem@) =~= result.deep_view());
    }
    result
}

} // verus!
