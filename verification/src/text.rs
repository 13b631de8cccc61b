//! Character-level scanning over strings: token boundaries, substring
//! occurrence, line splitting and trimming, each proved against a direct
//! specification over `Seq<char>`.

use vstd::prelude::*;

verus! {

/// The Unicode `White_Space` characters: they end a token in a reflog line
/// and are trimmed from the edges of the active branch name.
pub open spec fn is_ws_char(c: char) -> bool {
    let u = c as u32;
    ||| u == 0x9
    ||| u == 0xa
    ||| u == 0xb
    ||| u == 0xc
    ||| u == 0xd
    ||| u == 0x20
    ||| u == 0x85
    ||| u == 0xa0
    ||| u == 0x1680
    ||| (0x2000 <= u && u <= 0x200a)
    ||| u == 0x2028
    ||| u == 0x2029
    ||| u == 0x202f
    ||| u == 0x205f
    ||| u == 0x3000
}

fn ws_char(c: char) -> (r: bool)
    ensures
        r == is_ws_char(c),
{
    let u = c as u32;
    u == 0x9 || u == 0xa || u == 0xb || u == 0xc || u == 0xd || u == 0x20 || u == 0x85
        || u == 0xa0 || u == 0x1680 || (0x2000 <= u && u <= 0x200a) || u == 0x2028 || u == 0x2029
        || u == 0x202f || u == 0x205f || u == 0x3000
}

/// `pat` occurs in `l` starting exactly at position `i`.
pub open spec fn starts_with_at(l: Seq<char>, i: int, pat: Seq<char>) -> bool {
    0 <= i && i + pat.len() <= l.len() && l.subrange(i, i + pat.len()) == pat
}

/// Whether `pat` occurs in `s` starting at character position `i`.
pub fn match_at(s: &str, i: usize, pat: &str) -> (r: bool)
    ensures
        r == starts_with_at(s@, i as int, pat@),
{
    let n = s.unicode_len();
    let m = pat.unicode_len();
    if i > n || m > n - i {
        assert(!starts_with_at(s@, i as int, pat@));
        return false;
    }
    let mut j: usize = 0;
    while j < m
        invariant
            j <= m,
            i + m <= n,
            n == s@.len(),
            m == pat@.len(),
            forall|k: int| 0 <= k < j ==> s@[i + k] == pat@[k],
        decreases m - j,
    {
        if s.get_char(i + j) != pat.get_char(j) {
            assert(!starts_with_at(s@, i as int, pat@)) by {
                if starts_with_at(s@, i as int, pat@) {
                    assert(s@.subrange(i as int, i + pat@.len())[j as int] == pat@[j as int]);
                }
            }
            return false;
        }
        j += 1;
    }
    assert(s@.subrange(i as int, i + pat@.len()) =~= pat@);
    true
}

/// The first position at or after `i` holding `c`, or the length of `l` if
/// `c` does not occur there.
pub open spec fn find_from(l: Seq<char>, i: int, c: char) -> int
    decreases l.len() - i,
    when 0 <= i <= l.len()
{
    if i >= l.len() {
        l.len() as int
    } else if l[i] == c {
        i
    } else {
        find_from(l, i + 1, c)
    }
}

pub proof fn lemma_find_from_bounds(l: Seq<char>, i: int, c: char)
    requires
        0 <= i <= l.len(),
    ensures
        i <= find_from(l, i, c) <= l.len(),
    decreases l.len() - i,
{
    if i < l.len() && l[i] != c {
        lemma_find_from_bounds(l, i + 1, c);
    }
}

/// The first position at or after `i` holding `c`, as `find_from` gives it.
pub fn find_char_from(s: &str, i: usize, c: char) -> (r: usize)
    requires
        i <= s@.len(),
    ensures
        r == find_from(s@, i as int, c),
        i <= r <= s@.len(),
        r < s@.len() ==> s@[r as int] == c,
{
    let n = s.unicode_len();
    let mut j: usize = i;
    while j < n
        invariant
            i <= j <= n,
            n == s@.len(),
            find_from(s@, i as int, c) == find_from(s@, j as int, c),
        decreases n - j,
    {
        if s.get_char(j) == c {
            return j;
        }
        j += 1;
    }
    j
}

/// The first position at or after `i` where a whitespace character stands,
/// or the length of `l`: the end of the token that starts at `i`.
pub open spec fn token_end(l: Seq<char>, i: int) -> int
    decreases l.len() - i,
    when 0 <= i <= l.len()
{
    if i >= l.len() {
        l.len() as int
    } else if is_ws_char(l[i]) {
        i
    } else {
        token_end(l, i + 1)
    }
}

/// The end of the whitespace-free token that starts at position `i`.
pub fn find_token_end(s: &str, i: usize) -> (r: usize)
    requires
        i <= s@.len(),
    ensures
        r == token_end(s@, i as int),
        i <= r <= s@.len(),
{
    let n = s.unicode_len();
    let mut j: usize = i;
    while j < n
        invariant
            i <= j <= n,
            n == s@.len(),
            token_end(s@, i as int) == token_end(s@, j as int),
        decreases n - j,
    {
        if ws_char(s.get_char(j)) {
            return j;
        }
        j += 1;
    }
    j
}

/// The last position at or after `i` holding `c`, or `-1` if `c` does not
/// occur there.
pub open spec fn last_from(l: Seq<char>, i: int, c: char) -> int
    decreases l.len(),
    when 0 <= i
{
    if l.len() <= i {
        -1
    } else if l[l.len() - 1] == c {
        l.len() - 1
    } else {
        last_from(l.drop_last(), i, c)
    }
}

/// The last position at or after `i` holding `c`, as `last_from` gives it.
pub fn find_last_from(s: &str, i: usize, c: char) -> (r: Option<usize>)
    requires
        i <= s@.len(),
    ensures
        match r {
            Some(m) => last_from(s@, i as int, c) == m as int && i <= m < s@.len(),
            None => last_from(s@, i as int, c) == -1,
        },
{
    let n = s.unicode_len();
    let mut j: usize = n;
    assert(s@.subrange(0, n as int) =~= s@);
    while j > i
        invariant
            i <= j <= n,
            n == s@.len(),
            last_from(s@, i as int, c) == last_from(s@.subrange(0, j as int), i as int, c),
        decreases j,
    {
        let k = j - 1;
        if s.get_char(k) == c {
            assert(s@.subrange(0, j as int)[j - 1] == s@[k as int]);
            return Some(k);
        }
        assert(s@.subrange(0, j as int).drop_last() =~= s@.subrange(0, k as int));
        j = k;
    }
    None
}

/// The lines of `l` from position `i` on, split at `'\n'`, a `'\r'` that
/// stands just before a `'\n'` removed, and no empty line after a final
/// `'\n'`.
pub open spec fn lines_from(l: Seq<char>, i: int) -> Seq<Seq<char>>
    decreases l.len() - i,
    when 0 <= i <= l.len()
    via lines_from_decreases
{
    if i >= l.len() {
        Seq::empty()
    } else {
        let j = find_from(l, i, '\n');
        if j >= l.len() {
            seq![l.subrange(i, l.len() as int)]
        } else {
            let raw = l.subrange(i, j);
            let line = if raw.len() > 0 && raw[raw.len() - 1] == '\r' {
                raw.drop_last()
            } else {
                raw
            };
            seq![line] + lines_from(l, j + 1)
        }
    }
}

#[via_fn]
proof fn lines_from_decreases(l: Seq<char>, i: int) {
    if 0 <= i < l.len() {
        lemma_find_from_bounds(l, i, '\n');
    }
}

/// All lines of `l`.
pub open spec fn spec_lines(l: Seq<char>) -> Seq<Seq<char>> {
    lines_from(l, 0)
}

/// Splits `s` into its lines, as `spec_lines` gives them.
pub fn split_lines(s: &str) -> (r: Vec<String>)
    ensures
        r.deep_view() == spec_lines(s@),
{
    let n = s.unicode_len();
    let mut r: Vec<String> = Vec::new();
    let mut i: usize = 0;
    while i < n
        invariant
            i <= n,
            n == s@.len(),
            spec_lines(s@) == r.deep_view() + lines_from(s@, i as int),
        decreases n - i,
    {
        let ghost prev = r.deep_view();
        let j = find_char_from(s, i, '\n');
        if j == n {
            let line = s.substring_char(i, n);
            r.push(String::from_str(line));
            assert(r.deep_view() =~= prev + seq![s@.subrange(i as int, n as int)]);
            i = n;
        } else {
            let end = if j > i && s.get_char(j - 1) == '\r' {
                j - 1
            } else {
                j
            };
            let line = s.substring_char(i, end);
            proof {
                let raw = s@.subrange(i as int, j as int);
                if j > i && s@[j - 1] == '\r' {
                    assert(raw[raw.len() - 1] == s@[j - 1]);
                    assert(raw.drop_last() =~= s@.subrange(i as int, j - 1));
                } else if j > i {
                    assert(raw[raw.len() - 1] == s@[j - 1]);
                }
            }
            r.push(String::from_str(line));
            assert(r.deep_view() =~= prev + seq![line@]);
            i = j + 1;
        }
    }
    assert(r.deep_view() =~= r.deep_view() + lines_from(s@, n as int));
    r
}

/// The first line of `l`: everything before the first `'\n'`, a `'\r'` just
/// before that `'\n'` removed; the whole of `l` when it has no `'\n'`.
pub open spec fn spec_first_line(l: Seq<char>) -> Seq<char> {
    let j = find_from(l, 0, '\n');
    if j >= l.len() {
        l
    } else if j > 0 && l[j - 1] == '\r' {
        l.subrange(0, j - 1)
    } else {
        l.subrange(0, j)
    }
}

/// The first line of `s`, as `spec_first_line` gives it.
pub fn first_line(s: &str) -> (r: String)
    ensures
        r@ == spec_first_line(s@),
{
    let n = s.unicode_len();
    let j = find_char_from(s, 0, '\n');
    if j == n {
        assert(s@.subrange(0, n as int) =~= s@);
        String::from_str(s.substring_char(0, n))
    } else if j > 0 && s.get_char(j - 1) == '\r' {
        String::from_str(s.substring_char(0, j - 1))
    } else {
        String::from_str(s.substring_char(0, j))
    }
}

/// The first position at or after `i` where a non-whitespace character
/// stands, or the length of `l`.
pub open spec fn ws_start(l: Seq<char>, i: int) -> int
    decreases l.len() - i,
    when 0 <= i <= l.len()
{
    if i >= l.len() {
        l.len() as int
    } else if is_ws_char(l[i]) {
        ws_start(l, i + 1)
    } else {
        i
    }
}

/// The position just after the last non-whitespace character of `l`, or `0`
/// when `l` is all whitespace.
pub open spec fn ws_end(l: Seq<char>) -> int
    decreases l.len(),
{
    if l.len() == 0 {
        0
    } else if is_ws_char(l[l.len() - 1]) {
        ws_end(l.drop_last())
    } else {
        l.len() as int
    }
}

/// `l` with leading and trailing whitespace removed.
pub open spec fn spec_trim(l: Seq<char>) -> Seq<char> {
    let a = ws_start(l, 0);
    let b = ws_end(l);
    if a < b {
        l.subrange(a, b)
    } else {
        Seq::empty()
    }
}

proof fn lemma_ws_start_bounds(l: Seq<char>, i: int)
    requires
        0 <= i <= l.len(),
    ensures
        i <= ws_start(l, i) <= l.len(),
        ws_start(l, i) < l.len() ==> !is_ws_char(l[ws_start(l, i)]),
    decreases l.len() - i,
{
    if i < l.len() && is_ws_char(l[i]) {
        lemma_ws_start_bounds(l, i + 1);
    }
}

proof fn lemma_ws_end_bounds(l: Seq<char>)
    ensures
        0 <= ws_end(l) <= l.len(),
        ws_end(l) > 0 ==> !is_ws_char(l[ws_end(l) - 1]),
    decreases l.len(),
{
    if l.len() > 0 && is_ws_char(l[l.len() - 1]) {
        lemma_ws_end_bounds(l.drop_last());
        if ws_end(l) > 0 {
            assert(l.drop_last()[ws_end(l.drop_last()) - 1] == l[ws_end(l) - 1]);
        }
    }
}

/// Trimming is idempotent: a trimmed sequence carries no edge whitespace,
/// so trimming it again changes nothing.
pub proof fn lemma_trim_idempotent(l: Seq<char>)
    ensures
        spec_trim(spec_trim(l)) == spec_trim(l),
{
    let a = ws_start(l, 0);
    let b = ws_end(l);
    lemma_ws_start_bounds(l, 0);
    lemma_ws_end_bounds(l);
    if a < b {
        let t = l.subrange(a, b);
        assert(t[0] == l[a]);
        assert(!is_ws_char(t[0]));
        assert(ws_start(t, 0) == 0);
        assert(t[t.len() - 1] == l[b - 1]);
        assert(!is_ws_char(t[t.len() - 1]));
        assert(ws_end(t) == t.len());
        assert(t.subrange(0, t.len() as int) =~= t);
    } else {
        assert(spec_trim(Seq::<char>::empty()) == Seq::<char>::empty());
    }
}

fn find_ws_start(s: &str) -> (r: usize)
    ensures
        r == ws_start(s@, 0),
        r <= s@.len(),
{
    let n = s.unicode_len();
    let mut j: usize = 0;
    while j < n
        invariant
            j <= n,
            n == s@.len(),
            ws_start(s@, 0) == ws_start(s@, j as int),
        decreases n - j,
    {
        if !ws_char(s.get_char(j)) {
            return j;
        }
        j += 1;
    }
    j
}

fn find_ws_end(s: &str) -> (r: usize)
    ensures
        r == ws_end(s@),
        r <= s@.len(),
{
    let n = s.unicode_len();
    let mut j: usize = n;
    assert(s@.subrange(0, n as int) =~= s@);
    while j > 0
        invariant
            j <= n,
            n == s@.len(),
            ws_end(s@) == ws_end(s@.subrange(0, j as int)),
        decreases j,
    {
        if !ws_char(s.get_char(j - 1)) {
            assert(s@.subrange(0, j as int)[j - 1] == s@[j - 1]);
            return j;
        }
        assert(s@.subrange(0, j as int).drop_last() =~= s@.subrange(0, j - 1));
        j -= 1;
    }
    0
}

/// `s` with leading and trailing whitespace removed, as `spec_trim` gives it.
pub fn trim_str(s: &str) -> (r: String)
    ensures
        r@ == spec_trim(s@),
{
    let a = find_ws_start(s);
    let b = find_ws_end(s);
    if a < b {
        String::from_str(s.substring_char(a, b))
    } else {
        String::new()
    }
}

} // verus!
