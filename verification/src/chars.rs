//! Searching, splitting and trimming strings, character by character.
use vstd::prelude::*;
use crate::text::{str_chars, str_slice};

verus! {

/// The first index at or after `i` where `s` holds `c`.
pub open spec fn index_of(s: Seq<char>, c: char, i: int) -> Option<int>
    decreases s.len() - i,
{
    if i < 0 || i >= s.len() {
        None
    } else if s[i] == c {
        Some(i)
    } else {
        index_of(s, c, i + 1)
    }
}

/// The last index below `n` where `s` holds `c`.
pub open spec fn last_index_of(s: Seq<char>, c: char, n: int) -> Option<int>
    decreases n,
{
    if n <= 0 || n > s.len() {
        None
    } else if s[n - 1] == c {
        Some(n - 1)
    } else {
        last_index_of(s, c, n - 1)
    }
}

/// The first index at or after `i` where `p` occurs in `s`.
pub open spec fn find_from(s: Seq<char>, p: Seq<char>, i: int) -> Option<int>
    decreases s.len() + 1 - i,
{
    if i < 0 || i + p.len() > s.len() {
        None
    } else if s.subrange(i, i + p.len()) == p {
        Some(i)
    } else {
        find_from(s, p, i + 1)
    }
}

/// `s` split around the first `c`.
pub open spec fn split_once(s: Seq<char>, c: char) -> Option<(Seq<char>, Seq<char>)> {
    match index_of(s, c, 0) {
        Some(j) => Some((s.subrange(0, j), s.subrange(j + 1, s.len() as int))),
        None => None,
    }
}

/// `s` split around the last `c`.
pub open spec fn rsplit_once(s: Seq<char>, c: char) -> Option<(Seq<char>, Seq<char>)> {
    match last_index_of(s, c, s.len() as int) {
        Some(j) => Some((s.subrange(0, j), s.subrange(j + 1, s.len() as int))),
        None => None,
    }
}

/// `s` split around the first occurrence of `p`.
pub open spec fn split_once_str(s: Seq<char>, p: Seq<char>) -> Option<(Seq<char>, Seq<char>)> {
    match find_from(s, p, 0) {
        Some(j) => Some((s.subrange(0, j), s.subrange(j + p.len(), s.len() as int))),
        None => None,
    }
}

/// `s` without the prefix `p`, if it has it.
pub open spec fn strip_prefix(s: Seq<char>, p: Seq<char>) -> Option<Seq<char>> {
    if p.len() <= s.len() && s.subrange(0, p.len() as int) == p {
        Some(s.subrange(p.len() as int, s.len() as int))
    } else {
        None
    }
}

/// The pieces of `s` between the occurrences of `c`; there is always one
/// more piece than there are occurrences.
pub open spec fn split(s: Seq<char>, c: char) -> Seq<Seq<char>>
    decreases s.len(),
{
    if s.len() == 0 {
        seq![Seq::empty()]
    } else {
        let pieces = split(s.drop_last(), c);
        if s.last() == c {
            pieces.push(Seq::empty())
        } else {
            pieces.update(pieces.len() - 1, pieces.last().push(s.last()))
        }
    }
}

/// Whether `c` is white space, as Unicode's `White_Space` property says.
pub open spec fn is_white_space(c: char) -> bool {
    let u = c as u32;
    (0x09 <= u <= 0x0d) || u == 0x20 || u == 0x85 || u == 0xa0 || u == 0x1680 || (0x2000 <= u
        <= 0x200a) || u == 0x2028 || u == 0x2029 || u == 0x202f || u == 0x205f || u == 0x3000
}

/// Whether `c` is white space.
pub fn char_is_white_space(c: char) -> (r: bool)
    ensures
        r == is_white_space(c),
{
    let u = c as u32;
    (0x09 <= u && u <= 0x0d) || u == 0x20 || u == 0x85 || u == 0xa0 || u == 0x1680 || (0x2000 <= u
        && u <= 0x200a) || u == 0x2028 || u == 0x2029 || u == 0x202f || u == 0x205f || u == 0x3000
}

/// The index of the first character at or after `i` that is not white space.
pub open spec fn skip_space(s: Seq<char>, i: int) -> int
    decreases s.len() - i,
{
    if i < 0 || i >= s.len() || !is_white_space(s[i]) {
        i
    } else {
        skip_space(s, i + 1)
    }
}

/// The end of `s[lo..j]` without its trailing white space.
pub open spec fn skip_space_back(s: Seq<char>, lo: int, j: int) -> int
    decreases j - lo,
{
    if j <= lo || j > s.len() || !is_white_space(s[j - 1]) {
        j
    } else {
        skip_space_back(s, lo, j - 1)
    }
}

/// `s` without its leading white space.
pub open spec fn trim_start(s: Seq<char>) -> Seq<char> {
    s.subrange(skip_space(s, 0), s.len() as int)
}

/// `s` without its leading and trailing white space.
pub open spec fn trim(s: Seq<char>) -> Seq<char> {
    let a = skip_space(s, 0);
    s.subrange(a, skip_space_back(s, a, s.len() as int))
}

/// `s` without the copies of `c` at its end.
pub open spec fn trim_end_matches(s: Seq<char>, c: char) -> Seq<char>
    decreases s.len(),
{
    if s.len() > 0 && s.last() == c {
        trim_end_matches(s.drop_last(), c)
    } else {
        s
    }
}

/// A line without the carriage return before its newline.
pub open spec fn strip_cr(line: Seq<char>) -> Seq<char> {
    if line.len() > 0 && line.last() == '\r' {
        line.drop_last()
    } else {
        line
    }
}

/// The lines of `s` from `i` on: ended by a newline (a carriage return before
/// it dropped) or by the end of `s`; nothing follows a final newline.
pub open spec fn lines_from(s: Seq<char>, i: int) -> Seq<Seq<char>>
    decreases s.len() - i,
{
    if i < 0 || i >= s.len() {
        Seq::empty()
    } else {
        match index_of(s, '\n', i) {
            None => seq![s.subrange(i, s.len() as int)],
            Some(j) => if j < i || j >= s.len() {
                Seq::empty()
            } else {
                seq![strip_cr(s.subrange(i, j))] + lines_from(s, j + 1)
            },
        }
    }
}

/// The lines of `s`.
pub open spec fn lines(s: Seq<char>) -> Seq<Seq<char>> {
    lines_from(s, 0)
}

// ---------------------------------------------------------------------------
// Lemmas

pub proof fn lemma_index_of_bounds(s: Seq<char>, c: char, i: int)
    requires
        0 <= i,
    ensures
        index_of(s, c, i) matches Some(j) ==> i <= j < s.len() && s[j] == c && forall|k: int|
            i <= k < j ==> s[k] != c,
        index_of(s, c, i) is None ==> forall|k: int| i <= k < s.len() ==> s[k] != c,
    decreases s.len() - i,
{
    if i < s.len() && s[i] != c {
        lemma_index_of_bounds(s, c, i + 1);
    }
}

pub proof fn lemma_last_index_of_bounds(s: Seq<char>, c: char, n: int)
    requires
        0 <= n <= s.len(),
    ensures
        last_index_of(s, c, n) matches Some(j) ==> 0 <= j < n && s[j] == c && forall|k: int|
            j < k < n ==> s[k] != c,
        last_index_of(s, c, n) is None ==> forall|k: int| 0 <= k < n ==> s[k] != c,
    decreases n,
{
    if n > 0 && s[n - 1] != c {
        lemma_last_index_of_bounds(s, c, n - 1);
    }
}

pub proof fn lemma_find_from_bounds(s: Seq<char>, p: Seq<char>, i: int)
    requires
        0 <= i,
    ensures
        find_from(s, p, i) matches Some(j) ==> i <= j && j + p.len() <= s.len(),
    decreases s.len() + 1 - i,
{
    if i + p.len() <= s.len() && s.subrange(i, i + p.len()) != p {
        lemma_find_from_bounds(s, p, i + 1);
    }
}

pub proof fn lemma_skip_space_bounds(s: Seq<char>, i: int)
    requires
        0 <= i <= s.len(),
    ensures
        i <= skip_space(s, i) <= s.len(),
    decreases s.len() - i,
{
    if i < s.len() && is_white_space(s[i]) {
        lemma_skip_space_bounds(s, i + 1);
    }
}

pub proof fn lemma_skip_space_back_bounds(s: Seq<char>, lo: int, j: int)
    requires
        0 <= lo <= j <= s.len(),
    ensures
        lo <= skip_space_back(s, lo, j) <= j,
    decreases j - lo,
{
    if j > lo && is_white_space(s[j - 1]) {
        lemma_skip_space_back_bounds(s, lo, j - 1);
    }
}

// ---------------------------------------------------------------------------
// Searching

/// The first index at or after `i` where `s` holds `c`.
pub fn index_of_exec(s: &[char], c: char, i: usize) -> (r: Option<usize>)
    ensures
        match index_of(s@, c, i as int) {
            Some(j) => r == Some(j as usize) && i <= j < s@.len(),
            None => r is None,
        },
{
    proof {
        lemma_index_of_bounds(s@, c, i as int);
    }
    let mut k = i;
    while k < s.len()
        invariant
            i <= k,
            index_of(s@, c, k as int) == index_of(s@, c, i as int),
        decreases s@.len() - k,
    {
        if s[k] == c {
            return Some(k);
        }
        k = k + 1;
    }
    None
}

/// The last index below `n` where `s` holds `c`.
pub fn last_index_of_exec(s: &[char], c: char, n: usize) -> (r: Option<usize>)
    requires
        n <= s@.len(),
    ensures
        match last_index_of(s@, c, n as int) {
            Some(j) => r == Some(j as usize) && 0 <= j < n,
            None => r is None,
        },
{
    proof {
        lemma_last_index_of_bounds(s@, c, n as int);
    }
    let mut k = n;
    while k > 0
        invariant
            k <= n <= s@.len(),
            last_index_of(s@, c, k as int) == last_index_of(s@, c, n as int),
        decreases k,
    {
        if s[k - 1] == c {
            return Some(k - 1);
        }
        k = k - 1;
    }
    None
}

/// Whether `s[i..i + p.len()]` is `p`.
pub fn matches_at(s: &[char], p: &[char], i: usize) -> (r: bool)
    requires
        i + p@.len() <= s@.len(),
    ensures
        r == (s@.subrange(i as int, i + p@.len()) == p@),
{
    let n = s.len();
    let mut k: usize = 0;
    while k < p.len()
        invariant
            n == s@.len(),
            i + p@.len() <= s@.len(),
            k <= p@.len(),
            forall|j: int| 0 <= j < k ==> s@[i + j] == p@[j],
        decreases p@.len() - k,
    {
        if s[i + k] != p[k] {
            assert(s@.subrange(i as int, i + p@.len())[k as int] != p@[k as int]);
            return false;
        }
        k = k + 1;
    }
    assert(s@.subrange(i as int, i + p@.len()) =~= p@);
    true
}

/// The first index at or after `i` where `p` occurs in `s`.
pub fn find_from_exec(s: &[char], p: &[char], i: usize) -> (r: Option<usize>)
    ensures
        match find_from(s@, p@, i as int) {
            Some(j) => r == Some(j as usize) && i <= j && j + p@.len() <= s@.len(),
            None => r is None,
        },
{
    proof {
        lemma_find_from_bounds(s@, p@, i as int);
    }
    let n = s.len();
    let m = p.len();
    if m > n {
        return None;
    }
    let last = n - m;
    if i > last {
        return None;
    }
    let mut k = i;
    loop
        invariant
            n == s@.len(),
            m == p@.len(),
            m <= n,
            last == n - m,
            i <= k <= last,
            find_from(s@, p@, k as int) == find_from(s@, p@, i as int),
        decreases last - k,
    {
        if matches_at(s, p, k) {
            return Some(k);
        }
        if k == last {
            assert(find_from(s@, p@, k + 1) is None);
            return None;
        }
        k = k + 1;
    }
}

/// Whether `s` begins with `p`.
pub fn starts_with_chars(s: &[char], p: &[char]) -> (r: bool)
    ensures
        r == strip_prefix(s@, p@) is Some,
{
    if p.len() > s.len() {
        return false;
    }
    matches_at(s, p, 0)
}

/// Whether `s` ends with `p`.
pub fn ends_with_chars(s: &[char], p: &[char]) -> (r: bool)
    ensures
        r == (p@.len() <= s@.len() && s@.subrange(s@.len() - p@.len(), s@.len() as int) == p@),
{
    if p.len() > s.len() {
        return false;
    }
    matches_at(s, p, s.len() - p.len())
}

// ---------------------------------------------------------------------------
// Trimming

/// The index of the first character at or after `i` that is not white space.
pub fn skip_space_exec(s: &[char], i: usize) -> (r: usize)
    requires
        i <= s@.len(),
    ensures
        r == skip_space(s@, i as int),
        i <= r <= s@.len(),
{
    proof {
        lemma_skip_space_bounds(s@, i as int);
    }
    let mut k = i;
    while k < s.len() && char_is_white_space(s[k])
        invariant
            i <= k <= s@.len(),
            skip_space(s@, k as int) == skip_space(s@, i as int),
        decreases s@.len() - k,
    {
        k = k + 1;
    }
    k
}

/// The end of `s[lo..j]` without its trailing white space.
pub fn skip_space_back_exec(s: &[char], lo: usize, j: usize) -> (r: usize)
    requires
        lo <= j <= s@.len(),
    ensures
        r == skip_space_back(s@, lo as int, j as int),
        lo <= r <= j,
{
    proof {
        lemma_skip_space_back_bounds(s@, lo as int, j as int);
    }
    let mut k = j;
    while k > lo && char_is_white_space(s[k - 1])
        invariant
            lo <= k <= j <= s@.len(),
            skip_space_back(s@, lo as int, k as int) == skip_space_back(s@, lo as int, j as int),
        decreases k - lo,
    {
        k = k - 1;
    }
    k
}

/// The bounds of `s` without its leading and trailing white space.
pub fn trim_bounds(s: &[char]) -> (r: (usize, usize))
    ensures
        r.0 <= r.1 <= s@.len(),
        s@.subrange(r.0 as int, r.1 as int) == trim(s@),
{
    let a = skip_space_exec(s, 0);
    let b = skip_space_back_exec(s, a, s.len());
    (a, b)
}

/// `s` without its leading and trailing white space.
pub fn str_trim(s: &str) -> (r: &str)
    ensures
        r@ == trim(s@),
{
    let chars = crate::text::str_chars(s);
    let (a, b) = trim_bounds(chars.as_slice());
    str_slice(s, a, b)
}

/// `s` without its leading white space.
pub fn str_trim_start(s: &str) -> (r: &str)
    ensures
        r@ == trim_start(s@),
{
    let chars = crate::text::str_chars(s);
    let a = skip_space_exec(chars.as_slice(), 0);
    str_slice(s, a, chars.len())
}

// ---------------------------------------------------------------------------
// Splitting

/// Splits `s` around the first `c`.
pub fn str_split_once<'a>(s: &'a str, c: char) -> (r: Option<(&'a str, &'a str)>)
    ensures
        match split_once(s@, c) {
            Some((a, b)) => r matches Some((x, y)) && x@ == a && y@ == b,
            None => r is None,
        },
{
    let chars = crate::text::str_chars(s);
    let _n = chars.len();
    match index_of_exec(chars.as_slice(), c, 0) {
        Some(j) => Some((str_slice(s, 0, j), str_slice(s, j + 1, chars.len()))),
        None => None,
    }
}

/// Splits `s` around the last `c`.
pub fn str_rsplit_once<'a>(s: &'a str, c: char) -> (r: Option<(&'a str, &'a str)>)
    ensures
        match rsplit_once(s@, c) {
            Some((a, b)) => r matches Some((x, y)) && x@ == a && y@ == b,
            None => r is None,
        },
{
    let chars = crate::text::str_chars(s);
    match last_index_of_exec(chars.as_slice(), c, chars.len()) {
        Some(j) => Some((str_slice(s, 0, j), str_slice(s, j + 1, chars.len()))),
        None => None,
    }
}

/// Splits `s` around the first occurrence of `p`.
pub fn str_split_once_str<'a>(s: &'a str, p: &str) -> (r: Option<(&'a str, &'a str)>)
    ensures
        match split_once_str(s@, p@) {
            Some((a, b)) => r matches Some((x, y)) && x@ == a && y@ == b,
            None => r is None,
        },
{
    let chars = crate::text::str_chars(s);
    let pattern = crate::text::str_chars(p);
    let n = chars.len();
    let m = pattern.len();
    match find_from_exec(chars.as_slice(), pattern.as_slice(), 0) {
        Some(j) => Some(
            (str_slice(s, 0, j), str_slice(s, j + pattern.len(), chars.len())),
        ),
        None => None,
    }
}

/// `s` without the prefix `p`, if it has it.
pub fn str_strip_prefix<'a>(s: &'a str, p: &str) -> (r: Option<&'a str>)
    ensures
        match strip_prefix(s@, p@) {
            Some(rest) => r matches Some(x) && x@ == rest,
            None => r is None,
        },
{
    let chars = crate::text::str_chars(s);
    let pattern = crate::text::str_chars(p);
    if starts_with_chars(chars.as_slice(), pattern.as_slice()) {
        Some(str_slice(s, pattern.len(), chars.len()))
    } else {
        None
    }
}

/// The views of a list of strings.
pub open spec fn str_views<'a>(v: Seq<&'a str>) -> Seq<Seq<char>> {
    v.map_values(|s: &'a str| s@)
}

/// The lines of `s`.
pub fn str_lines<'a>(s: &'a str) -> (r: Vec<&'a str>)
    ensures
        str_views(r@) == lines(s@),
{
    let chars = crate::text::str_chars(s);
    let n = chars.len();
    let mut out: Vec<&'a str> = Vec::new();
    let mut i: usize = 0;
    proof {
        assert(str_views(out@) + lines_from(s@, 0) =~= lines_from(s@, 0));
    }
    while i < n
        invariant
            n == s@.len(),
            chars@ == s@,
            i <= n,
            str_views(out@) + lines_from(s@, i as int) == lines(s@),
        decreases n - i,
    {
        let ghost before = str_views(out@);
        match index_of_exec(chars.as_slice(), '\n', i) {
            None => {
                out.push(str_slice(s, i, n));
                proof {
                    assert(str_views(out@) =~= before.push(s@.subrange(i as int, n as int)));
                    assert(lines_from(s@, n as int) =~= Seq::<Seq<char>>::empty());
                    assert(before + seq![s@.subrange(i as int, n as int)] =~= str_views(out@)
                        + Seq::<Seq<char>>::empty());
                }
                i = n;
            },
            Some(j) => {
                let end = if j > i && chars[j - 1] == '\r' {
                    j - 1
                } else {
                    j
                };
                out.push(str_slice(s, i, end));
                proof {
                    assert(strip_cr(s@.subrange(i as int, j as int)) =~= s@.subrange(
                        i as int,
                        end as int,
                    ));
                    assert(str_views(out@) =~= before.push(s@.subrange(i as int, end as int)));
                    assert(before + (seq![s@.subrange(i as int, end as int)] + lines_from(
                        s@,
                        j + 1,
                    )) =~= str_views(out@) + lines_from(s@, j + 1));
                }
                i = j + 1;
            },
        }
    }
    proof {
        assert(str_views(out@) + Seq::<Seq<char>>::empty() =~= str_views(out@));
    }
    out
}

/// Splits `s` at every `c`.
pub fn str_split<'a>(s: &'a str, c: char) -> (r: Vec<&'a str>)
    ensures
        str_views(r@) == split(s@, c),
{
    let chars = crate::text::str_chars(s);
    let n = chars.len();
    let mut out: Vec<&'a str> = Vec::new();
    let mut start: usize = 0;
    let mut i: usize = 0;
    proof {
        assert(s@.take(0) =~= Seq::<char>::empty());
        assert(str_views(out@) =~= split(s@.take(0), c).drop_last());
    }
    while i < n
        invariant
            n == s@.len(),
            chars@ == s@,
            start <= i <= n,
            split(s@.take(i as int), c).len() > 0,
            str_views(out@) == split(s@.take(i as int), c).drop_last(),
            split(s@.take(i as int), c).last() == s@.subrange(start as int, i as int),
        decreases n - i,
    {
        proof {
            assert(s@.take(i + 1).drop_last() =~= s@.take(i as int));
            assert(s@.take(i + 1).last() == s@[i as int]);
        }
        if chars[i] == c {
            let ghost before = str_views(out@);
            out.push(str_slice(s, start, i));
            proof {
                assert(str_views(out@) =~= before.push(s@.subrange(start as int, i as int)));
                let pieces = split(s@.take(i as int), c);
                assert(pieces =~= pieces.drop_last().push(pieces.last()));
                assert(split(s@.take(i + 1), c).drop_last() =~= pieces);
                assert(s@.subrange(i + 1, i + 1) =~= Seq::<char>::empty());
            }
            start = i + 1;
        } else {
            proof {
                let pieces = split(s@.take(i as int), c);
                let next = split(s@.take(i + 1), c);
                assert(next =~= pieces.update(pieces.len() - 1, pieces.last().push(s@[i as int])));
                assert(next.drop_last() =~= pieces.drop_last());
                assert(s@.subrange(start as int, i + 1) =~= s@.subrange(start as int, i as int).push(
                    s@[i as int],
                ));
            }
        }
        i = i + 1;
    }
    let ghost before = str_views(out@);
    out.push(str_slice(s, start, n));
    proof {
        assert(s@.take(n as int) =~= s@);
        let pieces = split(s@, c);
        assert(pieces =~= pieces.drop_last().push(pieces.last()));
        assert(str_views(out@) =~= before.push(s@.subrange(start as int, n as int)));
    }
    out
}

/// `c` in lower case, when it is an ASCII capital letter.
pub open spec fn ascii_lower(c: char) -> char {
    if 'A' <= c <= 'Z' {
        ((c as u32) + 32) as char
    } else {
        c
    }
}

/// `s` with its ASCII capital letters in lower case.
pub open spec fn ascii_lowercase(s: Seq<char>) -> Seq<char> {
    s.map_values(|c: char| ascii_lower(c))
}

/// `s` with its ASCII capital letters in lower case.
pub fn str_ascii_lowercase(s: &str) -> (r: String)
    ensures
        r@ == ascii_lowercase(s@),
{
    let chars = crate::text::str_chars(s);
    let mut out: Vec<char> = Vec::new();
    let mut i: usize = 0;
    while i < chars.len()
        invariant
            chars@ == s@,
            i <= chars@.len(),
            out@ == ascii_lowercase(s@.take(i as int)),
        decreases chars@.len() - i,
    {
        let c = chars[i];
        let lower = if 'A' <= c && c <= 'Z' {
            ((c as u32) + 32) as u8 as char
        } else {
            c
        };
        out.push(lower);
        proof {
            assert(ascii_lowercase(s@.take(i + 1)) =~= ascii_lowercase(s@.take(i as int)).push(
                ascii_lower(s@[i as int]),
            ));
        }
        i = i + 1;
    }
    proof {
        assert(s@.take(chars@.len() as int) =~= s@);
    }
    crate::text::chars_string(out.as_slice())
}

/// `s` with each `from` replaced by `to`.
pub open spec fn replace_char(s: Seq<char>, from: char, to: char) -> Seq<char> {
    s.map_values(|c: char| if c == from { to } else { c })
}

/// `s` with each `from` replaced by `to`.
pub fn str_replace_char(s: &str, from: char, to: char) -> (r: String)
    ensures
        r@ == replace_char(s@, from, to),
{
    let chars = crate::text::str_chars(s);
    let mut out: Vec<char> = Vec::new();
    let mut i: usize = 0;
    while i < chars.len()
        invariant
            chars@ == s@,
            i <= chars@.len(),
            out@ == replace_char(s@.take(i as int), from, to),
        decreases chars@.len() - i,
    {
        let c = chars[i];
        out.push(if c == from { to } else { c });
        proof {
            assert(replace_char(s@.take(i + 1), from, to) =~= replace_char(s@.take(i as int), from, to).push(
                if s@[i as int] == from { to } else { s@[i as int] },
            ));
        }
        i = i + 1;
    }
    proof {
        assert(s@.take(chars@.len() as int) =~= s@);
    }
    crate::text::chars_string(out.as_slice())
}

// ---------------------------------------------------------------------------
// Integers

/// Whether `c` is an ASCII digit.
pub open spec fn is_digit(c: char) -> bool {
    '0' <= c <= '9'
}

/// The number that decimal digits spell.
pub open spec fn decimal_value(s: Seq<char>) -> int
    decreases s.len(),
{
    if s.len() == 0 {
        0
    } else {
        decimal_value(s.drop_last()) * 10 + (s.last() as int - 0x30)
    }
}

/// Whether every character of `s` is a digit.
pub open spec fn all_digits(s: Seq<char>) -> bool {
    forall|i: int| 0 <= i < s.len() ==> is_digit(#[trigger] s[i])
}

/// The `i64` that `s` spells: an optional sign, then at least one digit; `None`
/// when it spells no number or one out of range.
pub open spec fn parse_i64(s: Seq<char>) -> Option<i64> {
    let negative = s.len() > 0 && s[0] == '-';
    let digits = if s.len() > 0 && (s[0] == '-' || s[0] == '+') {
        s.drop_first()
    } else {
        s
    };
    if digits.len() == 0 || !all_digits(digits) {
        None
    } else {
        let v = if negative {
            -decimal_value(digits)
        } else {
            decimal_value(digits)
        };
        if i64::MIN <= v <= i64::MAX {
            Some(v as i64)
        } else {
            None
        }
    }
}

proof fn lemma_decimal_value_prefix(s: Seq<char>, k: int)
    requires
        0 <= k <= s.len(),
        all_digits(s),
    ensures
        0 <= decimal_value(s.take(k)) <= decimal_value(s),
    decreases s.len() - k,
{
    if k < s.len() {
        lemma_decimal_value_prefix(s, k + 1);
        assert(s.take(k + 1).drop_last() =~= s.take(k));
        assert(is_digit(s[k]));
    } else {
        assert(s.take(k) =~= s);
        lemma_decimal_value_nonneg(s);
    }
}

proof fn lemma_decimal_value_nonneg(s: Seq<char>)
    requires
        all_digits(s),
    ensures
        decimal_value(s) >= 0,
    decreases s.len(),
{
    if s.len() > 0 {
        assert(all_digits(s.drop_last()));
        lemma_decimal_value_nonneg(s.drop_last());
        assert(is_digit(s[s.len() - 1]));
    }
}

/// The number that the digits `s[start..]` spell, unless it exceeds
/// `u64::MAX` or a character is no digit.
fn digits_value(s: &[char], start: usize) -> (r: Option<u64>)
    requires
        start <= s@.len(),
    ensures
        all_digits(s@.subrange(start as int, s@.len() as int)) ==> match r {
            Some(v) => v == decimal_value(s@.subrange(start as int, s@.len() as int)),
            None => decimal_value(s@.subrange(start as int, s@.len() as int)) > u64::MAX,
        },
        !all_digits(s@.subrange(start as int, s@.len() as int)) ==> r is None,
{
    let ghost d = s@.subrange(start as int, s@.len() as int);
    let mut value: u64 = 0;
    let mut i = start;
    proof {
        assert(d.take(0) =~= Seq::<char>::empty());
    }
    while i < s.len()
        invariant
            d == s@.subrange(start as int, s@.len() as int),
            start <= i <= s@.len(),
            all_digits(d.take(i - start)),
            value == decimal_value(d.take(i - start)),
        decreases s@.len() - i,
    {
        let c = s[i];
        if !('0' <= c && c <= '9') {
            proof {
                assert(d[i - start] == c);
            }
            return None;
        }
        proof {
            assert(d.take(i - start + 1).drop_last() =~= d.take(i - start));
            assert(d.take(i - start + 1).last() == c);
            assert(all_digits(d.take(i - start + 1)));
        }
        let digit = (c as u32 - 0x30) as u64;
        let next = match value.checked_mul(10) {
            Some(v) => v.checked_add(digit),
            None => None,
        };
        match next {
            Some(v) => {
                value = v;
            },
            None => {
                proof {
                    if all_digits(d) {
                        lemma_decimal_value_prefix(d, i - start + 1);
                    }
                }
                return None;
            },
        }
        i = i + 1;
    }
    proof {
        assert(d.take(i - start) =~= d);
    }
    Some(value)
}

/// Parses an `i64`: an optional sign, then at least one digit.
pub fn parse_i64_exec(s: &str) -> (r: Option<i64>)
    ensures
        r == parse_i64(s@),
{
    let chars = str_chars(s);
    let n = chars.len();
    let negative = n > 0 && chars[0] == '-';
    let start: usize = if n > 0 && (chars[0] == '-' || chars[0] == '+') {
        1
    } else {
        0
    };
    proof {
        if start == 1 {
            assert(s@.drop_first() =~= s@.subrange(1, s@.len() as int));
        } else {
            assert(s@ =~= s@.subrange(0, s@.len() as int));
        }
    }
    if start == n {
        return None;
    }
    let magnitude = match digits_value(chars.as_slice(), start) {
        Some(v) => v,
        None => return None,
    };
    if negative {
        if magnitude <= 0x8000_0000_0000_0000 {
            Some((0 - (magnitude as i128)) as i64)
        } else {
            None
        }
    } else {
        if magnitude <= 0x7fff_ffff_ffff_ffff {
            Some(magnitude as i64)
        } else {
            None
        }
    }
}

/// The `usize` that `s` spells, as `usize::from_str` reads it: an optional
/// `+`, then at least one digit, with a value that fits.
pub open spec fn parse_usize(s: Seq<char>) -> Option<usize> {
    let digits = if s.len() > 0 && s[0] == '+' {
        s.drop_first()
    } else {
        s
    };
    if digits.len() == 0 || !all_digits(digits) || decimal_value(digits) > usize::MAX {
        None
    } else {
        Some(decimal_value(digits) as usize)
    }
}

/// Parses a `usize`: an optional `+`, then at least one digit.
pub fn parse_usize_exec(s: &str) -> (r: Option<usize>)
    ensures
        r == parse_usize(s@),
{
    let chars = str_chars(s);
    let n = chars.len();
    let start: usize = if n > 0 && chars[0] == '+' {
        1
    } else {
        0
    };
    proof {
        if start == 1 {
            assert(s@.drop_first() =~= s@.subrange(1, s@.len() as int));
        } else {
            assert(s@ =~= s@.subrange(0, s@.len() as int));
        }
    }
    if start == n {
        return None;
    }
    let magnitude = match digits_value(chars.as_slice(), start) {
        Some(v) => v,
        None => return None,
    };
    if magnitude <= usize::MAX as u64 {
        Some(magnitude as usize)
    } else {
        None
    }
}

} // verus!
