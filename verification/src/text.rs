use vstd::prelude::*;
use vstd::string::StringSliceAdditionalSpecFns;
use vstd::string::StrSliceExecFns;
use crate::onnx::slice_range;
use vstd::utf8::{
    char_is_scalar, decode_first_scalar, decode_utf8, encode_scalar, encode_utf8, encode_utf8_decode_utf8,
    encode_utf8_valid_utf8,
    is_char_boundary, is_char_boundary_iff_not_is_continuation_byte,
    is_char_boundary_start_end_of_seq, length_of_first_scalar, pop_first_scalar, valid_utf8,
};

verus! {

/// `std::str::from_utf8`: trusted to give `Some` exactly when the bytes are
/// well-formed UTF-8, and then the string whose characters the bytes encode.
#[verifier::external_body]
pub(crate) fn utf8_str(bytes: &[u8]) -> (r: Option<&str>)
    ensures
        r.is_some() == valid_utf8(bytes@),
        r matches Some(s) ==> s@ == decode_utf8(bytes@),
{
    std::str::from_utf8(bytes).ok()
}

/// What `String::from_utf8_lossy` makes of `bytes`: the characters they
/// encode, each ill-formed sequence replaced by U+FFFD.
pub uninterp spec fn utf8_lossy(bytes: Seq<u8>) -> Seq<char>;

/// `String::from_utf8_lossy`, made owned: trusted to give `utf8_lossy(bytes)`,
/// which for well-formed UTF-8 is the string that the bytes encode (the
/// documentation: valid UTF-8 comes back unchanged). How ill-formed sequences
/// are replaced is not stated.
#[verifier::external_body]
pub(crate) fn lossy_string(bytes: &[u8]) -> (s: String)
    ensures
        s@ == utf8_lossy(bytes@),
        valid_utf8(bytes@) ==> s@ == decode_utf8(bytes@),
{
    String::from_utf8_lossy(bytes).into_owned()
}

/// The characters that `bytes` encode, when they are UTF-8; `None` otherwise.
pub open spec fn spec_utf8(bytes: Seq<u8>) -> Option<Seq<char>> {
    if valid_utf8(bytes) {
        Some(decode_utf8(bytes))
    } else {
        None
    }
}

/// Decodes `bytes` as UTF-8 into an owned string.
pub fn utf8_string(bytes: &[u8]) -> (r: Option<String>)
    ensures
        r.is_some() == spec_utf8(bytes@).is_some(),
        r matches Some(s) ==> s@ == spec_utf8(bytes@).unwrap(),
{
    match utf8_str(bytes) {
        Some(s) => Some(s.to_owned()),
        None => None,
    }
}

/// A string's UTF-8 encoding is empty exactly when the string is.
pub proof fn lemma_utf8_empty(chars: Seq<char>)
    ensures
        (encode_utf8(chars).len() == 0) == (chars.len() == 0),
{
    if chars.len() > 0 {
        assert(encode_scalar(chars[0] as u32).len() > 0);
    }
}

/// Splits `s` at byte `mid`, which is its end or the start of an ASCII character.
pub fn split_at_ascii<'a>(s: &'a str, mid: usize) -> (r: (&'a str, &'a str))
    requires
        mid <= s.spec_bytes().len(),
        mid < s.spec_bytes().len() ==> s.spec_bytes()[mid as int] < 0x80,
    ensures
        r.0.spec_bytes() == s.spec_bytes().subrange(0, mid as int),
        r.1.spec_bytes() == s.spec_bytes().subrange(mid as int, s.spec_bytes().len() as int),
{
    proof {
        let b = s.spec_bytes();
        encode_utf8_valid_utf8(s@);
        is_char_boundary_start_end_of_seq(b);
        if mid < b.len() {
            is_char_boundary_iff_not_is_continuation_byte(b, mid as int);
        }
    }
    s.split_at(mid)
}

/// Drops the first character of `s`, which is ASCII.
pub fn skip_first_ascii<'a>(s: &'a str) -> (r: &'a str)
    requires
        s.spec_bytes().len() > 0,
        s.spec_bytes()[0] < 0x80,
    ensures
        r.spec_bytes() == s.spec_bytes().subrange(1, s.spec_bytes().len() as int),
{
    proof {
        let b = s.spec_bytes();
        encode_utf8_valid_utf8(s@);
        reveal_with_fuel(is_char_boundary, 2);
        assert(length_of_first_scalar(b) == 1);
        assert(pop_first_scalar(b).len() < b.len());
        is_char_boundary_start_end_of_seq(pop_first_scalar(b));
        assert(is_char_boundary(pop_first_scalar(b), 0));
        assert(is_char_boundary(b, 1));
    }
    s.split_at(1).1
}

/// The first index of `b` in `s`, if any.
pub fn find_byte(s: &[u8], b: u8) -> (r: Option<usize>)
    ensures
        r matches Some(i) ==> i < s@.len() && s@[i as int] == b && forall|j: int|
            0 <= j < i ==> s@[j] != b,
        r is None ==> forall|j: int| 0 <= j < s@.len() ==> s@[j] != b,
{
    let mut i: usize = 0;
    while i < s.len()
        invariant
            i <= s@.len(),
            forall|j: int| 0 <= j < i ==> s@[j] != b,
        decreases s@.len() - i,
    {
        if s[i] == b {
            return Some(i);
        }
        i += 1;
    }
    None
}

/// The last index of `b` in `s`, if any.
pub fn rfind_byte(s: &[u8], b: u8) -> (r: Option<usize>)
    ensures
        r matches Some(i) ==> i < s@.len() && s@[i as int] == b && forall|j: int|
            i < j < s@.len() ==> s@[j] != b,
        r is None ==> forall|j: int| 0 <= j < s@.len() ==> s@[j] != b,
{
    let mut i: usize = s.len();
    while i > 0
        invariant
            i <= s@.len(),
            forall|j: int| i <= j < s@.len() ==> s@[j] != b,
        decreases i,
    {
        if s[i - 1] == b {
            return Some(i - 1);
        }
        i -= 1;
    }
    None
}

/// Splits `s` around the first `c`, an ASCII byte.
pub fn split_once_ascii<'a>(s: &'a str, c: u8) -> (r: Option<(&'a str, &'a str)>)
    requires
        c < 0x80,
    ensures
        r is None <==> forall|j: int| 0 <= j < s.spec_bytes().len() ==> s.spec_bytes()[j] != c,
        r matches Some((a, b)) ==> exists|i: int|
            0 <= i < s.spec_bytes().len() && s.spec_bytes()[i] == c && (forall|j: int|
                0 <= j < i ==> s.spec_bytes()[j] != c) && a.spec_bytes() == s.spec_bytes().subrange(
                0,
                i,
            ) && b.spec_bytes() == s.spec_bytes().subrange(i + 1, s.spec_bytes().len() as int),
{
    let bytes = s.as_bytes();
    match find_byte(bytes, c) {
        None => None,
        Some(i) => {
            let (a, rest) = split_at_ascii(s, i);
            let b = skip_first_ascii(rest);
            proof {
                assert(b.spec_bytes() =~= s.spec_bytes().subrange(i + 1, s.spec_bytes().len() as int));
            }
            Some((a, b))
        },
    }
}

/// Splits `s` around the last `c`, an ASCII byte.
pub fn rsplit_once_ascii<'a>(s: &'a str, c: u8) -> (r: Option<(&'a str, &'a str)>)
    requires
        c < 0x80,
    ensures
        r is None <==> forall|j: int| 0 <= j < s.spec_bytes().len() ==> s.spec_bytes()[j] != c,
        r matches Some((a, b)) ==> exists|i: int|
            0 <= i < s.spec_bytes().len() && s.spec_bytes()[i] == c && (forall|j: int|
                i < j < s.spec_bytes().len() ==> s.spec_bytes()[j] != c) && a.spec_bytes()
                == s.spec_bytes().subrange(0, i) && b.spec_bytes() == s.spec_bytes().subrange(
                i + 1,
                s.spec_bytes().len() as int,
            ),
{
    let bytes = s.as_bytes();
    match rfind_byte(bytes, c) {
        None => None,
        Some(i) => {
            let (a, rest) = split_at_ascii(s, i);
            let b = skip_first_ascii(rest);
            proof {
                assert(b.spec_bytes() =~= s.spec_bytes().subrange(i + 1, s.spec_bytes().len() as int));
            }
            Some((a, b))
        },
    }
}

/// Whether `a` and `b` hold the same bytes.
pub fn bytes_eq(a: &[u8], b: &[u8]) -> (r: bool)
    ensures
        r == (a@ == b@),
{
    if a.len() != b.len() {
        return false;
    }
    let mut i: usize = 0;
    while i < a.len()
        invariant
            a@.len() == b@.len(),
            i <= a@.len(),
            forall|j: int| 0 <= j < i ==> a@[j] == b@[j],
        decreases a@.len() - i,
    {
        if a[i] != b[i] {
            return false;
        }
        i += 1;
    }
    proof {
        assert(a@ =~= b@);
    }
    true
}

/// Two strings are equal exactly when their UTF-8 encodings are.
pub proof fn lemma_encode_injective(a: Seq<char>, b: Seq<char>)
    ensures
        (encode_utf8(a) == encode_utf8(b)) == (a == b),
{
    if encode_utf8(a) == encode_utf8(b) {
        encode_utf8_decode_utf8(a);
        encode_utf8_decode_utf8(b);
    }
}

/// Whether two strings are equal.
pub fn str_eq(a: &str, b: &str) -> (r: bool)
    ensures
        r == (a@ == b@),
{
    proof {
        lemma_encode_injective(a@, b@);
    }
    bytes_eq(a.as_bytes(), b.as_bytes())
}

/// Whether `s` begins with `prefix`.
pub fn starts_with(s: &[u8], prefix: &[u8]) -> (r: bool)
    ensures
        r == (prefix@.len() <= s@.len() && s@.subrange(0, prefix@.len() as int) == prefix@),
{
    if prefix.len() > s.len() {
        return false;
    }
    bytes_eq(vstd::slice::slice_subrange(s, 0, prefix.len()), prefix)
}

/// Whether `s` ends with `suffix`.
pub fn ends_with(s: &[u8], suffix: &[u8]) -> (r: bool)
    ensures
        r == (suffix@.len() <= s@.len() && s@.subrange(
            s@.len() - suffix@.len(),
            s@.len() as int,
        ) == suffix@),
{
    if suffix.len() > s.len() {
        return false;
    }
    bytes_eq(vstd::slice::slice_subrange(s, s.len() - suffix.len(), s.len()), suffix)
}

/// Whether every byte of `s` is ASCII.
pub open spec fn all_ascii(s: Seq<u8>) -> bool {
    forall|i: int| 0 <= i < s.len() ==> s[i] < 0x80
}

/// The characters that ASCII bytes stand for.
pub open spec fn ascii_chars(s: Seq<u8>) -> Seq<char> {
    s.map_values(|b: u8| b as char)
}

/// ASCII bytes are UTF-8, and encode the characters of the same codes.
pub proof fn lemma_ascii_utf8(s: Seq<u8>)
    requires
        all_ascii(s),
    ensures
        valid_utf8(s),
        decode_utf8(s) == ascii_chars(s),
    decreases s.len(),
{
    if s.len() > 0 {
        assert(length_of_first_scalar(s) == 1);
        let b = s[0];
        assert(b < 0x80 ==> (b & 0x7f) as u32 == b as u32) by (bit_vector);
        assert(decode_first_scalar(s) == b as u32);
        assert(pop_first_scalar(s) =~= s.drop_first());
        lemma_ascii_utf8(s.drop_first());
        assert(ascii_chars(s) =~= seq![s[0] as char] + ascii_chars(s.drop_first()));
    }
}

/// The string of the ASCII bytes `bytes`.
pub fn ascii_string(bytes: &[u8]) -> (r: String)
    requires
        all_ascii(bytes@),
    ensures
        r@ == ascii_chars(bytes@),
{
    proof {
        lemma_ascii_utf8(bytes@);
    }
    match utf8_string(bytes) {
        Some(s) => s,
        None => String::new(),
    }
}

} // verus!

verus! {

/// Whether `p` begins `s`.
pub open spec fn has_prefix(s: Seq<char>, p: Seq<char>) -> bool {
    p.len() <= s.len() && s.subrange(0, p.len() as int) == p
}

/// Whether `p` ends `s`.
pub open spec fn has_suffix(s: Seq<char>, p: Seq<char>) -> bool {
    p.len() <= s.len() && s.subrange(s.len() - p.len(), s.len() as int) == p
}

/// Whether `p` occurs in `s` at character `i`.
pub open spec fn occurs_at(s: Seq<char>, p: Seq<char>, i: int) -> bool {
    0 <= i && i + p.len() <= s.len() && s.subrange(i, i + p.len()) == p
}

/// Whether the characters of `s` from `start` on match `p`.
fn chars_match_at(s: &str, p: &str, start: usize, s_len: usize, p_len: usize) -> (r: bool)
    requires
        s_len == s@.len(),
        p_len == p@.len(),
        start + p_len <= s_len,
    ensures
        r == (s@.subrange(start as int, start + p_len) == p@),
{
    let mut i: usize = 0;
    while i < p_len
        invariant
            s_len == s@.len(),
            p_len == p@.len(),
            start + p_len <= s_len,
            i <= p_len,
            forall|j: int| 0 <= j < i ==> s@[start + j] == p@[j],
        decreases p_len - i,
    {
        if s.get_char(start + i) != p.get_char(i) {
            assert(s@.subrange(start as int, start + p_len)[i as int] != p@[i as int]);
            return false;
        }
        i = i + 1;
    }
    assert(s@.subrange(start as int, start + p_len) =~= p@);
    true
}

/// Whether `s` begins with `p`.
pub fn str_starts_with(s: &str, p: &str) -> (r: bool)
    ensures
        r == has_prefix(s@, p@),
{
    let s_len = s.unicode_len();
    let p_len = p.unicode_len();
    if p_len > s_len {
        return false;
    }
    chars_match_at(s, p, 0, s_len, p_len)
}

/// Whether `s` ends with `p`.
pub fn str_ends_with(s: &str, p: &str) -> (r: bool)
    ensures
        r == has_suffix(s@, p@),
{
    let s_len = s.unicode_len();
    let p_len = p.unicode_len();
    if p_len > s_len {
        return false;
    }
    chars_match_at(s, p, s_len - p_len, s_len, p_len)
}

/// The first character index at which `p` occurs in `s`.
pub fn str_find(s: &str, p: &str) -> (r: Option<usize>)
    ensures
        match r {
            Some(i) => occurs_at(s@, p@, i as int) && forall|j: int| 0 <= j < i ==> !occurs_at(s@, p@, j),
            None => forall|j: int| !occurs_at(s@, p@, j),
        },
{
    let s_len = s.unicode_len();
    let p_len = p.unicode_len();
    if p_len > s_len {
        return None;
    }
    let last = s_len - p_len;
    let mut i: usize = 0;
    loop
        invariant
            s_len == s@.len(),
            p_len == p@.len(),
            p_len <= s_len,
            last == s_len - p_len,
            i <= last,
            forall|j: int| 0 <= j < i ==> !occurs_at(s@, p@, j),
        decreases last - i,
    {
        if chars_match_at(s, p, i, s_len, p_len) {
            return Some(i);
        }
        if i == last {
            return None;
        }
        i = i + 1;
    }
}

/// Whether `p` occurs in `s`.
pub fn str_contains(s: &str, p: &str) -> (r: bool)
    ensures
        r == exists|j: int| occurs_at(s@, p@, j),
{
    match str_find(s, p) {
        Some(i) => true,
        None => false,
    }
}

/// The characters of `s` from `from` to `to`.
pub fn str_slice<'a>(s: &'a str, from: usize, to: usize) -> (r: &'a str)
    requires
        from <= to <= s@.len(),
    ensures
        r@ == s@.subrange(from as int, to as int),
{
    s.substring_char(from, to)
}

} // verus!

verus! {

/// The characters of `s`.
pub fn str_chars(s: &str) -> (r: Vec<char>)
    ensures
        r@ == s@,
{
    let mut out: Vec<char> = Vec::new();
    for c in it: s.chars()
        invariant
            it.seq() == s@,
            out@ == it.seq().take(it.index@ as int),
    {
        out.push(c);
    }
    out
}

/// Encoding one more character adds its bytes at the end.
pub proof fn lemma_encode_utf8_push(s: Seq<char>, c: char)
    ensures
        encode_utf8(s.push(c)) == encode_utf8(s) + encode_scalar(c as u32),
    decreases s.len(),
{
    if s.len() == 0 {
        let t = s.push(c);
        assert(t.drop_first() =~= Seq::<char>::empty());
        assert(encode_utf8(t.drop_first()) =~= Seq::<u8>::empty());
        assert(t[0] == c);
        assert(encode_utf8(t) =~= encode_scalar(c as u32) + Seq::<u8>::empty());
        assert(encode_utf8(s) =~= Seq::<u8>::empty());
    } else {
        lemma_encode_utf8_push(s.drop_first(), c);
        assert(s.push(c).drop_first() =~= s.drop_first().push(c));
        assert(encode_utf8(s.push(c)) =~= encode_scalar(s[0] as u32) + (encode_utf8(s.drop_first())
            + encode_scalar(c as u32)));
    }
}

/// Adds the UTF-8 bytes of `c`.
fn push_utf8(bytes: &mut Vec<u8>, c: char)
    ensures
        final(bytes)@ == old(bytes)@ + encode_scalar(c as u32),
{
    proof {
        char_is_scalar(c);
    }
    let v = c as u32;
    if v <= 0x7F {
        bytes.push((v & 0x7F) as u8);
    } else if v <= 0x7FF {
        bytes.push(0xC0 | ((v >> 6) & 0x1F) as u8);
        bytes.push(0x80 | (v & 0x3F) as u8);
    } else if v <= 0xFFFF {
        bytes.push(0xE0 | ((v >> 12) & 0x0F) as u8);
        bytes.push(0x80 | ((v >> 6) & 0x3F) as u8);
        bytes.push(0x80 | (v & 0x3F) as u8);
    } else {
        bytes.push(0xF0 | ((v >> 18) & 0x7) as u8);
        bytes.push(0x80 | ((v >> 12) & 0x3F) as u8);
        bytes.push(0x80 | ((v >> 6) & 0x3F) as u8);
        bytes.push(0x80 | (v & 0x3F) as u8);
    }
    assert(bytes@ =~= old(bytes)@ + encode_scalar(c as u32));
}

/// The string of the characters `chars`.
pub fn chars_string(chars: &[char]) -> (r: String)
    ensures
        r@ == chars@,
{
    let mut bytes: Vec<u8> = Vec::new();
    let mut i: usize = 0;
    proof {
        assert(chars@.take(0) =~= Seq::<char>::empty());
    }
    while i < chars.len()
        invariant
            i <= chars@.len(),
            bytes@ == encode_utf8(chars@.take(i as int)),
        decreases chars@.len() - i,
    {
        push_utf8(&mut bytes, chars[i]);
        proof {
            lemma_encode_utf8_push(chars@.take(i as int), chars@[i as int]);
            assert(chars@.take(i as int).push(chars@[i as int]) =~= chars@.take(i + 1));
        }
        i = i + 1;
    }
    proof {
        assert(chars@.take(chars@.len() as int) =~= chars@);
        encode_utf8_valid_utf8(chars@);
        encode_utf8_decode_utf8(chars@);
    }
    match utf8_string(bytes.as_slice()) {
        Some(s) => s,
        None => String::new(),
    }
}

// ---------------------------------------------------------------------------
// Searching bytes

/// Whether `needle` is not empty and occurs in `data`.
pub open spec fn spec_contains_bytes(data: Seq<u8>, needle: Seq<u8>) -> bool {
    needle.len() > 0 && exists|i: int|
        0 <= i && i + needle.len() <= data.len() && #[trigger] data.subrange(i, i + needle.len())
            == needle
}

/// Whether the non-empty `needle` occurs in `data`.
pub fn contains_bytes(data: &[u8], needle: &[u8]) -> (r: bool)
    ensures
        r == spec_contains_bytes(data@, needle@),
{
    let n = needle.len();
    if n == 0 || n > data.len() {
        return false;
    }
    let len = data.len();
    let last = len - n;
    let mut i: usize = 0;
    loop
        invariant
            n == needle@.len() > 0,
            len == data@.len(),
            n <= data@.len(),
            last == data@.len() - n,
            i <= last,
            forall|j: int| 0 <= j < i ==> #[trigger] data@.subrange(j, j + n) != needle@,
        decreases last - i,
    {
        if bytes_eq(slice_range(data, i, i + n), needle) {
            return true;
        }
        if i == last {
            proof {
                assert forall|j: int|
                    0 <= j && j + needle@.len() <= data@.len() implies #[trigger] data@.subrange(
                    j,
                    j + needle@.len(),
                ) != needle@ by {
                    assert(j <= i);
                }
            }
            return false;
        }
        i = i + 1;
    }
}

} // verus!
