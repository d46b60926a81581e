//! Small helpers of the ONNX reader: function keys, operator names, JSON and
//! base64 framing.
use vstd::prelude::*;
use vstd::string::StringSliceAdditionalSpecFns;
use crate::error::{ErrorKind, Format, ModelError, invalid};
use crate::onnx::onnx_error;
use crate::text::{rsplit_once_ascii, str_eq};

verus! {

/// The key by which a function is found: its domain (empty when it has none),
/// its name, and its overload when it has a non-empty one.
pub struct FunctionKey {
    pub domain: String,
    pub name: String,
    pub overload: Option<String>,
}

/// The characters of an optional string slice.
pub open spec fn opt_chars(s: Option<&str>) -> Option<Seq<char>> {
    match s {
        Some(x) => Some(x@),
        None => None,
    }
}

/// A non-empty optional string, or `None`.
pub open spec fn non_empty(s: Option<Seq<char>>) -> Option<Seq<char>> {
    match s {
        Some(x) => if x.len() > 0 {
            Some(x)
        } else {
            None
        },
        None => None,
    }
}

/// Builds the key of a function.
pub fn function_key(domain: Option<&str>, name: &str, overload: Option<&str>) -> (r: FunctionKey)
    ensures
        r.domain@ == (match domain {
            Some(d) => d@,
            None => Seq::<char>::empty(),
        }),
        r.name@ == name@,
        (match r.overload {
            Some(o) => Some(o@),
            None => None,
        }) == non_empty(opt_chars(overload)),
{
    let domain = match domain {
        Some(d) => d.to_owned(),
        None => String::new(),
    };
    let overload = match overload {
        Some(o) => if o.is_empty() {
            None
        } else {
            Some(o.to_owned())
        },
        None => None,
    };
    FunctionKey { domain, name: name.to_owned(), overload }
}

/// The name and overload of a node's operator. In the domain `pkg.torch.ops`
/// an operator type `name.suffix` names the operator `name` with the overload
/// `suffix`; otherwise the operator type is the name and the overload is kept
/// when it is not empty.
pub fn node_operator_parts<'a>(domain: Option<&str>, op_type: &'a str, overload: Option<&'a str>) -> (r: (
    &'a str,
    Option<&'a str>,
))
    ensures
        ({
            let torch = domain matches Some(d) && d@ == "pkg.torch.ops"@;
            let dot = exists|j: int| 0 <= j < op_type.spec_bytes().len() && op_type.spec_bytes()[j] == 0x2e;
            if torch && dot {
                exists|i: int|
                    0 <= i < op_type.spec_bytes().len() && op_type.spec_bytes()[i] == 0x2e && (forall|j: int|
                        i < j < op_type.spec_bytes().len() ==> op_type.spec_bytes()[j] != 0x2e)
                        && r.0.spec_bytes() == op_type.spec_bytes().subrange(0, i) && (r.1 matches Some(s)
                        && s.spec_bytes() == op_type.spec_bytes().subrange(
                        i + 1,
                        op_type.spec_bytes().len() as int,
                    ))
            } else {
                r.0 == op_type && opt_chars(r.1) == non_empty(opt_chars(overload))
            }
        }),
{
    if let Some(d) = domain {
        if str_eq(d, "pkg.torch.ops") {
            if let Some((name, suffix)) = rsplit_once_ascii(op_type, 0x2e) {
                return (name, Some(suffix));
            }
        }
    }
    let overload = match overload {
        Some(o) => if o.is_empty() {
            None
        } else {
            Some(o)
        },
        None => None,
    };
    (op_type, overload)
}

/// Whether `b` is ASCII white space: space, tab, line feed, form feed or
/// carriage return.
pub open spec fn is_ascii_whitespace(b: u8) -> bool {
    b == 0x20 || b == 0x09 || b == 0x0a || b == 0x0c || b == 0x0d
}

fn ascii_whitespace(b: u8) -> (r: bool)
    ensures
        r == is_ascii_whitespace(b),
{
    b == 0x20 || b == 0x09 || b == 0x0a || b == 0x0c || b == 0x0d
}

/// Whether the first byte of `data` that is not white space is `{`.
pub fn looks_like_json_object(data: &[u8]) -> (r: bool)
    ensures
        r == exists|i: int|
            0 <= i < data@.len() && data@[i] == 0x7b && forall|j: int|
                0 <= j < i ==> is_ascii_whitespace(#[trigger] data@[j]),
{
    let mut i: usize = 0;
    while i < data.len()
        invariant
            i <= data@.len(),
            forall|j: int| 0 <= j < i ==> is_ascii_whitespace(#[trigger] data@[j]),
        decreases data@.len() - i,
    {
        if !ascii_whitespace(data[i]) {
            let r = data[i] == 0x7b;
            proof {
                if !r {
                    assert forall|k: int|
                        0 <= k < data@.len() && data@[k] == 0x7b implies !(forall|j: int|
                        0 <= j < k ==> is_ascii_whitespace(#[trigger] data@[j])) by {
                        if k > i {
                            assert(!is_ascii_whitespace(data@[i as int]));
                        }
                    }
                }
            }
            return r;
        }
        i += 1;
    }
    false
}

/// The six bits that a base64 character stands for.
pub open spec fn base64_sextet(b: u8) -> Option<u32> {
    if 0x41 <= b <= 0x5a {
        Some((b - 0x41) as u32)
    } else if 0x61 <= b <= 0x7a {
        Some((b - 0x61 + 26) as u32)
    } else if 0x30 <= b <= 0x39 {
        Some((b - 0x30 + 52) as u32)
    } else if b == 0x2b {
        Some(62)
    } else if b == 0x2f {
        Some(63)
    } else {
        None
    }
}

/// The state of a base64 decoder: the bytes so far, the bits not yet in a
/// byte, how many there are, and whether padding was seen.
pub struct Base64State {
    pub out: Seq<u8>,
    pub buffer: u32,
    pub bits: u8,
    pub padded: bool,
}

/// One character of base64: white space is skipped, `=` starts the padding,
/// after which only padding and white space may follow; each other character
/// adds six bits, and each full byte of bits goes to the output.
pub open spec fn base64_step(st: Base64State, b: u8) -> Result<Base64State, ErrorKind> {
    if is_ascii_whitespace(b) {
        Ok(st)
    } else if b == 0x3d {
        Ok(Base64State { padded: true, ..st })
    } else if st.padded {
        Err(ErrorKind::InvalidValue)
    } else {
        match base64_sextet(b) {
            None => Err(ErrorKind::InvalidValue),
            Some(v) => {
                let buffer = (st.buffer << 6u32) | v;
                let bits = (st.bits + 6) as u8;
                if bits >= 8 {
                    let rest = (bits - 8) as u8;
                    Ok(
                        Base64State {
                            out: st.out.push((buffer >> rest) as u8),
                            buffer: buffer & ((1u32 << rest) - 1) as u32,
                            bits: rest,
                            padded: false,
                        },
                    )
                } else {
                    Ok(Base64State { out: st.out, buffer, bits, padded: false })
                }
            },
        }
    }
}

/// Runs the decoder over `s[i..]`.
pub open spec fn base64_run(s: Seq<u8>, i: int, st: Base64State) -> Result<Base64State, ErrorKind>
    decreases s.len() - i,
{
    if i < 0 || i >= s.len() {
        Ok(st)
    } else {
        match base64_step(st, s[i]) {
            Ok(next) => base64_run(s, i + 1, next),
            Err(e) => Err(e),
        }
    }
}

/// The bytes that the base64 text `s` decodes to; bits that do not fill a last
/// byte are dropped.
pub open spec fn spec_base64_decode(s: Seq<u8>) -> Result<Seq<u8>, ErrorKind> {
    match base64_run(s, 0, Base64State { out: Seq::empty(), buffer: 0, bits: 0, padded: false }) {
        Ok(st) => Ok(st.out),
        Err(e) => Err(e),
    }
}

/// The base64 character of a six-bit value (RFC 4648 alphabet).
pub open spec fn base64_char(v: u8) -> u8 {
    if v < 26 {
        (0x41 + v) as u8
    } else if v < 52 {
        (0x61 + v - 26) as u8
    } else if v < 62 {
        (0x30 + v - 52) as u8
    } else if v == 62 {
        0x2b
    } else {
        0x2f
    }
}

/// The standard base64 encoding of `data`, padded with `=` (RFC 4648).
pub open spec fn base64_encode(data: Seq<u8>) -> Seq<u8>
    decreases data.len(),
{
    if data.len() == 0 {
        Seq::empty()
    } else if data.len() == 1 {
        let a = data[0];
        seq![base64_char(a >> 2), base64_char(((a & 3) << 4) as u8), 0x3du8, 0x3du8]
    } else if data.len() == 2 {
        let a = data[0];
        let b = data[1];
        seq![
            base64_char(a >> 2),
            base64_char((((a & 3) << 4) | (b >> 4)) as u8),
            base64_char(((b & 15) << 2) as u8),
            0x3du8,
        ]
    } else {
        let a = data[0];
        let b = data[1];
        let c = data[2];
        seq![
            base64_char(a >> 2),
            base64_char((((a & 3) << 4) | (b >> 4)) as u8),
            base64_char((((b & 15) << 2) | (c >> 6)) as u8),
            base64_char(c & 63),
        ] + base64_encode(data.skip(3))
    }
}

/// A base64 character stands for the value it encodes.
proof fn lemma_base64_char(v: u8)
    requires
        v < 64,
    ensures
        base64_sextet(base64_char(v)) == Some(v as u32),
        !is_ascii_whitespace(base64_char(v)),
        base64_char(v) != 0x3d,
{
}

/// Running the decoder over text that continues another reads the second
/// part from where the first left off.
proof fn lemma_run_skip(x: Seq<u8>, y: Seq<u8>, j: int, st: Base64State)
    requires
        0 <= j <= y.len(),
    ensures
        base64_run(x + y, x.len() + j, st) == base64_run(y, j, st),
    decreases y.len() - j,
{
    if j < y.len() {
        assert((x + y)[x.len() + j] == y[j]);
        match base64_step(st, y[j]) {
            Ok(next) => lemma_run_skip(x, y, j + 1, next),
            Err(_) => {},
        }
    }
}

/// Running the decoder over two texts in a row runs it over the first, then
/// over the second from where the first left off.
proof fn lemma_run_concat(x: Seq<u8>, y: Seq<u8>, i: int, st: Base64State)
    requires
        0 <= i <= x.len(),
    ensures
        base64_run(x + y, i, st) == match base64_run(x, i, st) {
            Ok(m) => base64_run(y, 0, m),
            Err(e) => Err(e),
        },
    decreases x.len() - i,
{
    if i == x.len() {
        lemma_run_skip(x, y, 0, st);
    } else {
        assert((x + y)[i] == x[i]);
        match base64_step(st, x[i]) {
            Ok(next) => lemma_run_concat(x, y, i + 1, next),
            Err(_) => {},
        }
    }
}

/// The bits of three bytes, split into four sextets, give the bytes back.
proof fn lemma_base64_bits(a: u8, b: u8, c: u8)
    ensures
        ((((a >> 2) as u32) << 6u32 | ((((a & 3) << 4) | (b >> 4)) as u8) as u32) >> 4u8) as u8 == a,
        ((((((a >> 2) as u32) << 6u32 | ((((a & 3) << 4) | (b >> 4)) as u8) as u32) & ((1u32 << 4u8) - 1) as u32)
            << 6u32 | ((((b & 15) << 2) | (c >> 6)) as u8) as u32) >> 2u8) as u8 == b,
{
    assert(((((a >> 2) as u32) << 6u32 | ((((a & 3) << 4) | (b >> 4)) as u8) as u32) >> 4u8) as u8 == a)
        by (bit_vector);
    assert(((((((a >> 2) as u32) << 6u32 | ((((a & 3) << 4) | (b >> 4)) as u8) as u32) & ((1u32 << 4u8) - 1) as u32)
        << 6u32 | ((((b & 15) << 2) | (c >> 6)) as u8) as u32) >> 2u8) as u8 == b) by (bit_vector);
}

/// A decoder at a byte boundary with output `out`.
pub open spec fn base64_at(out: Seq<u8>) -> Base64State {
    Base64State { out, buffer: 0, bits: 0, padded: false }
}

/// A full group of four characters decodes to its three bytes.
#[verifier::rlimit(40)]
proof fn lemma_group3(a: u8, b: u8, c: u8, out: Seq<u8>)
    ensures
        base64_run(
            seq![
                base64_char(a >> 2),
                base64_char((((a & 3) << 4) | (b >> 4)) as u8),
                base64_char((((b & 15) << 2) | (c >> 6)) as u8),
                base64_char(c & 63),
            ],
            0,
            base64_at(out),
        ) == Ok::<Base64State, ErrorKind>(base64_at(out.push(a).push(b).push(c))),
{
    let v1 = a >> 2;
    let v2 = (((a & 3) << 4) | (b >> 4)) as u8;
    let v3 = (((b & 15) << 2) | (c >> 6)) as u8;
    let v4 = c & 63;
    let g = seq![base64_char(v1), base64_char(v2), base64_char(v3), base64_char(v4)];
    assert(v1 < 64 && v2 < 64 && v3 < 64 && v4 < 64) by (bit_vector)
        requires v1 == a >> 2, v2 == (((a & 3) << 4) | (b >> 4)) as u8, v3 == (((b & 15) << 2) | (c >> 6)) as u8,
            v4 == c & 63;
    lemma_base64_char(v1);
    lemma_base64_char(v2);
    lemma_base64_char(v3);
    lemma_base64_char(v4);
    let buf1 = (0u32 << 6u32) | (v1 as u32);
    let buf2 = (buf1 << 6u32) | (v2 as u32);
    let rem2 = buf2 & ((1u32 << 4u8) - 1) as u32;
    let buf3 = (rem2 << 6u32) | (v3 as u32);
    let rem3 = buf3 & ((1u32 << 2u8) - 1) as u32;
    let buf4 = (rem3 << 6u32) | (v4 as u32);
    assert((buf2 >> 4u8) as u8 == a && (buf3 >> 2u8) as u8 == b && (buf4 >> 0u8) as u8 == c && (buf4 & ((1u32
        << 0u8) - 1) as u32) == 0) by (bit_vector)
        requires v1 == a >> 2, v2 == (((a & 3) << 4) | (b >> 4)) as u8, v3 == (((b & 15) << 2) | (c >> 6)) as u8,
            v4 == c & 63, buf1 == (0u32 << 6u32) | (v1 as u32), buf2 == (buf1 << 6u32) | (v2 as u32),
            rem2 == buf2 & ((1u32 << 4u8) - 1) as u32, buf3 == (rem2 << 6u32) | (v3 as u32),
            rem3 == buf3 & ((1u32 << 2u8) - 1) as u32, buf4 == (rem3 << 6u32) | (v4 as u32);
    let st1 = Base64State { out, buffer: buf1, bits: 6, padded: false };
    let st2 = Base64State { out: out.push(a), buffer: rem2, bits: 4, padded: false };
    let st3 = Base64State { out: out.push(a).push(b), buffer: rem3, bits: 2, padded: false };
    let st4 = base64_at(out.push(a).push(b).push(c));
    assert(base64_step(base64_at(out), g[0]) == Ok::<Base64State, ErrorKind>(st1));
    assert(base64_step(st1, g[1]) == Ok::<Base64State, ErrorKind>(st2));
    assert(base64_step(st2, g[2]) == Ok::<Base64State, ErrorKind>(st3));
    assert(base64_step(st3, g[3]) == Ok::<Base64State, ErrorKind>(st4));
    assert(base64_run(g, 4, st4) == Ok::<Base64State, ErrorKind>(st4));
    assert(base64_run(g, 3, st3) == base64_run(g, 4, st4));
    assert(base64_run(g, 2, st2) == base64_run(g, 3, st3));
    assert(base64_run(g, 1, st1) == base64_run(g, 2, st2));
    assert(base64_run(g, 0, base64_at(out)) == base64_run(g, 1, st1));
}

/// A last group of one byte decodes to it.
#[verifier::rlimit(40)]
proof fn lemma_group1(a: u8, out: Seq<u8>)
    ensures
        base64_run(
            seq![base64_char(a >> 2), base64_char(((a & 3) << 4) as u8), 0x3du8, 0x3du8],
            0,
            base64_at(out),
        ) matches Ok(st) && st.out == out.push(a),
{
    let v1 = a >> 2;
    let v2 = ((a & 3) << 4) as u8;
    let g = seq![base64_char(v1), base64_char(v2), 0x3du8, 0x3du8];
    assert(v1 < 64 && v2 < 64) by (bit_vector)
        requires v1 == a >> 2, v2 == ((a & 3) << 4) as u8;
    lemma_base64_char(v1);
    lemma_base64_char(v2);
    let buf1 = (0u32 << 6u32) | (v1 as u32);
    let buf2 = (buf1 << 6u32) | (v2 as u32);
    let rem2 = buf2 & ((1u32 << 4u8) - 1) as u32;
    assert((buf2 >> 4u8) as u8 == a) by (bit_vector)
        requires v1 == a >> 2, v2 == ((a & 3) << 4) as u8, buf1 == (0u32 << 6u32) | (v1 as u32),
            buf2 == (buf1 << 6u32) | (v2 as u32);
    let st1 = Base64State { out, buffer: buf1, bits: 6, padded: false };
    let st2 = Base64State { out: out.push(a), buffer: rem2, bits: 4, padded: false };
    let st3 = Base64State { padded: true, ..st2 };
    assert(base64_step(base64_at(out), g[0]) == Ok::<Base64State, ErrorKind>(st1));
    assert(base64_step(st1, g[1]) == Ok::<Base64State, ErrorKind>(st2));
    assert(base64_step(st2, g[2]) == Ok::<Base64State, ErrorKind>(st3));
    assert(base64_step(st3, g[3]) == Ok::<Base64State, ErrorKind>(st3));
    assert(base64_run(g, 4, st3) == Ok::<Base64State, ErrorKind>(st3));
    assert(base64_run(g, 3, st3) == base64_run(g, 4, st3));
    assert(base64_run(g, 2, st2) == base64_run(g, 3, st3));
    assert(base64_run(g, 1, st1) == base64_run(g, 2, st2));
    assert(base64_run(g, 0, base64_at(out)) == base64_run(g, 1, st1));
}

/// A last group of two bytes decodes to them.
#[verifier::rlimit(40)]
proof fn lemma_group2(a: u8, b: u8, out: Seq<u8>)
    ensures
        base64_run(
            seq![
                base64_char(a >> 2),
                base64_char((((a & 3) << 4) | (b >> 4)) as u8),
                base64_char(((b & 15) << 2) as u8),
                0x3du8,
            ],
            0,
            base64_at(out),
        ) matches Ok(st) && st.out == out.push(a).push(b),
{
    let v1 = a >> 2;
    let v2 = (((a & 3) << 4) | (b >> 4)) as u8;
    let v3 = ((b & 15) << 2) as u8;
    let g = seq![base64_char(v1), base64_char(v2), base64_char(v3), 0x3du8];
    assert(v1 < 64 && v2 < 64 && v3 < 64) by (bit_vector)
        requires v1 == a >> 2, v2 == (((a & 3) << 4) | (b >> 4)) as u8, v3 == ((b & 15) << 2) as u8;
    lemma_base64_char(v1);
    lemma_base64_char(v2);
    lemma_base64_char(v3);
    let buf1 = (0u32 << 6u32) | (v1 as u32);
    let buf2 = (buf1 << 6u32) | (v2 as u32);
    let rem2 = buf2 & ((1u32 << 4u8) - 1) as u32;
    let buf3 = (rem2 << 6u32) | (v3 as u32);
    let rem3 = buf3 & ((1u32 << 2u8) - 1) as u32;
    assert((buf2 >> 4u8) as u8 == a && (buf3 >> 2u8) as u8 == b) by (bit_vector)
        requires v1 == a >> 2, v2 == (((a & 3) << 4) | (b >> 4)) as u8, v3 == ((b & 15) << 2) as u8,
            buf1 == (0u32 << 6u32) | (v1 as u32), buf2 == (buf1 << 6u32) | (v2 as u32),
            rem2 == buf2 & ((1u32 << 4u8) - 1) as u32, buf3 == (rem2 << 6u32) | (v3 as u32);
    let st1 = Base64State { out, buffer: buf1, bits: 6, padded: false };
    let st2 = Base64State { out: out.push(a), buffer: rem2, bits: 4, padded: false };
    let st3 = Base64State { out: out.push(a).push(b), buffer: rem3, bits: 2, padded: false };
    let st4 = Base64State { padded: true, ..st3 };
    assert(base64_step(base64_at(out), g[0]) == Ok::<Base64State, ErrorKind>(st1));
    assert(base64_step(st1, g[1]) == Ok::<Base64State, ErrorKind>(st2));
    assert(base64_step(st2, g[2]) == Ok::<Base64State, ErrorKind>(st3));
    assert(base64_step(st3, g[3]) == Ok::<Base64State, ErrorKind>(st4));
    assert(base64_run(g, 4, st4) == Ok::<Base64State, ErrorKind>(st4));
    assert(base64_run(g, 3, st3) == base64_run(g, 4, st4));
    assert(base64_run(g, 2, st2) == base64_run(g, 3, st3));
    assert(base64_run(g, 1, st1) == base64_run(g, 2, st2));
    assert(base64_run(g, 0, base64_at(out)) == base64_run(g, 1, st1));
}

/// Decoding the standard base64 encoding of any bytes gives them back.
pub proof fn lemma_base64_decode_encode(data: Seq<u8>)
    ensures
        spec_base64_decode(base64_encode(data)) == Ok::<Seq<u8>, ErrorKind>(data),
{
    lemma_decode_encode_from(data, Seq::empty());
    assert(Seq::<u8>::empty() + data =~= data);
}

/// Decoding the encoding of `data` after output `out` adds `data` to it.
proof fn lemma_decode_encode_from(data: Seq<u8>, out: Seq<u8>)
    ensures
        base64_run(base64_encode(data), 0, base64_at(out)) matches Ok(st) && st.out == out + data,
    decreases data.len(),
{
    if data.len() == 0 {
        assert(out + data =~= out);
    } else if data.len() == 1 {
        lemma_group1(data[0], out);
        assert(out.push(data[0]) =~= out + data);
    } else if data.len() == 2 {
        lemma_group2(data[0], data[1], out);
        assert(out.push(data[0]).push(data[1]) =~= out + data);
    } else {
        let a = data[0];
        let b = data[1];
        let c = data[2];
        let rest = data.skip(3);
        let group = seq![
            base64_char(a >> 2),
            base64_char((((a & 3) << 4) | (b >> 4)) as u8),
            base64_char((((b & 15) << 2) | (c >> 6)) as u8),
            base64_char(c & 63),
        ];
        assert(base64_encode(data) == group + base64_encode(rest));
        lemma_group3(a, b, c, out);
        lemma_run_concat(group, base64_encode(rest), 0, base64_at(out));
        lemma_decode_encode_from(rest, out.push(a).push(b).push(c));
        assert(out.push(a).push(b).push(c) + rest =~= out + data);
    }
}

/// `s` without its ASCII white space.
pub open spec fn strip_whitespace(s: Seq<u8>) -> Seq<u8>
    decreases s.len(),
{
    if s.len() == 0 {
        Seq::empty()
    } else if is_ascii_whitespace(s[0]) {
        strip_whitespace(s.drop_first())
    } else {
        seq![s[0]] + strip_whitespace(s.drop_first())
    }
}

/// The decoder reads text as it reads the text without its white space.
proof fn lemma_run_strip(s: Seq<u8>, st: Base64State)
    ensures
        base64_run(s, 0, st) == base64_run(strip_whitespace(s), 0, st),
    decreases s.len(),
{
    if s.len() > 0 {
        let x = seq![s[0]];
        let y = s.drop_first();
        assert(s =~= x + y);
        if is_ascii_whitespace(s[0]) {
            lemma_run_skip(x, y, 0, st);
            lemma_run_strip(y, st);
        } else {
            let t = strip_whitespace(s);
            assert(t == x + strip_whitespace(y));
            assert(t[0] == s[0]);
            match base64_step(st, s[0]) {
                Ok(n) => {
                    lemma_run_skip(x, y, 0, n);
                    lemma_run_skip(x, strip_whitespace(y), 0, n);
                    lemma_run_strip(y, n);
                },
                Err(_) => {},
            }
        }
    }
}

/// Decoding the standard base64 encoding of any bytes, with ASCII white
/// space inserted anywhere, gives the bytes back.
pub proof fn lemma_base64_decode_spaced(data: Seq<u8>, text: Seq<u8>)
    requires
        strip_whitespace(text) == base64_encode(data),
    ensures
        spec_base64_decode(text) == Ok::<Seq<u8>, ErrorKind>(data),
{
    lemma_run_strip(text, base64_at(Seq::empty()));
    lemma_base64_decode_encode(data);
}

/// Decodes base64 text.
pub fn base64_decode(value: &str) -> (r: Result<Vec<u8>, ModelError>)
    ensures
        match spec_base64_decode(value.spec_bytes()) {
            Ok(out) => r matches Ok(v) && v@ == out,
            Err(k) => r matches Err(e) && e == onnx_error(k),
        },
{
    let bytes = value.as_bytes();
    let mut output: Vec<u8> = Vec::new();
    let mut buffer: u32 = 0;
    let mut bits: u8 = 0;
    let mut padded = false;
    let mut i: usize = 0;
    proof {
        assert(0u32 < (1u32 << 0u8)) by (bit_vector);
    }
    while i < bytes.len()
        invariant
            bytes@ == value.spec_bytes(),
            i <= bytes@.len(),
            bits < 8,
            buffer < (1u32 << bits),
            base64_run(bytes@, i as int, Base64State { out: output@, buffer, bits, padded })
                == base64_run(
                bytes@,
                0,
                Base64State { out: Seq::empty(), buffer: 0, bits: 0, padded: false },
            ),
        decreases bytes@.len() - i,
    {
        let byte = bytes[i];
        i += 1;
        if ascii_whitespace(byte) {
            continue;
        }
        if byte == 0x3d {
            padded = true;
            continue;
        }
        if padded {
            return Err(invalid(Format::Onnx, ErrorKind::InvalidValue));
        }
        let value: u32 = if 0x41 <= byte && byte <= 0x5a {
            (byte - 0x41) as u32
        } else if 0x61 <= byte && byte <= 0x7a {
            (byte - 0x61 + 26) as u32
        } else if 0x30 <= byte && byte <= 0x39 {
            (byte - 0x30 + 52) as u32
        } else if byte == 0x2b {
            62
        } else if byte == 0x2f {
            63
        } else {
            return Err(invalid(Format::Onnx, ErrorKind::InvalidValue));
        };
        let ghost old_buffer = buffer;
        let ghost old_bits = bits;
        proof {
            assert(value < 64);
            assert(old_buffer < (1u32 << old_bits) && old_bits < 8 && value < 64 ==> (old_buffer
                << 6u32) | value < (1u32 << ((old_bits + 6) as u32))) by (bit_vector);
        }
        buffer = (buffer << 6) | value;
        bits = bits + 6;
        if bits >= 8 {
            bits = bits - 8;
            output.push((buffer >> bits) as u8);
            proof {
                assert(buffer < (1u32 << ((bits + 8) as u32)) && bits < 8 ==> (buffer & (((1u32
                    << bits) - 1) as u32)) < (1u32 << bits)) by (bit_vector);
            }
            buffer = buffer & ((1u32 << bits) - 1);
        }
    }
    Ok(output)
}

} // verus!
