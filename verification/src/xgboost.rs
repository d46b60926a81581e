//! XGBoost models: the UBJSON reader, and the checks that tell a model apart.
use vstd::prelude::*;
use vstd::string::StringExecFns;
use crate::graph::{Confidence, FormatMetadata};
use crate::json::{JsonValue, JsonView, json_get, json_value_of, parse_json};
use crate::error::{ErrorKind, Format, ModelError, invalid, model_error};
use crate::onnx::slice_range;
use vstd::string::StringSliceAdditionalSpecFns;
use crate::text::{contains_bytes, spec_contains_bytes, spec_utf8, str_eq, utf8_string};

pub mod lower;

verus! {

/// The XGBoost model format.
pub struct XGBoostFormat;

impl XGBoostFormat {
    /// The format's name and extensions.
    pub fn metadata(&self) -> (r: FormatMetadata)
        ensures
            r.name@ == "XGBoost JSON"@,
            r.extensions@.map_values(|e: String| e@) == seq!["json"@, "ubj"@, "model"@, "pkl"@],
    {
        let mut extensions: Vec<String> = Vec::new();
        extensions.push(String::from_str("json"));
        extensions.push(String::from_str("ubj"));
        extensions.push(String::from_str("model"));
        extensions.push(String::from_str("pkl"));
        let r = FormatMetadata { name: String::from_str("XGBoost JSON"), extensions };
        proof {
            assert(r.extensions@.map_values(|e: String| e@) =~= seq!["json"@, "ubj"@, "model"@, "pkl"@]);
        }
        r
    }
}

/// The error that the UBJSON reader raises for `kind`.
pub open spec fn ubj_error(kind: ErrorKind) -> ModelError {
    model_error(Format::XGBoostUbjson, kind)
}

// ---------------------------------------------------------------------------
// Values

/// A UBJSON value. A float is kept as its bits; a float that is not finite
/// reads as null.
pub enum UbjsonValue {
    Null,
    Bool(bool),
    Int(i64),
    Float32(u32),
    Float64(u64),
    String(String),
    Array(Vec<UbjsonValue>),
    Object(Vec<(String, UbjsonValue)>),
}

pub enum UbjsonView {
    Null,
    Bool(bool),
    Int(i64),
    Float32(u32),
    Float64(u64),
    String(Seq<char>),
    Array(Seq<UbjsonView>),
    Object(Seq<(Seq<char>, UbjsonView)>),
}

/// The view of a value.
pub open spec fn ubjson_view(v: UbjsonValue) -> UbjsonView
    decreases v,
{
    match v {
        UbjsonValue::Null => UbjsonView::Null,
        UbjsonValue::Bool(b) => UbjsonView::Bool(b),
        UbjsonValue::Int(i) => UbjsonView::Int(i),
        UbjsonValue::Float32(b) => UbjsonView::Float32(b),
        UbjsonValue::Float64(b) => UbjsonView::Float64(b),
        UbjsonValue::String(s) => UbjsonView::String(s@),
        UbjsonValue::Array(items) => {
            proof {
                assert(decreases_to!(items => items@));
            }
            UbjsonView::Array(values_of(items@))
        },
        UbjsonValue::Object(members) => {
            proof {
                assert(decreases_to!(members => members@));
            }
            UbjsonView::Object(members_of(members@))
        },
    }
}

/// The views of values.
pub open spec fn values_of(v: Seq<UbjsonValue>) -> Seq<UbjsonView>
    decreases v,
{
    Seq::new(
        v.len(),
        |i: int|
            if 0 <= i < v.len() {
                proof {
                    assert(decreases_to!(v => v[i]));
                }
                ubjson_view(v[i])
            } else {
                arbitrary()
            },
    )
}

/// The views of an object's members.
pub open spec fn members_of(v: Seq<(String, UbjsonValue)>) -> Seq<(Seq<char>, UbjsonView)>
    decreases v,
{
    Seq::new(
        v.len(),
        |i: int|
            if 0 <= i < v.len() {
                proof {
                    assert(decreases_to!(v => v[i]));
                    assert(decreases_to!(v[i] => v[i].1));
                }
                (v[i].0@, ubjson_view(v[i].1))
            } else {
                arbitrary()
            },
    )
}

impl View for UbjsonValue {
    type V = UbjsonView;

    open spec fn view(&self) -> UbjsonView {
        ubjson_view(*self)
    }
}

/// Whether some member of `s` is named `k`.
pub open spec fn has_member(s: Seq<(Seq<char>, UbjsonView)>, k: Seq<char>) -> bool {
    exists|i: int| 0 <= i < s.len() && s[i].0 == k
}

/// The first index of a member named `k`.
pub open spec fn first_member(s: Seq<(Seq<char>, UbjsonView)>, k: Seq<char>, i: int) -> Option<int>
    decreases s.len() - i,
{
    if i < 0 || i >= s.len() {
        None
    } else if s[i].0 == k {
        Some(i)
    } else {
        first_member(s, k, i + 1)
    }
}

/// `s` with the member `k` set to `v`: a member of that name keeps its place
/// and takes the value, else the member is added at the end.
pub open spec fn set_member(s: Seq<(Seq<char>, UbjsonView)>, k: Seq<char>, v: UbjsonView) -> Seq<
    (Seq<char>, UbjsonView),
> {
    match first_member(s, k, 0) {
        Some(i) => s.update(i, (k, v)),
        None => s.push((k, v)),
    }
}

/// No two members share a name.
pub open spec fn distinct_names(s: Seq<(Seq<char>, UbjsonView)>) -> bool {
    forall|i: int, j: int| 0 <= i < j < s.len() ==> s[i].0 != s[j].0
}

proof fn lemma_first_member_bounds(s: Seq<(Seq<char>, UbjsonView)>, k: Seq<char>, i: int)
    requires
        0 <= i,
    ensures
        first_member(s, k, i) matches Some(j) ==> i <= j < s.len() && s[j].0 == k,
        first_member(s, k, i) is None ==> forall|j: int| i <= j < s.len() ==> s[j].0 != k,
    decreases s.len() - i,
{
    if i < s.len() && s[i].0 != k {
        lemma_first_member_bounds(s, k, i + 1);
    }
}

/// Setting a member keeps the member names distinct; afterwards the member
/// of that name holds the value, every other member is kept, and a new member
/// is added only when the name was not there.
pub proof fn lemma_set_member(s: Seq<(Seq<char>, UbjsonView)>, k: Seq<char>, v: UbjsonView)
    requires
        distinct_names(s),
    ensures
        distinct_names(set_member(s, k, v)),
        exists|i: int| 0 <= i < set_member(s, k, v).len() && set_member(s, k, v)[i] == (k, v),
        forall|i: int| 0 <= i < s.len() && s[i].0 != k ==> set_member(s, k, v)[i] == s[i],
        set_member(s, k, v).len() == if has_member(s, k) {
            s.len()
        } else {
            s.len() + 1
        },
{
    lemma_first_member_bounds(s, k, 0);
    let t = set_member(s, k, v);
    match first_member(s, k, 0) {
        Some(i) => {
            assert(t[i] == (k, v));
            assert forall|a: int, b: int| 0 <= a < b < t.len() implies t[a].0 != t[b].0 by {
                assert(s[a].0 != s[b].0);
            }
        },
        None => {
            assert(t[s.len() as int] == (k, v));
            assert forall|a: int, b: int| 0 <= a < b < t.len() implies t[a].0 != t[b].0 by {
                if b < s.len() {
                    assert(s[a].0 != s[b].0);
                }
            }
            if has_member(s, k) {
                let j = choose|j: int| 0 <= j < s.len() && s[j].0 == k;
                assert(s[j].0 != k);
            }
        },
    }
}

// ---------------------------------------------------------------------------
// What the reader reads

/// The byte at `pos`.
pub open spec fn ubj_byte(data: Seq<u8>, pos: int) -> Result<u8, ErrorKind> {
    if 0 <= pos < data.len() {
        Ok(data[pos])
    } else {
        Err(ErrorKind::Truncated)
    }
}

/// The end of `len` bytes at `pos`.
pub open spec fn ubj_take(data: Seq<u8>, pos: int, len: int) -> Result<int, ErrorKind> {
    if pos + len > usize::MAX {
        Err(ErrorKind::Overflow)
    } else if pos + len > data.len() {
        Err(ErrorKind::Truncated)
    } else {
        Ok(pos + len)
    }
}

/// The unsigned big-endian number that `bytes` hold.
pub open spec fn be_unsigned(bytes: Seq<u8>) -> nat
    decreases bytes.len(),
{
    if bytes.len() == 0 {
        0
    } else {
        (be_unsigned(bytes.drop_last()) * 256 + bytes.last()) as nat
    }
}

/// The integer of marker `marker` at `pos`: `U` an unsigned byte, `i` a
/// signed byte, `I`, `l` and `L` signed big-endian numbers of 2, 4 and 8
/// bytes.
pub open spec fn spec_integer(data: Seq<u8>, pos: int, marker: u8) -> Result<(i64, int), ErrorKind> {
    let width: int = if marker == 0x55 || marker == 0x69 {
        1
    } else if marker == 0x49 {
        2
    } else if marker == 0x6c {
        4
    } else {
        8
    };
    if !(marker == 0x55 || marker == 0x69 || marker == 0x49 || marker == 0x6c || marker == 0x4c) {
        Err(ErrorKind::InvalidValue)
    } else {
        match ubj_take(data, pos, width) {
            Err(e) => Err(e),
            Ok(end) => {
                let u = be_unsigned(data.subrange(pos, end));
                Ok(
                    (
                        if marker == 0x55 {
                            u as i64
                        } else if marker == 0x69 {
                            (u as u8) as i8 as i64
                        } else if marker == 0x49 {
                            (u as u16) as i16 as i64
                        } else if marker == 0x6c {
                            (u as u32) as i32 as i64
                        } else {
                            (u as u64) as i64
                        },
                        end,
                    ),
                )
            },
        }
    }
}

/// A length: an integer of its own marker, which must not be negative.
pub open spec fn spec_length(data: Seq<u8>, pos: int) -> Result<(usize, int), ErrorKind> {
    match ubj_byte(data, pos) {
        Err(e) => Err(e),
        Ok(marker) => match spec_integer(data, pos + 1, marker) {
            Err(e) => Err(e),
            Ok((v, end)) => if v < 0 || v > usize::MAX {
                Err(ErrorKind::InvalidValue)
            } else {
                Ok((v as usize, end))
            },
        },
    }
}

/// A string: its length, then that many bytes of UTF-8.
pub open spec fn spec_string(data: Seq<u8>, pos: int) -> Result<(Seq<char>, int), ErrorKind> {
    match spec_length(data, pos) {
        Err(e) => Err(e),
        Ok((len, p)) => match ubj_take(data, p, len as int) {
            Err(e) => Err(e),
            Ok(end) => match spec_utf8(data.subrange(p, end)) {
                Some(s) => Ok((s, end)),
                None => Err(ErrorKind::InvalidUtf8),
            },
        },
    }
}

/// Whether the bits of an `f32` give a finite number.
pub open spec fn f32_finite(bits: u32) -> bool {
    (bits >> 23u32) & 0xff != 0xff
}

/// Whether the bits of an `f64` give a finite number.
pub open spec fn f64_finite(bits: u64) -> bool {
    (bits >> 52u64) & 0x7ff != 0x7ff
}

/// The value at `pos`: a marker, then what it introduces.
pub open spec fn spec_value(data: Seq<u8>, pos: int) -> Result<(UbjsonView, int), ErrorKind>
    decreases data.len() - pos, 0int,
{
    match ubj_byte(data, pos) {
        Err(e) => Err(e),
        Ok(marker) => spec_value_with(data, pos + 1, marker),
    }
}

/// The value that `marker` introduces, from `pos` on: an object, an array, a
/// string, null, a boolean, an integer or a float.
pub open spec fn spec_value_with(data: Seq<u8>, pos: int, marker: u8) -> Result<
    (UbjsonView, int),
    ErrorKind,
>
    decreases data.len() - pos, 4int,
{
    if marker == 0x7b {
        spec_object_from(data, pos, Seq::empty())
    } else if marker == 0x5b {
        spec_array(data, pos)
    } else if marker == 0x53 {
        match spec_string(data, pos) {
            Err(e) => Err(e),
            Ok((s, end)) => Ok((UbjsonView::String(s), end)),
        }
    } else if marker == 0x5a {
        Ok((UbjsonView::Null, pos))
    } else if marker == 0x54 || marker == 0x46 {
        Ok((UbjsonView::Bool(marker == 0x54), pos))
    } else if marker == 0x55 || marker == 0x69 || marker == 0x49 || marker == 0x6c || marker
        == 0x4c {
        match spec_integer(data, pos, marker) {
            Err(e) => Err(e),
            Ok((v, end)) => Ok((UbjsonView::Int(v), end)),
        }
    } else if marker == 0x64 || marker == 0x44 {
        let width: int = if marker == 0x64 {
            4
        } else {
            8
        };
        match ubj_take(data, pos, width) {
            Err(e) => Err(e),
            Ok(end) => {
                let u = be_unsigned(data.subrange(pos, end));
                Ok(
                    (
                        if marker == 0x64 {
                            if f32_finite(u as u32) {
                                UbjsonView::Float32(u as u32)
                            } else {
                                UbjsonView::Null
                            }
                        } else {
                            if f64_finite(u as u64) {
                                UbjsonView::Float64(u as u64)
                            } else {
                                UbjsonView::Null
                            }
                        },
                        end,
                    ),
                )
            },
        }
    } else {
        Err(ErrorKind::UnsupportedOpcode)
    }
}

/// The members of an object from `pos` on, after `members`, up to its `}`.
pub open spec fn spec_object_from(
    data: Seq<u8>,
    pos: int,
    members: Seq<(Seq<char>, UbjsonView)>,
) -> Result<(UbjsonView, int), ErrorKind>
    decreases data.len() - pos, 3int,
{
    match ubj_byte(data, pos) {
        Err(e) => Err(e),
        Ok(b) => if b == 0x7d {
            Ok((UbjsonView::Object(members), pos + 1))
        } else {
            match spec_string(data, pos) {
                Err(e) => Err(e),
                Ok((key, p1)) => if pos < p1 <= data.len() {
                    match spec_value(data, p1) {
                        Err(e) => Err(e),
                        Ok((v, p2)) => if p1 < p2 <= data.len() {
                            spec_object_from(data, p2, set_member(members, key, v))
                        } else {
                            Err(ErrorKind::InvalidValue)
                        },
                    }
                } else {
                    Err(ErrorKind::InvalidValue)
                },
            }
        },
    }
}

/// An array from `pos` on: an optional `$` and the marker of all its values,
/// an optional `#` and their count, then its values; without a count, the
/// values run up to a `]`.
pub open spec fn spec_array(data: Seq<u8>, pos: int) -> Result<(UbjsonView, int), ErrorKind>
    decreases data.len() - pos, 3int,
{
    let typed = match ubj_byte(data, pos) {
        Err(e) => Err(e),
        Ok(b) => if b == 0x24 {
            match ubj_byte(data, pos + 1) {
                Err(e) => Err(e),
                Ok(m) => Ok((Some(m), pos + 2)),
            }
        } else {
            Ok((None, pos))
        },
    };
    match typed {
        Err(e) => Err(e),
        Ok((marker, p1)) => match ubj_byte(data, p1) {
            Err(e) => Err(e),
            Ok(b) => if b == 0x23 {
                match spec_length(data, p1 + 1) {
                    Err(e) => Err(e),
                    Ok((count, p2)) => if pos < p2 <= data.len() {
                        spec_array_counted(data, p2, marker, count as nat, Seq::empty())
                    } else {
                        Err(ErrorKind::InvalidValue)
                    },
                }
            } else {
                match marker {
                    None => spec_array_until(data, p1, Seq::empty()),
                    Some(m) => if pos < p1 <= data.len() {
                        spec_array_until_typed(data, p1, m, Seq::empty())
                    } else {
                        Err(ErrorKind::InvalidValue)
                    },
                }
            }
        },
    }
}

/// `count` more values of an array from `pos` on, after `items`.
pub open spec fn spec_array_counted(
    data: Seq<u8>,
    pos: int,
    marker: Option<u8>,
    count: nat,
    items: Seq<UbjsonView>,
) -> Result<(UbjsonView, int), ErrorKind>
    decreases data.len() - pos, 6 + count,
{
    if count == 0 {
        Ok((UbjsonView::Array(items), pos))
    } else {
        let next = match marker {
            Some(m) => spec_value_with(data, pos, m),
            None => spec_value(data, pos),
        };
        match next {
            Err(e) => Err(e),
            Ok((v, p)) => if pos <= p <= data.len() {
                spec_array_counted(data, p, marker, (count - 1) as nat, items.push(v))
            } else {
                Err(ErrorKind::InvalidValue)
            },
        }
    }
}

/// The values of an array from `pos` on, after `items`, up to its `]`.
pub open spec fn spec_array_until(data: Seq<u8>, pos: int, items: Seq<UbjsonView>) -> Result<
    (UbjsonView, int),
    ErrorKind,
>
    decreases data.len() - pos, 2int,
{
    match ubj_byte(data, pos) {
        Err(e) => Err(e),
        Ok(b) => if b == 0x5d {
            Ok((UbjsonView::Array(items), pos + 1))
        } else {
            match spec_value(data, pos) {
                Err(e) => Err(e),
                Ok((v, p)) => if pos < p <= data.len() {
                    spec_array_until(data, p, items.push(v))
                } else {
                    Err(ErrorKind::InvalidValue)
                },
            }
        },
    }
}

/// The values of marker `marker` of an array from `pos` on, after `items`,
/// up to its `]`. Values that take no byte (null and booleans) before
/// anything but `]` would repeat forever: such an array is refused.
pub open spec fn spec_array_until_typed(
    data: Seq<u8>,
    pos: int,
    marker: u8,
    items: Seq<UbjsonView>,
) -> Result<(UbjsonView, int), ErrorKind>
    decreases data.len() - pos, 5int,
{
    match ubj_byte(data, pos) {
        Err(e) => Err(e),
        Ok(b) => if b == 0x5d {
            Ok((UbjsonView::Array(items), pos + 1))
        } else {
            match spec_value_with(data, pos, marker) {
                Err(e) => Err(e),
                Ok((v, p)) => if pos < p <= data.len() {
                    spec_array_until_typed(data, p, marker, items.push(v))
                } else {
                    Err(ErrorKind::InvalidValue)
                },
            }
        },
    }
}

/// The document: the value at the start of the data.
pub open spec fn spec_parse_ubjson(data: Seq<u8>) -> Result<UbjsonView, ErrorKind> {
    match spec_value(data, 0) {
        Err(e) => Err(e),
        Ok((v, _)) => Ok(v),
    }
}

// ---------------------------------------------------------------------------
// The reader

pub proof fn lemma_values_of_push(v: Seq<UbjsonValue>, x: UbjsonValue)
    ensures
        values_of(v.push(x)) == values_of(v).push(ubjson_view(x)),
{
    assert(values_of(v.push(x)) =~= values_of(v).push(ubjson_view(x)));
}

pub proof fn lemma_members_of_push(v: Seq<(String, UbjsonValue)>, x: (String, UbjsonValue))
    ensures
        members_of(v.push(x)) == members_of(v).push((x.0@, ubjson_view(x.1))),
{
    assert(members_of(v.push(x)) =~= members_of(v).push((x.0@, ubjson_view(x.1))));
}

pub proof fn lemma_members_of_update(v: Seq<(String, UbjsonValue)>, i: int, x: (String, UbjsonValue))
    requires
        0 <= i < v.len(),
    ensures
        members_of(v.update(i, x)) == members_of(v).update(i, (x.0@, ubjson_view(x.1))),
{
    assert(members_of(v.update(i, x)) =~= members_of(v).update(i, (x.0@, ubjson_view(x.1))));
}

/// Sets the member `key` of `members` to `value`.
fn set_member_exec(members: &mut Vec<(String, UbjsonValue)>, key: String, value: UbjsonValue)
    ensures
        members_of(final(members)@) == set_member(members_of(old(members)@), key@, value@),
{
    let ghost views = members_of(members@);
    let mut i: usize = 0;
    while i < members.len()
        invariant
            views == members_of(members@),
            members@ == old(members)@,
            i <= members@.len(),
            first_member(views, key@, i as int) == first_member(views, key@, 0),
        decreases members@.len() - i,
    {
        proof {
            assert(views[i as int].0 == members@[i as int].0@);
        }
        if str_eq(members[i].0.as_str(), key.as_str()) {
            assert(first_member(views, key@, i as int) == Some(i as int));
            let ghost before = members@;
            let ghost entry = (key, value);
            members.set(i, (key, value));
            proof {
                assert(members@ == before.update(i as int, entry));
                lemma_members_of_update(before, i as int, entry);
                assert(set_member(views, key@, value@) == views.update(i as int, (key@, value@)));
            }
            return;
        }
        i = i + 1;
    }
    let ghost before = members@;
    members.push((key, value));
    proof {
        lemma_members_of_push(before, (key, value));
    }
}

/// The big-endian number of `bytes`, by bytes read so far.
fn be_number(bytes: &[u8]) -> (r: u64)
    requires
        bytes@.len() <= 8,
    ensures
        r == be_unsigned(bytes@),
{
    let mut value: u64 = 0;
    let mut i: usize = 0;
    while i < bytes.len()
        invariant
            bytes@.len() <= 8,
            i <= bytes@.len(),
            value == be_unsigned(bytes@.take(i as int)),
            be_unsigned(bytes@.take(i as int)) < pow256_nat(i as nat),
        decreases bytes@.len() - i,
    {
        proof {
            assert(bytes@.take(i + 1).drop_last() =~= bytes@.take(i as int));
            lemma_pow256_bound(i as nat);
            assert(value * 256 + bytes@[i as int] < pow256_nat((i + 1) as nat)) by (nonlinear_arith)
                requires
                    value < pow256_nat(i as nat),
                    bytes@[i as int] < 256,
                    pow256_nat((i + 1) as nat) == 256 * pow256_nat(i as nat),
            ;
        }
        value = value * 256 + bytes[i] as u64;
        i = i + 1;
    }
    proof {
        assert(bytes@.take(bytes@.len() as int) =~= bytes@);
    }
    value
}

/// `256` to the power `n`.
pub open spec fn pow256_nat(n: nat) -> nat
    decreases n,
{
    if n == 0 {
        1
    } else {
        256 * pow256_nat((n - 1) as nat)
    }
}

proof fn lemma_pow256_bound(n: nat)
    requires
        n < 8,
    ensures
        pow256_nat(n + 1) <= 0x1_0000_0000_0000_0000,
        pow256_nat(n + 1) == 256 * pow256_nat(n),
    decreases n,
{
    if n > 0 {
        lemma_pow256_bound((n - 1) as nat);
    }
    reveal_with_fuel(pow256_nat, 9);
}

/// Reads a UBJSON document.
pub struct UbjsonReader<'a> {
    data: &'a [u8],
    offset: usize,
}

/// Whether `r` is the spec result `s` with the reader at its end.
pub open spec fn read_as<T: View>(
    r: Result<T, ModelError>,
    s: Result<(T::V, int), ErrorKind>,
    offset: int,
) -> bool {
    match s {
        Ok((v, end)) => r matches Ok(x) && x@ == v && offset == end,
        Err(k) => r matches Err(e) && e == ubj_error(k),
    }
}

impl<'a> UbjsonReader<'a> {
    #[verifier::type_invariant]
    spec fn inv(self) -> bool {
        self.offset <= self.data@.len()
    }

    /// The document being read.
    pub closed spec fn data(self) -> Seq<u8> {
        self.data@
    }

    /// The position of the next byte to read.
    pub closed spec fn pos(self) -> int {
        self.offset as int
    }

    /// A reader at the start of `data`.
    pub fn new(data: &'a [u8]) -> (r: Self)
        ensures
            r.data() == data@,
            r.pos() == 0,
    {
        UbjsonReader { data, offset: 0 }
    }

    /// The next byte, without moving.
    pub fn peek(&self) -> (r: Result<u8, ModelError>)
        ensures
            match ubj_byte(self.data(), self.pos()) {
                Ok(b) => r == Ok::<u8, ModelError>(b),
                Err(k) => r == Err::<u8, ModelError>(ubj_error(k)),
            },
    {
        proof {
            use_type_invariant(&*self);
        }
        if self.offset < self.data.len() {
            Ok(self.data[self.offset])
        } else {
            Err(invalid(Format::XGBoostUbjson, ErrorKind::Truncated))
        }
    }

    /// Reads a byte.
    pub fn byte(&mut self) -> (r: Result<u8, ModelError>)
        ensures
            final(self).data() == old(self).data(),
            match ubj_byte(old(self).data(), old(self).pos()) {
                Ok(b) => r == Ok::<u8, ModelError>(b) && final(self).pos() == old(self).pos() + 1,
                Err(k) => r == Err::<u8, ModelError>(ubj_error(k)),
            },
    {
        proof {
            use_type_invariant(&*self);
        }
        if self.offset >= self.data.len() {
            return Err(invalid(Format::XGBoostUbjson, ErrorKind::Truncated));
        }
        let value = self.data[self.offset];
        self.offset = self.offset + 1;
        Ok(value)
    }

    /// Reads `len` bytes.
    pub fn take(&mut self, len: usize) -> (r: Result<&'a [u8], ModelError>)
        ensures
            final(self).data() == old(self).data(),
            match ubj_take(old(self).data(), old(self).pos(), len as int) {
                Ok(end) => r matches Ok(b) && b@ == old(self).data().subrange(
                    old(self).pos(),
                    end,
                ) && final(self).pos() == end,
                Err(k) => r matches Err(e) && e == ubj_error(k),
            },
    {
        proof {
            use_type_invariant(&*self);
        }
        let end = match self.offset.checked_add(len) {
            Some(end) => end,
            None => return Err(invalid(Format::XGBoostUbjson, ErrorKind::Overflow)),
        };
        if end > self.data.len() {
            return Err(invalid(Format::XGBoostUbjson, ErrorKind::Truncated));
        }
        let bytes = slice_range(self.data, self.offset, end);
        self.offset = end;
        Ok(bytes)
    }

    /// Reads an integer of marker `marker`.
    pub fn integer_with_marker(&mut self, marker: u8) -> (r: Result<i64, ModelError>)
        ensures
            final(self).data() == old(self).data(),
            match spec_integer(old(self).data(), old(self).pos(), marker) {
                Ok((v, end)) => r == Ok::<i64, ModelError>(v) && final(self).pos() == end,
                Err(k) => r == Err::<i64, ModelError>(ubj_error(k)),
            },
    {
        proof {
            use_type_invariant(&*self);
        }
        let width: usize = if marker == 0x55 || marker == 0x69 {
            1
        } else if marker == 0x49 {
            2
        } else if marker == 0x6c {
            4
        } else if marker == 0x4c {
            8
        } else {
            return Err(invalid(Format::XGBoostUbjson, ErrorKind::InvalidValue));
        };
        let bytes = self.take(width)?;
        let u = be_number(bytes);
        Ok(
            if marker == 0x55 {
                u as i64
            } else if marker == 0x69 {
                #[verifier::truncate] ((u as u8) as i8) as i64
            } else if marker == 0x49 {
                #[verifier::truncate] ((u as u16) as i16) as i64
            } else if marker == 0x6c {
                #[verifier::truncate] ((u as u32) as i32) as i64
            } else {
                #[verifier::truncate] (u as i64)
            },
        )
    }

    /// Reads a float of marker `marker`: `d` four bytes, `D` eight, big-endian.
    pub fn float_with_marker(&mut self, marker: u8) -> (r: Result<UbjsonValue, ModelError>)
        requires
            marker == 0x64 || marker == 0x44,
        ensures
            final(self).data() == old(self).data(),
            read_as(r, spec_value_with(old(self).data(), old(self).pos(), marker), final(self).pos()),
    {
        proof {
            use_type_invariant(&*self);
        }
        let width: usize = if marker == 0x64 {
            4
        } else {
            8
        };
        let bytes = self.take(width)?;
        let u = be_number(bytes);
        if marker == 0x64 {
            let bits = #[verifier::truncate] (u as u32);
            if (bits >> 23) & 0xff != 0xff {
                Ok(UbjsonValue::Float32(bits))
            } else {
                Ok(UbjsonValue::Null)
            }
        } else {
            if (u >> 52) & 0x7ff != 0x7ff {
                Ok(UbjsonValue::Float64(u))
            } else {
                Ok(UbjsonValue::Null)
            }
        }
    }

    /// Reads a length.
    pub fn length(&mut self) -> (r: Result<usize, ModelError>)
        ensures
            final(self).data() == old(self).data(),
            match spec_length(old(self).data(), old(self).pos()) {
                Ok((v, end)) => r == Ok::<usize, ModelError>(v) && final(self).pos() == end,
                Err(k) => r == Err::<usize, ModelError>(ubj_error(k)),
            },
    {
        proof {
            use_type_invariant(&*self);
        }
        let marker = self.byte()?;
        let value = self.integer_with_marker(marker)?;
        if value < 0 || value as u64 > usize::MAX as u64 {
            return Err(invalid(Format::XGBoostUbjson, ErrorKind::InvalidValue));
        }
        Ok(value as usize)
    }

    /// Reads a string.
    pub fn string(&mut self) -> (r: Result<String, ModelError>)
        ensures
            final(self).data() == old(self).data(),
            match spec_string(old(self).data(), old(self).pos()) {
                Ok((s, end)) => r matches Ok(x) && x@ == s && final(self).pos() == end,
                Err(k) => r matches Err(e) && e == ubj_error(k),
            },
    {
        proof {
            use_type_invariant(&*self);
        }
        let len = self.length()?;
        let bytes = self.take(len)?;
        match utf8_string(bytes) {
            Some(s) => Ok(s),
            None => Err(invalid(Format::XGBoostUbjson, ErrorKind::InvalidUtf8)),
        }
    }

    /// Reads the key of an object's member.
    pub fn key(&mut self) -> (r: Result<String, ModelError>)
        ensures
            final(self).data() == old(self).data(),
            match spec_string(old(self).data(), old(self).pos()) {
                Ok((s, end)) => r matches Ok(x) && x@ == s && final(self).pos() == end,
                Err(k) => r matches Err(e) && e == ubj_error(k),
            },
    {
        proof {
            use_type_invariant(&*self);
        }
        self.string()
    }

    /// Reads a value.
    pub fn value(&mut self) -> (r: Result<UbjsonValue, ModelError>)
        ensures
            final(self).data() == old(self).data(),
            read_as(r, spec_value(old(self).data(), old(self).pos()), final(self).pos()),
        decreases old(self).data().len() - old(self).pos(), 0int,
    {
        proof {
            use_type_invariant(&*self);
        }
        let marker = self.byte()?;
        self.value_with_marker(marker)
    }

    /// Reads the value that `marker` introduces.
    pub fn value_with_marker(&mut self, marker: u8) -> (r: Result<UbjsonValue, ModelError>)
        ensures
            final(self).data() == old(self).data(),
            read_as(
                r,
                spec_value_with(old(self).data(), old(self).pos(), marker),
                final(self).pos(),
            ),
        decreases old(self).data().len() - old(self).pos(), 4int,
    {
        proof {
            use_type_invariant(&*self);
        }
        if marker == 0x7b {
            self.object()
        } else if marker == 0x5b {
            self.array()
        } else if marker == 0x53 {
            Ok(UbjsonValue::String(self.string()?))
        } else if marker == 0x5a {
            Ok(UbjsonValue::Null)
        } else if marker == 0x54 {
            Ok(UbjsonValue::Bool(true))
        } else if marker == 0x46 {
            Ok(UbjsonValue::Bool(false))
        } else if marker == 0x55 || marker == 0x69 || marker == 0x49 || marker == 0x6c || marker
            == 0x4c {
            Ok(UbjsonValue::Int(self.integer_with_marker(marker)?))
        } else if marker == 0x64 || marker == 0x44 {
            self.float_with_marker(marker)
        } else {
            Err(invalid(Format::XGBoostUbjson, ErrorKind::UnsupportedOpcode))
        }
    }

    /// Reads an object's members up to its `}`.
    pub fn object(&mut self) -> (r: Result<UbjsonValue, ModelError>)
        ensures
            final(self).data() == old(self).data(),
            read_as(
                r,
                spec_object_from(old(self).data(), old(self).pos(), Seq::empty()),
                final(self).pos(),
            ),
        decreases old(self).data().len() - old(self).pos(), 3int,
    {
        proof {
            use_type_invariant(&*self);
        }
        let ghost data = self.data@;
        let ghost start = self.offset as int;
        let mut members: Vec<(String, UbjsonValue)> = Vec::new();
        proof {
            assert(members_of(members@) =~= Seq::<(Seq<char>, UbjsonView)>::empty());
        }
        loop
            invariant
                self.data@ == data,
                data == old(self).data(),
                start == old(self).offset,
                start <= self.offset <= data.len(),
                spec_object_from(data, self.offset as int, members_of(members@)) == spec_object_from(
                    data,
                    start,
                    Seq::empty(),
                ),
            decreases data.len() - self.offset,
        {
            let b = self.peek()?;
            if b == 0x7d {
                self.byte()?;
                return Ok(UbjsonValue::Object(members));
            }
            let pos = self.offset;
            let key = self.key()?;
            let p1 = self.offset;
            if !(pos < p1 && p1 <= self.data.len()) {
                return Err(invalid(Format::XGBoostUbjson, ErrorKind::InvalidValue));
            }
            let value = self.value()?;
            let p2 = self.offset;
            if !(p1 < p2 && p2 <= self.data.len()) {
                return Err(invalid(Format::XGBoostUbjson, ErrorKind::InvalidValue));
            }
            set_member_exec(&mut members, key, value);
        }
    }

    /// Reads an array.
    pub fn array(&mut self) -> (r: Result<UbjsonValue, ModelError>)
        ensures
            final(self).data() == old(self).data(),
            read_as(r, spec_array(old(self).data(), old(self).pos()), final(self).pos()),
        decreases old(self).data().len() - old(self).pos(), 3int,
    {
        proof {
            use_type_invariant(&*self);
        }
        let ghost data = self.data@;
        let start = self.offset;
        let value_marker = if self.peek()? == 0x24 {
            self.byte()?;
            Some(self.byte()?)
        } else {
            None
        };
        let p1 = self.offset;
        if self.peek()? == 0x23 {
            self.byte()?;
            let count = self.length()?;
            let p2 = self.offset;
            if !(start < p2 && p2 <= self.data.len()) {
                return Err(invalid(Format::XGBoostUbjson, ErrorKind::InvalidValue));
            }
            return self.array_counted(value_marker, count);
        }
        match value_marker {
            None => self.array_until(),
            Some(m) => {
                if !(start < p1 && p1 <= self.data.len()) {
                    return Err(invalid(Format::XGBoostUbjson, ErrorKind::InvalidValue));
                }
                self.array_until_typed(m)
            },
        }
    }

    /// Reads `count` values of an array.
    fn array_counted(&mut self, marker: Option<u8>, count: usize) -> (r: Result<UbjsonValue, ModelError>)
        ensures
            final(self).data() == old(self).data(),
            read_as(
                r,
                spec_array_counted(old(self).data(), old(self).pos(), marker, count as nat, Seq::empty()),
                final(self).pos(),
            ),
        decreases old(self).data().len() - old(self).pos(), 6 + count,
    {
        proof {
            use_type_invariant(&*self);
        }
        let ghost data = self.data@;
        let ghost start = self.offset as int;
        let mut items: Vec<UbjsonValue> = Vec::new();
        let mut i: usize = 0;
        proof {
            assert(values_of(items@) =~= Seq::<UbjsonView>::empty());
        }
        while i < count
            invariant
                self.data@ == data,
                data == old(self).data(),
                start == old(self).offset,
                start <= self.offset <= data.len(),
                i <= count,
                spec_array_counted(data, self.offset as int, marker, (count - i) as nat, values_of(items@))
                    == spec_array_counted(data, start, marker, count as nat, Seq::empty()),
            decreases count - i,
        {
            let pos = self.offset;
            let value = match marker {
                Some(m) => self.value_with_marker(m)?,
                None => self.value()?,
            };
            let p = self.offset;
            if !(pos <= p && p <= self.data.len()) {
                return Err(invalid(Format::XGBoostUbjson, ErrorKind::InvalidValue));
            }
            let ghost before = items@;
            items.push(value);
            proof {
                lemma_values_of_push(before, value);
            }
            i = i + 1;
        }
        Ok(UbjsonValue::Array(items))
    }

    /// Reads the values of an array up to its `]`.
    fn array_until(&mut self) -> (r: Result<UbjsonValue, ModelError>)
        ensures
            final(self).data() == old(self).data(),
            read_as(
                r,
                spec_array_until(old(self).data(), old(self).pos(), Seq::empty()),
                final(self).pos(),
            ),
        decreases old(self).data().len() - old(self).pos(), 2int,
    {
        proof {
            use_type_invariant(&*self);
        }
        let ghost data = self.data@;
        let ghost start = self.offset as int;
        let mut items: Vec<UbjsonValue> = Vec::new();
        proof {
            assert(values_of(items@) =~= Seq::<UbjsonView>::empty());
        }
        loop
            invariant
                self.data@ == data,
                data == old(self).data(),
                start == old(self).offset,
                start <= self.offset <= data.len(),
                spec_array_until(data, self.offset as int, values_of(items@)) == spec_array_until(
                    data,
                    start,
                    Seq::empty(),
                ),
            decreases data.len() - self.offset,
        {
            if self.peek()? == 0x5d {
                self.byte()?;
                return Ok(UbjsonValue::Array(items));
            }
            let pos = self.offset;
            let value = self.value()?;
            let p = self.offset;
            if !(pos < p && p <= self.data.len()) {
                return Err(invalid(Format::XGBoostUbjson, ErrorKind::InvalidValue));
            }
            let ghost before = items@;
            items.push(value);
            proof {
                lemma_values_of_push(before, value);
            }
        }
    }

    /// Reads the values of marker `marker` of an array up to its `]`.
    fn array_until_typed(&mut self, marker: u8) -> (r: Result<UbjsonValue, ModelError>)
        ensures
            final(self).data() == old(self).data(),
            read_as(
                r,
                spec_array_until_typed(old(self).data(), old(self).pos(), marker, Seq::empty()),
                final(self).pos(),
            ),
        decreases old(self).data().len() - old(self).pos(), 5int,
    {
        proof {
            use_type_invariant(&*self);
        }
        let ghost data = self.data@;
        let ghost start = self.offset as int;
        let mut items: Vec<UbjsonValue> = Vec::new();
        proof {
            assert(values_of(items@) =~= Seq::<UbjsonView>::empty());
        }
        loop
            invariant
                self.data@ == data,
                data == old(self).data(),
                start == old(self).offset,
                start <= self.offset <= data.len(),
                spec_array_until_typed(data, self.offset as int, marker, values_of(items@))
                    == spec_array_until_typed(data, start, marker, Seq::empty()),
            decreases data.len() - self.offset,
        {
            if self.peek()? == 0x5d {
                self.byte()?;
                return Ok(UbjsonValue::Array(items));
            }
            let pos = self.offset;
            let value = self.value_with_marker(marker)?;
            let p = self.offset;
            if !(pos < p && p <= self.data.len()) {
                return Err(invalid(Format::XGBoostUbjson, ErrorKind::InvalidValue));
            }
            let ghost before = items@;
            items.push(value);
            proof {
                lemma_values_of_push(before, value);
            }
        }
    }
}

/// Parses a UBJSON document.
pub fn parse_ubjson(data: &[u8]) -> (r: Result<UbjsonValue, ModelError>)
    ensures
        match spec_parse_ubjson(data@) {
            Ok(v) => r matches Ok(x) && x@ == v,
            Err(k) => r matches Err(e) && e == ubj_error(k),
        },
{
    let mut reader = UbjsonReader::new(data);
    reader.value()
}

// ---------------------------------------------------------------------------
// Telling a model apart

/// Whether a document is an XGBoost model: an object of fewer than 256
/// members, with a `learner` and a `version`.
pub open spec fn spec_is_xgboost_root(v: UbjsonView) -> bool {
    match v {
        UbjsonView::Object(members) => members.len() < 256 && has_member(members, "learner"@)
            && has_member(members, "version"@),
        _ => false,
    }
}

/// Whether some member of `members` is named `name`.
fn has_member_exec(members: &Vec<(String, UbjsonValue)>, name: &str) -> (r: bool)
    ensures
        r == has_member(members_of(members@), name@),
{
    let mut i: usize = 0;
    while i < members.len()
        invariant
            i <= members@.len(),
            forall|j: int| 0 <= j < i ==> members_of(members@)[j].0 != name@,
        decreases members@.len() - i,
    {
        proof {
            assert(members_of(members@)[i as int].0 == members@[i as int].0@);
        }
        if str_eq(members[i].0.as_str(), name) {
            return true;
        }
        i = i + 1;
    }
    false
}

/// Whether a document is an XGBoost model.
pub fn is_xgboost_root(json: &UbjsonValue) -> (r: bool)
    ensures
        r == spec_is_xgboost_root(json@),
{
    match json {
        UbjsonValue::Object(members) => {
            proof {
                assert(members_of(members@).len() == members@.len());
            }
            members.len() < 256 && has_member_exec(members, "learner") && has_member_exec(
                members,
                "version",
            )
        },
        _ => false,
    }
}

/// Whether a pickle saves a scikit-learn XGBoost classifier: it starts with
/// the protocol opcode and names `xgboost.sklearn` and `XGBClassifier`.
pub open spec fn spec_is_xgboost_sklearn_pickle(data: Seq<u8>) -> bool {
    data.len() > 0 && data[0] == 0x80 && spec_contains_bytes(data, "xgboost.sklearn".spec_bytes())
        && spec_contains_bytes(data, "XGBClassifier".spec_bytes())
}

/// Whether `data` pickles a scikit-learn XGBoost classifier.
pub fn is_xgboost_sklearn_pickle(data: &[u8]) -> (r: bool)
    ensures
        r == spec_is_xgboost_sklearn_pickle(data@),
{
    data.len() > 0 && data[0] == 0x80 && contains_bytes(data, "xgboost.sklearn".as_bytes())
        && contains_bytes(data, "XGBClassifier".as_bytes())
}

/// Whether a JSON document is an XGBoost model: an object of fewer than 256
/// members, with a `learner` and a `version`.
pub open spec fn spec_is_xgboost_json_root(v: JsonView) -> bool {
    match v {
        JsonView::Object(members) => members.len() < 256 && json_get(v, "learner"@) is Some
            && json_get(v, "version"@) is Some,
        _ => false,
    }
}

/// Whether a JSON document is an XGBoost model.
pub fn is_xgboost_json_root(json: &JsonValue) -> (r: bool)
    ensures
        r == spec_is_xgboost_json_root(json@),
{
    match json {
        JsonValue::Object(members) => {
            proof {
                assert(crate::json::json_members(members@).len() == members@.len());
            }
            members.len() < 256 && json.get("learner").is_some() && json.get("version").is_some()
        },
        _ => false,
    }
}

/// How sure the format is of `data`: sure of an XGBoost model in JSON (as
/// serde_json reads it) or in UBJSON, or of a pickled scikit-learn XGBoost
/// classifier; else not at all.
pub open spec fn spec_detect(data: Seq<u8>) -> Confidence {
    if (json_value_of(data) matches Some(v) && spec_is_xgboost_json_root(v))
        || (spec_parse_ubjson(data) matches Ok(u) && spec_is_xgboost_root(u))
        || spec_is_xgboost_sklearn_pickle(data) {
        Confidence::High
    } else {
        Confidence::NoMatch
    }
}

impl XGBoostFormat {
    /// How sure the format is that it reads `data`.
    pub fn detect(&self, data: &[u8]) -> (r: Confidence)
        ensures
            r == spec_detect(data@),
    {
        let json_root = match parse_json(data) {
            Some(v) => is_xgboost_json_root(&v),
            None => false,
        };
        let ubjson_root = match parse_ubjson(data) {
            Ok(v) => is_xgboost_root(&v),
            Err(_) => false,
        };
        if json_root || ubjson_root || is_xgboost_sklearn_pickle(data) {
            Confidence::High
        } else {
            Confidence::NoMatch
        }
    }
}

} // verus!
