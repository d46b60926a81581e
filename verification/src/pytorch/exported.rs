//! Names in exported programs: operators, overloads, generated node names,
//! and the JSON that holds them.
use vstd::prelude::*;
use vstd::string::StringExecFns;
use crate::chars::{
    ascii_lowercase, split, split_once, str_ascii_lowercase, str_split, str_split_once,
    str_strip_prefix, str_views, strip_prefix,
};
use crate::fmt::{decimal, u64_to_string};
use crate::text::{chars_string, str_chars, str_eq};

verus! {

// ---------------------------------------------------------------------------
// Targets

/// A target without its namespace: `torch.ops.aten.`, `torch.ops.prims.`,
/// `torch.` or `_operator.`, the first that it starts with.
pub open spec fn strip_namespace(target: Seq<char>) -> Seq<char> {
    match strip_prefix(target, "torch.ops.aten."@) {
        Some(t) => t,
        None => match strip_prefix(target, "torch.ops.prims."@) {
            Some(t) => t,
            None => match strip_prefix(target, "torch."@) {
                Some(t) => t,
                None => match strip_prefix(target, "_operator."@) {
                    Some(t) => t,
                    None => target,
                },
            },
        },
    }
}

/// A target without its namespace.
fn strip_namespace_exec(target: &str) -> (r: &str)
    ensures
        r@ == strip_namespace(target@),
{
    match str_strip_prefix(target, "torch.ops.aten.") {
        Some(t) => t,
        None => match str_strip_prefix(target, "torch.ops.prims.") {
            Some(t) => t,
            None => match str_strip_prefix(target, "torch.") {
                Some(t) => t,
                None => match str_strip_prefix(target, "_operator.") {
                    Some(t) => t,
                    None => target,
                },
            },
        },
    }
}

/// Whether a name part starts with an ASCII capital or is `default`: an
/// overload, not an operator.
pub open spec fn is_overload_part(part: Seq<char>) -> bool {
    (part.len() > 0 && 'A' <= part[0] <= 'Z') || part == "default"@
}

/// The operator that a target names: for `torch.ops.` targets, the part
/// after `aten`/`prims`, else the last part that is no overload; otherwise
/// the first part of the target without its namespace.
pub open spec fn spec_operator_name(target: Seq<char>) -> Seq<char> {
    let fallback = split(strip_namespace(target), '.')[0];
    match strip_prefix(target, "torch.ops."@) {
        None => fallback,
        Some(rest) => {
            let parts = split(rest, '.');
            if (parts[0] == "aten"@ || parts[0] == "prims"@) && parts.len() > 1 {
                parts[1]
            } else if parts.len() >= 2 {
                if is_overload_part(parts.last()) {
                    parts[parts.len() - 2]
                } else {
                    parts[parts.len() - 1]
                }
            } else {
                fallback
            }
        },
    }
}

pub proof fn lemma_split_not_empty(s: Seq<char>, c: char)
    ensures
        split(s, c).len() >= 1,
    decreases s.len(),
{
    if s.len() > 0 {
        lemma_split_not_empty(s.drop_last(), c);
    }
}

/// The operator that an exported program's target names.
pub fn exported_program_operator_name(target: &str) -> (r: String)
    ensures
        r@ == spec_operator_name(target@),
{
    if let Some(rest) = str_strip_prefix(target, "torch.ops.") {
        let parts = str_split(rest, '.');
        proof {
            lemma_split_not_empty(rest@, '.');
        }
        let n = parts.len();
        if (str_eq(parts[0], "aten") || str_eq(parts[0], "prims")) && n > 1 {
            return String::from_str(parts[1]);
        }
        if n >= 2 {
            let last = parts[n - 1];
            let last_chars = str_chars(last);
            let overload = (last_chars.len() > 0 && 'A' <= last_chars[0] && last_chars[0] <= 'Z')
                || str_eq(last, "default");
            let index = if overload {
                n - 2
            } else {
                n - 1
            };
            return String::from_str(parts[index]);
        }
    }
    let stripped = strip_namespace_exec(target);
    let parts = str_split(stripped, '.');
    proof {
        lemma_split_not_empty(stripped@, '.');
    }
    String::from_str(parts[0])
}

/// The overload that a target names: what follows the first `.` of the
/// target without its namespace, or nothing.
pub open spec fn spec_target_overload(target: Seq<char>) -> Seq<char> {
    match split_once(strip_namespace(target), '.') {
        Some((_, overload)) => overload,
        None => Seq::empty(),
    }
}

/// The overload that an exported program's target names.
pub fn exported_program_target_overload(target: &str) -> (r: &str)
    ensures
        r@ == spec_target_overload(target@),
{
    match str_split_once(strip_namespace_exec(target), '.') {
        Some((_, overload)) => overload,
        None => {
            let empty = "";
            proof {
                reveal_strlit("");
                assert(empty@ =~= Seq::<char>::empty());
            }
            empty
        },
    }
}

/// The base name of a node with several outputs: the operator with
/// `_default`, or with `__` and the overload in lower case.
pub open spec fn spec_multi_output_node_base(target: Seq<char>, operator: Seq<char>) -> Seq<char> {
    let overload = spec_target_overload(target);
    if overload.len() == 0 || overload == "default"@ {
        operator + "_default"@
    } else {
        operator + "__"@ + ascii_lowercase(overload)
    }
}

/// The base name of a node with several outputs.
pub fn exported_program_multi_output_node_base(target: &str, operator: &str) -> (r: String)
    ensures
        r@ == spec_multi_output_node_base(target@, operator@),
{
    let overload = exported_program_target_overload(target);
    let mut name = String::from_str(operator);
    if overload.is_empty() || str_eq(overload, "default") {
        name.append("_default");
    } else {
        name.append("__");
        name.append(str_ascii_lowercase(overload).as_str());
    }
    name
}

/// The base name of a node with a scalar output: the operator, with `_` and
/// the overload in lower case when there is one.
pub open spec fn spec_scalar_output_node_base(target: Seq<char>, operator: Seq<char>) -> Seq<char> {
    let overload = spec_target_overload(target);
    if overload.len() == 0 {
        operator
    } else {
        operator + "_"@ + ascii_lowercase(overload)
    }
}

/// The base name of a node with a scalar output.
pub fn exported_program_scalar_output_node_base(target: &str, operator: &str) -> (r: String)
    ensures
        r@ == spec_scalar_output_node_base(target@, operator@),
{
    let overload = exported_program_target_overload(target);
    let mut name = String::from_str(operator);
    if !overload.is_empty() {
        name.append("_");
        name.append(str_ascii_lowercase(overload).as_str());
    }
    name
}

// ---------------------------------------------------------------------------
// Generated names

/// How many times each base name has been handed out.
pub struct NameCounts {
    entries: Vec<(String, usize)>,
}

/// The count of `base` among the entries from `i` on.
pub open spec fn count_from(entries: Seq<(Seq<char>, usize)>, base: Seq<char>, i: int) -> usize
    decreases entries.len() - i,
{
    if i < 0 || i >= entries.len() {
        0
    } else if entries[i].0 == base {
        entries[i].1
    } else {
        count_from(entries, base, i + 1)
    }
}

impl View for NameCounts {
    type V = Seq<(Seq<char>, usize)>;

    closed spec fn view(&self) -> Seq<(Seq<char>, usize)> {
        self.entries@.map_values(|e: (String, usize)| (e.0@, e.1))
    }
}

impl NameCounts {
    /// No name handed out yet.
    pub fn new() -> (r: Self)
        ensures
            forall|base: Seq<char>| #[trigger] r.count(base) == 0,
    {
        let r = NameCounts { entries: Vec::new() };
        proof {
            assert(r@ =~= Seq::<(Seq<char>, usize)>::empty());
        }
        r
    }

    /// How many times `base` has been handed out.
    pub closed spec fn count(&self, base: Seq<char>) -> usize {
        count_from(self@, base, 0)
    }

    /// Hands out `base` once more: the count before, which then grows by one.
    fn take(&mut self, base: &str) -> (r: usize)
        requires
            old(self).count(base@) < usize::MAX,
        ensures
            r == old(self).count(base@),
            final(self).count(base@) == r + 1,
            forall|other: Seq<char>| other != base@ ==> #[trigger] final(self).count(other) == old(
                self,
            ).count(other),
    {
        let ghost old_view = self@;
        let n = self.entries.len();
        let mut i: usize = 0;
        while i < n
            invariant
                n == self.entries@.len(),
                self@ == old_view,
                old_view == old(self)@,
                i <= n,
                count_from(old_view, base@, 0) < usize::MAX,
                forall|j: int| 0 <= j < i ==> old_view[j].0 != base@,
            decreases n - i,
        {
            if str_eq(self.entries[i].0.as_str(), base) {
                let count = self.entries[i].1;
                proof {
                    assert(old_view[i as int].0 == base@);
                    lemma_count_skip(old_view, base@, i as int);
                }
                let name = self.entries[i].0.clone();
                self.entries.set(i, (name, count + 1));
                proof {
                    assert(self@ =~= old_view.update(i as int, (base@, (count + 1) as usize)));
                    lemma_count_skip(self@, base@, i as int);
                    assert forall|other: Seq<char>| other != base@ implies #[trigger] count_from(
                        self@,
                        other,
                        0,
                    ) == count_from(old_view, other, 0) by {
                        lemma_count_update(old_view, i as int, base@, (count + 1) as usize, other, 0);
                    }
                }
                return count;
            }
            i = i + 1;
        }
        self.entries.push((String::from_str(base), 1));
        proof {
            assert(self@ =~= old_view.push((base@, 1usize)));
            lemma_count_skip(self@, base@, n as int);
            lemma_count_skip_absent(old_view, base@, 0);
            assert forall|other: Seq<char>| other != base@ implies #[trigger] count_from(
                self@,
                other,
                0,
            ) == count_from(old_view, other, 0) by {
                lemma_count_push(old_view, base@, 1usize, other, 0);
            }
        }
        0
    }
}

/// Entries before `i` without the key leave its count to those from `i`.
proof fn lemma_count_skip(s: Seq<(Seq<char>, usize)>, k: Seq<char>, i: int)
    requires
        0 <= i <= s.len(),
        forall|j: int| 0 <= j < i ==> s[j].0 != k,
    ensures
        count_from(s, k, 0) == count_from(s, k, i),
    decreases i,
{
    if i > 0 {
        lemma_count_skip_from(s, k, 0, i);
    }
}

proof fn lemma_count_skip_from(s: Seq<(Seq<char>, usize)>, k: Seq<char>, a: int, i: int)
    requires
        0 <= a <= i <= s.len(),
        forall|j: int| a <= j < i ==> s[j].0 != k,
    ensures
        count_from(s, k, a) == count_from(s, k, i),
    decreases i - a,
{
    if a < i {
        lemma_count_skip_from(s, k, a + 1, i);
    }
}

/// Without the key, the count is zero.
proof fn lemma_count_skip_absent(s: Seq<(Seq<char>, usize)>, k: Seq<char>, a: int)
    requires
        0 <= a,
        forall|j: int| a <= j < s.len() ==> s[j].0 != k,
    ensures
        count_from(s, k, a) == 0,
    decreases s.len() - a,
{
    if a < s.len() {
        lemma_count_skip_absent(s, k, a + 1);
    }
}

/// Changing the entry of another key leaves a count alone.
proof fn lemma_count_update(
    s: Seq<(Seq<char>, usize)>,
    i: int,
    k: Seq<char>,
    v: usize,
    other: Seq<char>,
    a: int,
)
    requires
        0 <= i < s.len(),
        0 <= a,
        s[i].0 == k,
        other != k,
    ensures
        count_from(s.update(i, (k, v)), other, a) == count_from(s, other, a),
    decreases s.len() - a,
{
    if a < s.len() {
        lemma_count_update(s, i, k, v, other, a + 1);
    }
}

/// Adding an entry for another key leaves a count alone.
proof fn lemma_count_push(s: Seq<(Seq<char>, usize)>, k: Seq<char>, v: usize, other: Seq<char>, a: int)
    requires
        0 <= a,
        other != k,
    ensures
        count_from(s.push((k, v)), other, a) == count_from(s, other, a),
    decreases s.len() + 1 - a,
{
    if a < s.len() + 1 {
        lemma_count_push(s, k, v, other, a + 1);
    }
}

/// The name handed out for `base` when it has been handed out `count` times:
/// the base itself, then the base with `_` and the count.
pub open spec fn generated_name(base: Seq<char>, count: usize) -> Seq<char> {
    if count == 0 {
        base
    } else {
        base + "_"@ + decimal(count as int)
    }
}

/// The names handed out for one base never repeat: the first is the base, and
/// the later ones are the base, an underscore and how many came before.
pub proof fn lemma_generated_names_differ(base: Seq<char>, c1: usize, c2: usize)
    requires
        c1 != c2,
    ensures
        generated_name(base, c1) != generated_name(base, c2),
{
    crate::fmt::lemma_decimal_injective(c1 as int, c2 as int);
    crate::fmt::lemma_decimal_injective(c2 as int, c1 as int);
    let n1 = generated_name(base, c1);
    let n2 = generated_name(base, c2);
    let prefix = base + "_"@;
    reveal_strlit("_");
    if c1 > 0 && c2 > 0 {
        if n1 == n2 {
            assert(n1.subrange(prefix.len() as int, n1.len() as int) =~= decimal(c1 as int));
            assert(n2.subrange(prefix.len() as int, n2.len() as int) =~= decimal(c2 as int));
        }
    } else if c1 == 0 {
        assert(n2.len() > base.len());
    } else {
        assert(n1.len() > base.len());
    }
}

/// Hands out a name for `base` that was not handed out before.
pub fn exported_program_unique_generated_name(base: String, generated_names: &mut NameCounts) -> (r: String)
    requires
        old(generated_names).count(base@) < usize::MAX,
    ensures
        r@ == generated_name(base@, old(generated_names).count(base@)),
        final(generated_names).count(base@) == old(generated_names).count(base@) + 1,
        forall|other: Seq<char>| other != base@ ==> #[trigger] final(generated_names).count(other)
            == old(generated_names).count(other),
{
    let count = generated_names.take(base.as_str());
    if count == 0 {
        base
    } else {
        let mut name = base;
        name.append("_");
        name.append(u64_to_string(count as u64).as_str());
        name
    }
}

// ---------------------------------------------------------------------------
// Non-finite numbers in JSON

/// Whether `p` occurs in `s` at `i`.
pub open spec fn at(s: Seq<char>, i: int, p: Seq<char>) -> bool {
    0 <= i && i + p.len() <= s.len() && s.subrange(i, i + p.len()) == p
}

/// The JSON text from `i` on with `-Infinity`, `Infinity` and `NaN` outside
/// strings made `null`, and whether any was; `in_string` and `escaped` say
/// where `i` lies.
pub open spec fn sanitize_from(s: Seq<char>, i: int, in_string: bool, escaped: bool) -> (Seq<char>, bool)
    decreases s.len() + 9 - i,
{
    if i < 0 || i >= s.len() {
        (Seq::empty(), false)
    } else {
        let c = s[i];
        if in_string {
            let rest = if escaped {
                sanitize_from(s, i + 1, true, false)
            } else if c == '\\' {
                sanitize_from(s, i + 1, true, true)
            } else if c == '"' {
                sanitize_from(s, i + 1, false, false)
            } else {
                sanitize_from(s, i + 1, true, false)
            };
            (seq![c] + rest.0, rest.1)
        } else if c == '"' {
            let rest = sanitize_from(s, i + 1, true, false);
            (seq![c] + rest.0, rest.1)
        } else if at(s, i, "-Infinity"@) {
            let rest = sanitize_from(s, i + 9, false, false);
            ("null"@ + rest.0, true)
        } else if at(s, i, "Infinity"@) {
            let rest = sanitize_from(s, i + 8, false, false);
            ("null"@ + rest.0, true)
        } else if at(s, i, "NaN"@) {
            let rest = sanitize_from(s, i + 3, false, false);
            ("null"@ + rest.0, true)
        } else {
            let rest = sanitize_from(s, i + 1, false, false);
            (seq![c] + rest.0, rest.1)
        }
    }
}

/// The JSON text with the non-finite numbers outside strings made `null`,
/// when it has any.
pub open spec fn spec_sanitize_json(json: Seq<char>) -> Option<Seq<char>> {
    let (out, changed) = sanitize_from(json, 0, false, false);
    if changed {
        Some(out)
    } else {
        None
    }
}

/// Whether `p` occurs in `s` at `i`.
fn at_exec(s: &[char], i: usize, p: &str) -> (r: bool)
    ensures
        r == at(s@, i as int, p@),
{
    let pattern = str_chars(p);
    let n = s.len();
    if i > n || n - i < pattern.len() {
        return false;
    }
    crate::chars::matches_at(s, pattern.as_slice(), i)
}

/// Replaces the non-finite numbers outside strings of a JSON text with `null`;
/// `None` when it has none.
pub fn sanitize_exported_program_json(json: &str) -> (r: Option<String>)
    ensures
        match spec_sanitize_json(json@) {
            Some(t) => r matches Some(s) && s@ == t,
            None => r is None,
        },
{
    let chars = str_chars(json);
    let n = chars.len();
    let mut out: Vec<char> = Vec::new();
    let mut changed = false;
    let mut index: usize = 0;
    let mut in_string = false;
    let mut escaped = false;
    let ghost total = sanitize_from(json@, 0, false, false);
    proof {
        assert(out@ + total.0 =~= total.0);
    }
    while index < n
        invariant
            n == json@.len(),
            chars@ == json@,
            index <= n,
            total == sanitize_from(json@, 0, false, false),
            !in_string ==> !escaped,
            out@ + sanitize_from(json@, index as int, in_string, escaped).0 == total.0,
            (changed || sanitize_from(json@, index as int, in_string, escaped).1) == total.1,
        decreases n - index,
    {
        let ghost before = out@;
        let ghost rest = sanitize_from(json@, index as int, in_string, escaped);
        let c = chars[index];
        if in_string {
            out.push(c);
            let was_escaped = escaped;
            if escaped {
                escaped = false;
            } else if c == '\\' {
                escaped = true;
            } else if c == '"' {
                in_string = false;
            }
            proof {
                let next = sanitize_from(json@, index + 1, in_string, escaped);
                assert(json@[index as int] == c);
                assert(rest == (seq![c] + next.0, next.1));
                assert(before + rest.0 =~= out@ + next.0);
            }
            index = index + 1;
            continue;
        }
        if c == '"' {
            out.push(c);
            in_string = true;
            index = index + 1;
            proof {
                assert(before + rest.0 =~= out@ + sanitize_from(json@, index as int, in_string, escaped).0);
            }
            continue;
        }
        let len: usize = if at_exec(chars.as_slice(), index, "-Infinity") {
            9
        } else if at_exec(chars.as_slice(), index, "Infinity") {
            8
        } else if at_exec(chars.as_slice(), index, "NaN") {
            3
        } else {
            0
        };
        proof {
            reveal_strlit("-Infinity");
            reveal_strlit("Infinity");
            reveal_strlit("NaN");
        }
        if len > 0 {
            out.push('n');
            out.push('u');
            out.push('l');
            out.push('l');
            changed = true;
            index = index + len;
            proof {
                reveal_strlit("null");
                assert(out@ =~= before + "null"@);
                assert(before + rest.0 =~= out@ + sanitize_from(json@, index as int, false, false).0);
            }
        } else {
            out.push(c);
            index = index + 1;
            proof {
                assert(before + rest.0 =~= out@ + sanitize_from(json@, index as int, false, false).0);
            }
        }
    }
    proof {
        assert(out@ + Seq::<char>::empty() =~= out@);
    }
    if changed {
        Some(chars_string(out.as_slice()))
    } else {
        None
    }
}

} // verus!
