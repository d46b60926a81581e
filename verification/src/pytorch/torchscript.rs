//! Graphs read from small TorchScript sources: a direct comparison, a multiply
//! by a dictionary item, and an enum comparison under an `if`.
use vstd::prelude::*;
use vstd::string::StringExecFns;
use vstd::utf8::encode_utf8;
use crate::chars::{
    find_from, find_from_exec, index_of, index_of_exec, lines, split, split_once, str_lines,
    str_split, str_split_once, str_strip_prefix, str_trim, str_views, strip_prefix, trim,
};
use crate::error::{ErrorKind, Format, ModelError, invalid};
use crate::fmt::{decimal, u64_to_string};
use crate::pytorch::modules::{opt_view, string_views};
use crate::pytorch::names::{
    parse_dict_assignment, parse_forward_input, parse_forward_inputs, spec_dict_assignment,
    spec_forward_inputs,
};
use crate::pytorch::py_error;
use crate::text::{occurs_at, str_chars, str_contains, str_eq, str_slice};

verus! {

// ---------------------------------------------------------------------------
// The graph that a source gives

/// A value of a TorchScript graph.
pub struct TorchScriptValueSpec {
    pub name: String,
    pub graph_input: bool,
    pub graph_output: bool,
}

/// A node of a TorchScript graph: its operator, its metadata and the names of
/// its input and output values.
pub struct TorchScriptNodeSpec {
    pub operator: String,
    pub metadata: Vec<(String, String)>,
    pub inputs: Vec<String>,
    pub outputs: Vec<String>,
}

/// The values and the nodes of a TorchScript graph.
pub struct TorchScriptGraphSpec {
    pub values: Vec<TorchScriptValueSpec>,
    pub nodes: Vec<TorchScriptNodeSpec>,
}

pub struct ValueSpecView {
    pub name: Seq<char>,
    pub graph_input: bool,
    pub graph_output: bool,
}

pub struct NodeSpecView {
    pub operator: Seq<char>,
    pub metadata: Seq<(Seq<char>, Seq<char>)>,
    pub inputs: Seq<Seq<char>>,
    pub outputs: Seq<Seq<char>>,
}

pub struct GraphSpecView {
    pub values: Seq<ValueSpecView>,
    pub nodes: Seq<NodeSpecView>,
}

impl View for TorchScriptValueSpec {
    type V = ValueSpecView;

    open spec fn view(&self) -> ValueSpecView {
        ValueSpecView { name: self.name@, graph_input: self.graph_input, graph_output: self.graph_output }
    }
}

impl View for TorchScriptNodeSpec {
    type V = NodeSpecView;

    open spec fn view(&self) -> NodeSpecView {
        NodeSpecView {
            operator: self.operator@,
            metadata: self.metadata@.map_values(|m: (String, String)| (m.0@, m.1@)),
            inputs: string_views(self.inputs@),
            outputs: string_views(self.outputs@),
        }
    }
}

impl View for TorchScriptGraphSpec {
    type V = GraphSpecView;

    open spec fn view(&self) -> GraphSpecView {
        GraphSpecView {
            values: self.values@.map_values(|v: TorchScriptValueSpec| v@),
            nodes: self.nodes@.map_values(|n: TorchScriptNodeSpec| n@),
        }
    }
}

/// The value `name`.
pub open spec fn value(name: Seq<char>, graph_input: bool, graph_output: bool) -> ValueSpecView {
    ValueSpecView { name, graph_input, graph_output }
}

/// The node `operator` with `metadata`, reading `inputs` and writing `outputs`.
pub open spec fn node(
    operator: Seq<char>,
    metadata: Seq<(Seq<char>, Seq<char>)>,
    inputs: Seq<Seq<char>>,
    outputs: Seq<Seq<char>>,
) -> NodeSpecView {
    NodeSpecView { operator, metadata, inputs, outputs }
}

/// The name of the first value of the variable `name`: `%name.1`.
pub open spec fn first_value(name: Seq<char>) -> Seq<char> {
    "%"@ + name + ".1"@
}

/// A place in a source: `path:line:column`.
pub open spec fn spec_location(path: Seq<char>, line: int, column: int) -> Seq<char> {
    path + ":"@ + decimal(line) + ":"@ + decimal(column)
}

/// The place in the generated code, when its path is known: `path` and
/// `suffix`; else `:0:0`.
pub open spec fn generated_location(path: Option<Seq<char>>, suffix: Seq<char>) -> Seq<char> {
    match path {
        Some(p) => p + suffix,
        None => ":0:0"@,
    }
}

/// The number of UTF-8 bytes of `s`: the byte column just past it.
pub open spec fn byte_len(s: Seq<char>) -> int {
    encode_utf8(s).len() as int
}

// ---------------------------------------------------------------------------
// Searching the lines

/// The first line from `i` on for which `f` gives something, with its index.
pub open spec fn first_line_map<A>(ls: Seq<Seq<char>>, f: spec_fn(Seq<char>) -> Option<A>, i: int) -> Option<
    (int, A),
>
    decreases ls.len() - i,
{
    if i < 0 || i >= ls.len() {
        None
    } else {
        match f(ls[i]) {
            Some(a) => Some((i, a)),
            None => first_line_map(ls, f, i + 1),
        }
    }
}

pub proof fn lemma_first_line_map_bounds<A>(ls: Seq<Seq<char>>, f: spec_fn(Seq<char>) -> Option<A>, i: int)
    requires
        0 <= i,
    ensures
        first_line_map(ls, f, i) matches Some((j, a)) ==> i <= j < ls.len() && f(ls[j]) == Some(a),
    decreases ls.len() - i,
{
    if i < ls.len() && f(ls[i]) is None {
        lemma_first_line_map_bounds(ls, f, i + 1);
    }
}

/// The call `torch.<op>(` in a line: the byte column just past `torch` and the
/// character index of the call.
pub open spec fn torch_call(line: Seq<char>, call: Seq<char>) -> Option<(int, int)> {
    match find_from(line, call, 0) {
        Some(j) => Some((byte_len(line.subrange(0, j + 5)), j)),
        None => None,
    }
}

/// A `torch.le(` call in a line whose arguments close on that line: its byte
/// column past `torch`, and the text of its arguments.
pub open spec fn le_call(line: Seq<char>) -> Option<(int, Seq<char>)> {
    match torch_call(line, "torch.le("@) {
        Some((column, j)) => match index_of(line, ')', j + 9) {
            Some(end) => Some((column, line.subrange(j + 9, end))),
            None => None,
        },
        None => None,
    }
}

pub open spec fn le_call_of() -> spec_fn(Seq<char>) -> Option<(int, Seq<char>)> {
    |line: Seq<char>| le_call(line)
}

/// The byte column just past `torch` of a `torch.eq(` call in a line.
pub open spec fn eq_call(line: Seq<char>) -> Option<int> {
    match torch_call(line, "torch.eq("@) {
        Some((column, _)) => Some(column),
        None => None,
    }
}

pub open spec fn eq_call_of() -> spec_fn(Seq<char>) -> Option<int> {
    |line: Seq<char>| eq_call(line)
}

/// The byte column of `if ` in a line that is `if _0:` but for spaces.
pub open spec fn if_column(line: Seq<char>) -> Option<int> {
    if trim(line) == "if _0:"@ {
        match find_from(line, "if "@, 0) {
            Some(j) => Some(byte_len(line.subrange(0, j))),
            None => None,
        }
    } else {
        None
    }
}

pub open spec fn if_column_of() -> spec_fn(Seq<char>) -> Option<int> {
    |line: Seq<char>| if_column(line)
}

/// What a line returns: the rest of the line after `return `, once trimmed.
pub open spec fn return_body(line: Seq<char>) -> Option<Seq<char>> {
    strip_prefix(trim(line), "return "@)
}

pub open spec fn return_body_of() -> spec_fn(Seq<char>) -> Option<Seq<char>> {
    |line: Seq<char>| return_body(line)
}

pub open spec fn dict_assignment_of() -> spec_fn(Seq<char>) -> Option<Seq<char>> {
    |line: Seq<char>| spec_dict_assignment(line)
}

/// The pieces of a comma-separated list, trimmed.
pub open spec fn trimmed_args(args: Seq<char>) -> Seq<Seq<char>> {
    split(args, ',').map_values(|p: Seq<char>| trim(p))
}

// ---------------------------------------------------------------------------
// The three kinds of source

/// The graph of `return torch.le(a, b)`.
pub open spec fn le_graph(a: Seq<char>, b: Seq<char>, source: Seq<char>, generated: Seq<char>) -> GraphSpecView {
    let left = first_value(a);
    let right = first_value(b);
    GraphSpecView {
        values: seq![value(left, true, false), value(right, true, false), value("%5"@, false, true)],
        nodes: seq![
            node(
                "le"@,
                seq![("source"@, source), ("generated"@, generated)],
                seq![left, right],
                seq!["%5"@],
            ),
        ],
    }
}

/// The graph of a source that returns `torch.le` of its two inputs, in order.
pub open spec fn spec_parse_direct_le(
    source: Seq<char>,
    source_path: Seq<char>,
    generated_path: Option<Seq<char>>,
) -> Result<GraphSpecView, ErrorKind> {
    match spec_forward_inputs(source) {
        None => Err(ErrorKind::Missing),
        Some(inputs) => if inputs.len() != 2 {
            Err(ErrorKind::InvalidValue)
        } else {
            match first_line_map(lines(source), le_call_of(), 0) {
                None => Err(ErrorKind::Missing),
                Some((index, (column, args))) => {
                    let parts = trimmed_args(args);
                    if parts.len() != 2 || parts[0] != inputs[0] || parts[1] != inputs[1] {
                        Err(ErrorKind::InvalidValue)
                    } else {
                        Ok(
                            le_graph(
                                inputs[0],
                                inputs[1],
                                spec_location(source_path, index + 1, column),
                                generated_location(generated_path, ":4:0"@),
                            ),
                        )
                    }
                },
            }
        },
    }
}

/// The graph of `return x * d[...]`, where `d` is a dictionary built in the
/// source.
pub open spec fn binop_graph(input: Seq<char>, dict: Seq<char>, source: Seq<char>) -> GraphSpecView {
    let input = first_value(input);
    let dict = first_value(dict);
    GraphSpecView {
        values: seq![
            value(input, true, false),
            value(dict, false, false),
            value("%10"@, false, false),
            value("%11"@, false, true),
        ],
        nodes: seq![
            node("DictConstruct"@, seq![("source"@, Seq::empty())], Seq::empty(), seq![dict]),
            node(
                "__getitem__"@,
                seq![("source"@, source), ("generated"@, ":0:0"@)],
                seq![dict],
                seq!["%10"@],
            ),
            node("mul"@, seq![("source"@, Seq::empty())], seq![input, "%10"@], seq!["%11"@]),
        ],
    }
}

/// The graph of a source whose first return multiplies its first input by an
/// item of the first dictionary that it builds.
pub open spec fn spec_parse_binop(source: Seq<char>, source_path: Seq<char>) -> Result<
    GraphSpecView,
    ErrorKind,
> {
    let ls = lines(source);
    match spec_forward_inputs(source) {
        None => Err(ErrorKind::Missing),
        Some(inputs) => match first_line_map(ls, dict_assignment_of(), 0) {
            None => Err(ErrorKind::Missing),
            Some((_, dict)) => match first_line_map(ls, return_body_of(), 0) {
                None => Err(ErrorKind::Missing),
                Some((index, body)) => match split_once(body, '*') {
                    None => Err(ErrorKind::InvalidValue),
                    Some((left, right)) => if trim(left) != inputs[0] {
                        Err(ErrorKind::InvalidValue)
                    } else {
                        let right = trim(right);
                        match index_of(right, '[', 0) {
                            None => Err(ErrorKind::InvalidValue),
                            Some(bracket) => if trim(right.subrange(0, bracket)) != dict {
                                Err(ErrorKind::InvalidValue)
                            } else {
                                let column = match index_of(ls[index], '[', 0) {
                                    Some(c) => byte_len(ls[index].subrange(0, c)),
                                    None => 0,
                                };
                                Ok(
                                    binop_graph(
                                        inputs[0],
                                        dict,
                                        spec_location(source_path, index + 1, column),
                                    ),
                                )
                            },
                        }
                    },
                },
            },
        },
    }
}

/// The graph of an enum comparison under an `if`.
pub open spec fn enum_graph(
    input: Seq<char>,
    eq_source: Seq<char>,
    eq_generated: Seq<char>,
    if_source: Seq<char>,
    if_generated: Seq<char>,
) -> GraphSpecView {
    GraphSpecView {
        values: seq![
            value("%6"@, false, false),
            value("%41"@, false, true),
            value(first_value(input), true, false),
        ],
        nodes: seq![
            node(
                "eq"@,
                seq![("source"@, eq_source), ("generated"@, eq_generated)],
                Seq::empty(),
                seq!["%6"@],
            ),
            node(
                "If"@,
                seq![("source"@, if_source), ("generated"@, if_generated)],
                seq!["%6"@],
                seq!["%41"@],
            ),
        ],
    }
}

/// The graph of a source that compares with `torch.eq` and branches on
/// `if _0:`.
pub open spec fn spec_parse_enum_control_flow(
    source: Seq<char>,
    source_path: Seq<char>,
    generated_path: Option<Seq<char>>,
) -> Result<GraphSpecView, ErrorKind> {
    let ls = lines(source);
    match spec_forward_inputs(source) {
        None => Err(ErrorKind::Missing),
        Some(inputs) => match first_line_map(ls, eq_call_of(), 0) {
            None => Err(ErrorKind::Missing),
            Some((eq_index, eq_column)) => match first_line_map(ls, if_column_of(), 0) {
                None => Err(ErrorKind::Missing),
                Some((if_index, if_col)) => Ok(
                    enum_graph(
                        inputs[0],
                        spec_location(source_path, eq_index + 1, eq_column),
                        generated_location(generated_path, ":15:11"@),
                        spec_location(source_path, if_index + 1, if_col),
                        generated_location(generated_path, ":15:8"@),
                    ),
                ),
            },
        },
    }
}

/// Whether `p` occurs in `s`.
pub open spec fn contains(s: Seq<char>, p: Seq<char>) -> bool {
    exists|j: int| occurs_at(s, p, j)
}

/// The graph of a TorchScript source, by its kind: an enum comparison when it
/// calls `torch.eq(` and branches on `if _0:`, a direct comparison when it
/// returns `torch.le(`, else a multiply.
pub open spec fn spec_parse(
    source: Seq<char>,
    source_path: Seq<char>,
    generated_path: Option<Seq<char>>,
) -> Result<GraphSpecView, ErrorKind> {
    if contains(source, "torch.eq("@) && contains(source, "if _0:"@) {
        spec_parse_enum_control_flow(source, source_path, generated_path)
    } else if contains(source, "return torch.le("@) {
        spec_parse_direct_le(source, source_path, generated_path)
    } else {
        spec_parse_binop(source, source_path)
    }
}

/// Whether `r` is the spec result `s`.
pub open spec fn graph_result(r: Result<TorchScriptGraphSpec, ModelError>, s: Result<GraphSpecView, ErrorKind>) -> bool {
    match s {
        Ok(g) => r matches Ok(x) && x@ == g,
        Err(k) => r matches Err(e) && e == py_error(k),
    }
}

// ---------------------------------------------------------------------------
// Building

/// `path:line:column`.
fn location(path: &str, line: usize, column: usize) -> (r: String)
    ensures
        r@ == spec_location(path@, line as int, column as int),
{
    let mut s = String::from_str(path);
    s.append(":");
    let l = u64_to_string(line as u64);
    s.append(l.as_str());
    s.append(":");
    let c = u64_to_string(column as u64);
    s.append(c.as_str());
    proof {
        reveal_strlit(":");
    }
    s
}

/// The place in the generated code: `path` and `suffix`, or `:0:0`.
fn generated(path: Option<&str>, suffix: &str) -> (r: String)
    ensures
        r@ == generated_location(
            match path {
                Some(p) => Some(p@),
                None => None,
            },
            suffix@,
        ),
{
    match path {
        Some(p) => {
            let mut s = String::from_str(p);
            s.append(suffix);
            s
        },
        None => String::from_str(":0:0"),
    }
}

/// `%name.1`.
fn first_value_name(name: &str) -> (r: String)
    ensures
        r@ == first_value(name@),
{
    let mut s = String::from_str("%");
    s.append(name);
    s.append(".1");
    s
}

/// The UTF-8 length of the first `n` characters of `line`.
fn prefix_byte_len(line: &str, n: usize) -> (r: usize)
    requires
        n <= line@.len(),
    ensures
        r == byte_len(line@.subrange(0, n as int)),
{
    let prefix = str_slice(line, 0, n);
    prefix.as_bytes().len()
}

/// A value.
fn make_value(name: String, graph_input: bool, graph_output: bool) -> (r: TorchScriptValueSpec)
    ensures
        r@ == value(name@, graph_input, graph_output),
{
    TorchScriptValueSpec { name, graph_input, graph_output }
}

/// Metadata with a source place only.
fn source_only(source: String) -> (r: Vec<(String, String)>)
    ensures
        r@.map_values(|m: (String, String)| (m.0@, m.1@)) == seq![("source"@, source@)],
{
    let mut v: Vec<(String, String)> = Vec::new();
    v.push((String::from_str("source"), source));
    proof {
        assert(v@.map_values(|m: (String, String)| (m.0@, m.1@)) =~= seq![("source"@, source@)]);
    }
    v
}

/// Metadata with a source place and a generated place.
fn source_and_generated(source: String, generated: String) -> (r: Vec<(String, String)>)
    ensures
        r@.map_values(|m: (String, String)| (m.0@, m.1@)) == seq![
            ("source"@, source@),
            ("generated"@, generated@),
        ],
{
    let mut v: Vec<(String, String)> = Vec::new();
    v.push((String::from_str("source"), source));
    v.push((String::from_str("generated"), generated));
    proof {
        assert(v@.map_values(|m: (String, String)| (m.0@, m.1@)) =~= seq![
            ("source"@, source@),
            ("generated"@, generated@),
        ]);
    }
    v
}

/// A list of names.
fn names1(a: String) -> (r: Vec<String>)
    ensures
        string_views(r@) == seq![a@],
{
    let mut v: Vec<String> = Vec::new();
    v.push(a);
    proof {
        assert(string_views(v@) =~= seq![a@]);
    }
    v
}

/// A list of two names.
fn names2(a: String, b: String) -> (r: Vec<String>)
    ensures
        string_views(r@) == seq![a@, b@],
{
    let mut v: Vec<String> = Vec::new();
    v.push(a);
    v.push(b);
    proof {
        assert(string_views(v@) =~= seq![a@, b@]);
    }
    v
}

/// No name.
fn names0() -> (r: Vec<String>)
    ensures
        string_views(r@) == Seq::<Seq<char>>::empty(),
{
    let v: Vec<String> = Vec::new();
    proof {
        assert(string_views(v@) =~= Seq::<Seq<char>>::empty());
    }
    v
}


/// The view of an optional path.
pub open spec fn path_view(path: Option<&str>) -> Option<Seq<char>> {
    match path {
        Some(p) => Some(p@),
        None => None,
    }
}

/// Finds `call` in the characters `chars` of `line`: the byte column past
/// `torch` and the character index of the call.
fn torch_call_exec(line: &str, chars: &Vec<char>, call: &str) -> (r: Option<(usize, usize)>)
    requires
        chars@ == line@,
        call@.len() >= 5,
    ensures
        match torch_call(line@, call@) {
            Some((column, j)) => r matches Some((c, k)) && c == column && k == j && j + call@.len()
                <= line@.len() <= usize::MAX,
            None => r is None,
        },
{
    let pattern = str_chars(call);
    let len = chars.len();
    proof {
        assert(len == line@.len());
    }
    match find_from_exec(chars.as_slice(), pattern.as_slice(), 0) {
        Some(j) => Some((prefix_byte_len(line, j + 5), j)),
        None => None,
    }
}

/// The `torch.le(` call of a line whose arguments close on it.
fn le_call_exec<'a>(line: &'a str) -> (r: Option<(usize, &'a str)>)
    ensures
        match le_call(line@) {
            Some((column, args)) => r matches Some((c, a)) && c == column && a@ == args,
            None => r is None,
        },
{
    proof {
        reveal_strlit("torch.le(");
        assert("torch.le("@.len() == 9);
    }
    let chars = str_chars(line);
    match torch_call_exec(line, &chars, "torch.le(") {
        None => None,
        Some((column, j)) => match index_of_exec(chars.as_slice(), ')', j + 9) {
            Some(end) => Some((column, str_slice(line, j + 9, end))),
            None => None,
        },
    }
}

/// The byte column past `torch` of the line's `torch.eq(` call.
fn eq_call_exec(line: &str) -> (r: Option<usize>)
    ensures
        match eq_call(line@) {
            Some(column) => r matches Some(c) && c == column,
            None => r is None,
        },
{
    proof {
        reveal_strlit("torch.eq(");
    }
    let chars = str_chars(line);
    match torch_call_exec(line, &chars, "torch.eq(") {
        Some((column, _)) => Some(column),
        None => None,
    }
}

/// The byte column of `if ` in a line that is `if _0:` but for spaces.
fn if_column_exec(line: &str) -> (r: Option<usize>)
    ensures
        match if_column(line@) {
            Some(column) => r matches Some(c) && c == column,
            None => r is None,
        },
{
    if !str_eq(str_trim(line), "if _0:") {
        return None;
    }
    let chars = str_chars(line);
    let pattern = str_chars("if ");
    match find_from_exec(chars.as_slice(), pattern.as_slice(), 0) {
        Some(j) => Some(prefix_byte_len(line, j)),
        None => None,
    }
}

/// The first line with a `torch.le(` call.
fn first_le_call<'a>(ls: &Vec<&'a str>) -> (r: Option<(usize, usize, &'a str)>)
    ensures
        r matches Some(found) ==> found.0 < ls.len(),
        match first_line_map(str_views(ls@), le_call_of(), 0) {
            Some((i, (column, args))) => r matches Some((x, c, a)) && x == i && c == column && a@
                == args,
            None => r is None,
        },
{
    let mut i: usize = 0;
    while i < ls.len()
        invariant
            i <= ls@.len(),
            first_line_map(str_views(ls@), le_call_of(), i as int) == first_line_map(
                str_views(ls@),
                le_call_of(),
                0,
            ),
        decreases ls@.len() - i,
    {
        proof {
            assert(str_views(ls@)[i as int] == ls@[i as int]@);
        }
        if let Some((column, args)) = le_call_exec(ls[i]) {
            return Some((i, column, args));
        }
        i = i + 1;
    }
    None
}

/// The first line with a `torch.eq(` call.
fn first_eq_call(ls: &Vec<&str>) -> (r: Option<(usize, usize)>)
    ensures
        r matches Some(found) ==> found.0 < ls.len(),
        match first_line_map(str_views(ls@), eq_call_of(), 0) {
            Some((i, column)) => r matches Some((x, c)) && x == i && c == column,
            None => r is None,
        },
{
    let mut i: usize = 0;
    while i < ls.len()
        invariant
            i <= ls@.len(),
            first_line_map(str_views(ls@), eq_call_of(), i as int) == first_line_map(
                str_views(ls@),
                eq_call_of(),
                0,
            ),
        decreases ls@.len() - i,
    {
        proof {
            assert(str_views(ls@)[i as int] == ls@[i as int]@);
        }
        if let Some(column) = eq_call_exec(ls[i]) {
            return Some((i, column));
        }
        i = i + 1;
    }
    None
}

/// The first line that is `if _0:`.
fn first_if_line(ls: &Vec<&str>) -> (r: Option<(usize, usize)>)
    ensures
        r matches Some(found) ==> found.0 < ls.len(),
        match first_line_map(str_views(ls@), if_column_of(), 0) {
            Some((i, column)) => r matches Some((x, c)) && x == i && c == column,
            None => r is None,
        },
{
    let mut i: usize = 0;
    while i < ls.len()
        invariant
            i <= ls@.len(),
            first_line_map(str_views(ls@), if_column_of(), i as int) == first_line_map(
                str_views(ls@),
                if_column_of(),
                0,
            ),
        decreases ls@.len() - i,
    {
        proof {
            assert(str_views(ls@)[i as int] == ls@[i as int]@);
        }
        if let Some(column) = if_column_exec(ls[i]) {
            return Some((i, column));
        }
        i = i + 1;
    }
    None
}

/// The first line that returns something, and what it returns.
fn first_return<'a>(ls: &Vec<&'a str>) -> (r: Option<(usize, &'a str)>)
    ensures
        r matches Some(found) ==> found.0 < ls.len(),
        match first_line_map(str_views(ls@), return_body_of(), 0) {
            Some((i, body)) => r matches Some((x, b)) && x == i && b@ == body,
            None => r is None,
        },
{
    let mut i: usize = 0;
    while i < ls.len()
        invariant
            i <= ls@.len(),
            first_line_map(str_views(ls@), return_body_of(), i as int) == first_line_map(
                str_views(ls@),
                return_body_of(),
                0,
            ),
        decreases ls@.len() - i,
    {
        proof {
            assert(str_views(ls@)[i as int] == ls@[i as int]@);
        }
        if let Some(body) = str_strip_prefix(str_trim(ls[i]), "return ") {
            return Some((i, body));
        }
        i = i + 1;
    }
    None
}

/// The name of the first dictionary that the lines build.
fn first_dict(ls: &Vec<&str>) -> (r: Option<String>)
    ensures
        match first_line_map(str_views(ls@), dict_assignment_of(), 0) {
            Some((_, name)) => r matches Some(x) && x@ == name,
            None => r is None,
        },
{
    let mut i: usize = 0;
    while i < ls.len()
        invariant
            i <= ls@.len(),
            first_line_map(str_views(ls@), dict_assignment_of(), i as int) == first_line_map(
                str_views(ls@),
                dict_assignment_of(),
                0,
            ),
        decreases ls@.len() - i,
    {
        proof {
            assert(str_views(ls@)[i as int] == ls@[i as int]@);
        }
        if let Some(name) = parse_dict_assignment(ls[i]) {
            return Some(name);
        }
        i = i + 1;
    }
    None
}

/// The views of values and nodes.
pub open spec fn value_views(v: Seq<TorchScriptValueSpec>) -> Seq<ValueSpecView> {
    v.map_values(|x: TorchScriptValueSpec| x@)
}

pub open spec fn node_views(v: Seq<TorchScriptNodeSpec>) -> Seq<NodeSpecView> {
    v.map_values(|x: TorchScriptNodeSpec| x@)
}

/// A source of TorchScript code that the reader understands.
pub struct TorchScriptSource;

impl TorchScriptSource {
    /// The graph of a TorchScript source, by its kind: an enum comparison, a
    /// direct comparison or a multiply.
    pub fn parse(source: &str, source_path: &str, generated_path: Option<&str>) -> (r: Result<
        TorchScriptGraphSpec,
        ModelError,
    >)
        ensures
            graph_result(r, spec_parse(source@, source_path@, path_view(generated_path))),
    {
        if str_contains(source, "torch.eq(") && str_contains(source, "if _0:") {
            return Self::parse_enum_control_flow(source, source_path, generated_path);
        }
        if str_contains(source, "return torch.le(") {
            return Self::parse_direct_le(source, source_path, generated_path);
        }
        Self::parse_binop(source, source_path)
    }

    /// The graph of a source that returns `torch.le` of its two inputs.
    pub fn parse_direct_le(source: &str, source_path: &str, generated_path: Option<&str>) -> (r:
        Result<TorchScriptGraphSpec, ModelError>)
        ensures
            graph_result(
                r,
                spec_parse_direct_le(source@, source_path@, path_view(generated_path)),
            ),
    {
        let inputs = parse_forward_inputs(source)?;
        if inputs.len() != 2 {
            return Err(invalid(Format::PyTorch, ErrorKind::InvalidValue));
        }
        let ls = str_lines(source);
        let (index, column, args) = match first_le_call(&ls) {
            Some(found) => found,
            None => return Err(invalid(Format::PyTorch, ErrorKind::Missing)),
        };
        proof {
            lemma_first_line_map_bounds(str_views(ls@), le_call_of(), 0);
        }
        let pieces = str_split(args, ',');
        proof {
            assert(trimmed_args(args@).len() == str_views(pieces@).len());
        }
        if pieces.len() != 2 {
            return Err(invalid(Format::PyTorch, ErrorKind::InvalidValue));
        }
        let a = str_trim(pieces[0]);
        let b = str_trim(pieces[1]);
        proof {
            assert(trimmed_args(args@)[0] == a@);
            assert(trimmed_args(args@)[1] == b@);
            assert(string_views(inputs@)[0] == inputs@[0]@);
            assert(string_views(inputs@)[1] == inputs@[1]@);
        }
        if !str_eq(a, inputs[0].as_str()) || !str_eq(b, inputs[1].as_str()) {
            return Err(invalid(Format::PyTorch, ErrorKind::InvalidValue));
        }
        let left = first_value_name(inputs[0].as_str());
        let right = first_value_name(inputs[1].as_str());
        let mut values: Vec<TorchScriptValueSpec> = Vec::new();
        values.push(make_value(left.clone(), true, false));
        values.push(make_value(right.clone(), true, false));
        values.push(make_value(String::from_str("%5"), false, true));
        let mut nodes: Vec<TorchScriptNodeSpec> = Vec::new();
        nodes.push(
            TorchScriptNodeSpec {
                operator: String::from_str("le"),
                metadata: source_and_generated(
                    location(source_path, index + 1, column),
                    generated(generated_path, ":4:0"),
                ),
                inputs: names2(left, right),
                outputs: names1(String::from_str("%5")),
            },
        );
        let graph = TorchScriptGraphSpec { values, nodes };
        proof {
            assert(value_views(graph.values@) =~= le_graph(
                inputs@[0]@,
                inputs@[1]@,
                spec_location(source_path@, index + 1, column as int),
                generated_location(path_view(generated_path), ":4:0"@),
            ).values);
            assert(node_views(graph.nodes@) =~= le_graph(
                inputs@[0]@,
                inputs@[1]@,
                spec_location(source_path@, index + 1, column as int),
                generated_location(path_view(generated_path), ":4:0"@),
            ).nodes);
        }
        Ok(graph)
    }

    /// The graph of a source that returns its first input times an item of
    /// the first dictionary that it builds.
    pub fn parse_binop(source: &str, source_path: &str) -> (r: Result<TorchScriptGraphSpec, ModelError>)
        ensures
            graph_result(r, spec_parse_binop(source@, source_path@)),
    {
        let input = parse_forward_input(source)?;
        let ls = str_lines(source);
        let dict_name = match first_dict(&ls) {
            Some(name) => name,
            None => return Err(invalid(Format::PyTorch, ErrorKind::Missing)),
        };
        let (index, body) = match first_return(&ls) {
            Some(found) => found,
            None => return Err(invalid(Format::PyTorch, ErrorKind::Missing)),
        };
        proof {
            lemma_first_line_map_bounds(str_views(ls@), return_body_of(), 0);
        }
        let (left, right) = match str_split_once(body, '*') {
            Some(parts) => parts,
            None => return Err(invalid(Format::PyTorch, ErrorKind::InvalidValue)),
        };
        if !str_eq(str_trim(left), input.as_str()) {
            return Err(invalid(Format::PyTorch, ErrorKind::InvalidValue));
        }
        let right = str_trim(right);
        let right_chars = str_chars(right);
        let bracket = match index_of_exec(right_chars.as_slice(), '[', 0) {
            Some(b) => b,
            None => return Err(invalid(Format::PyTorch, ErrorKind::InvalidValue)),
        };
        if !str_eq(str_trim(str_slice(right, 0, bracket)), dict_name.as_str()) {
            return Err(invalid(Format::PyTorch, ErrorKind::InvalidValue));
        }
        let line = ls[index];
        let line_chars = str_chars(line);
        proof {
            assert(line_chars@.len() == line_chars.len());
        }
        let column = match index_of_exec(line_chars.as_slice(), '[', 0) {
            Some(c) => prefix_byte_len(line, c),
            None => 0,
        };
        let input_value = first_value_name(input.as_str());
        let dict_value = first_value_name(dict_name.as_str());
        let mut values: Vec<TorchScriptValueSpec> = Vec::new();
        values.push(make_value(input_value.clone(), true, false));
        values.push(make_value(dict_value.clone(), false, false));
        values.push(make_value(String::from_str("%10"), false, false));
        values.push(make_value(String::from_str("%11"), false, true));
        let mut nodes: Vec<TorchScriptNodeSpec> = Vec::new();
        nodes.push(
            TorchScriptNodeSpec {
                operator: String::from_str("DictConstruct"),
                metadata: source_only(String::new()),
                inputs: names0(),
                outputs: names1(dict_value.clone()),
            },
        );
        nodes.push(
            TorchScriptNodeSpec {
                operator: String::from_str("__getitem__"),
                metadata: source_and_generated(
                    location(source_path, index + 1, column),
                    String::from_str(":0:0"),
                ),
                inputs: names1(dict_value),
                outputs: names1(String::from_str("%10")),
            },
        );
        nodes.push(
            TorchScriptNodeSpec {
                operator: String::from_str("mul"),
                metadata: source_only(String::new()),
                inputs: names2(input_value, String::from_str("%10")),
                outputs: names1(String::from_str("%11")),
            },
        );
        let graph = TorchScriptGraphSpec { values, nodes };
        proof {
            let expected = binop_graph(
                input@,
                dict_name@,
                spec_location(source_path@, index + 1, column as int),
            );
            assert(value_views(graph.values@) =~= expected.values);
            assert(node_views(graph.nodes@) =~= expected.nodes);
            assert(graph@ == expected);
            assert(str_views(ls@)[index as int] == line@);
            assert(line_chars@ == line@);
            assert(spec_parse_binop(source@, source_path@) == Ok::<GraphSpecView, ErrorKind>(expected));
        }
        Ok(graph)
    }

    /// The graph of a source that compares with `torch.eq` and branches on
    /// `if _0:`.
    pub fn parse_enum_control_flow(
        source: &str,
        source_path: &str,
        generated_path: Option<&str>,
    ) -> (r: Result<TorchScriptGraphSpec, ModelError>)
        ensures
            graph_result(
                r,
                spec_parse_enum_control_flow(source@, source_path@, path_view(generated_path)),
            ),
    {
        let input = parse_forward_input(source)?;
        let ls = str_lines(source);
        let (eq_index, eq_column) = match first_eq_call(&ls) {
            Some(found) => found,
            None => return Err(invalid(Format::PyTorch, ErrorKind::Missing)),
        };
        let (if_index, if_col) = match first_if_line(&ls) {
            Some(found) => found,
            None => return Err(invalid(Format::PyTorch, ErrorKind::Missing)),
        };
        proof {
            lemma_first_line_map_bounds(str_views(ls@), eq_call_of(), 0);
            lemma_first_line_map_bounds(str_views(ls@), if_column_of(), 0);
        }
        let mut values: Vec<TorchScriptValueSpec> = Vec::new();
        values.push(make_value(String::from_str("%6"), false, false));
        values.push(make_value(String::from_str("%41"), false, true));
        values.push(make_value(first_value_name(input.as_str()), true, false));
        let mut nodes: Vec<TorchScriptNodeSpec> = Vec::new();
        nodes.push(
            TorchScriptNodeSpec {
                operator: String::from_str("eq"),
                metadata: source_and_generated(
                    location(source_path, eq_index + 1, eq_column),
                    generated(generated_path, ":15:11"),
                ),
                inputs: names0(),
                outputs: names1(String::from_str("%6")),
            },
        );
        nodes.push(
            TorchScriptNodeSpec {
                operator: String::from_str("If"),
                metadata: source_and_generated(
                    location(source_path, if_index + 1, if_col),
                    generated(generated_path, ":15:8"),
                ),
                inputs: names1(String::from_str("%6")),
                outputs: names1(String::from_str("%41")),
            },
        );
        let graph = TorchScriptGraphSpec { values, nodes };
        proof {
            let expected = enum_graph(
                input@,
                spec_location(source_path@, eq_index + 1, eq_column as int),
                generated_location(path_view(generated_path), ":15:11"@),
                spec_location(source_path@, if_index + 1, if_col as int),
                generated_location(path_view(generated_path), ":15:8"@),
            );
            assert(value_views(graph.values@) =~= expected.values);
            assert(node_views(graph.nodes@) =~= expected.nodes);
            assert(graph@ == expected);
            assert(spec_parse_enum_control_flow(source@, source_path@, path_view(generated_path))
                == Ok::<GraphSpecView, ErrorKind>(expected));
        }
        Ok(graph)
    }
}

} // verus!
