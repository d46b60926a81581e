//! What the JSON of an exported program says: the names that an argument
//! gives, the names of a node's outputs, the program's inputs and outputs,
//! its version, its initializers and its dtypes.
use vstd::prelude::*;
use vstd::string::StringExecFns;
use crate::json::{
    JsonValue, JsonView, json_array, json_get, json_get_opt, json_i64, json_items, json_members,
    json_object, json_str, lemma_member_index, member_index, opt_get, opt_str,
};
use crate::pytorch::exported::{
    generated_name, sanitize_exported_program_json, spec_multi_output_node_base, spec_sanitize_json,
    spec_scalar_output_node_base,
};
use crate::pytorch::{py_error, py_read};
use crate::error::{ErrorKind, Format, ModelError, invalid};
use crate::json::{json_value_of, parse_json_str};
use vstd::utf8::encode_utf8;
use crate::fmt::{decimal, i64_to_string};
use crate::pytorch::modules::opt_view;
use crate::text::str_eq;

verus! {

// ---------------------------------------------------------------------------
// Reading the program's JSON

/// The value of an exported program's JSON text: what serde_json reads from
/// it, or else, when its non-finite numbers can be replaced by `null`, what
/// serde_json reads from the text so mended.
pub open spec fn spec_parse_exported_program_json(json: Seq<char>) -> Result<JsonView, ErrorKind> {
    match json_value_of(encode_utf8(json)) {
        Some(v) => Ok(v),
        None => match spec_sanitize_json(json) {
            Some(t) => if t == json {
                Err(ErrorKind::InvalidJson)
            } else {
                match json_value_of(encode_utf8(t)) {
                    Some(v) => Ok(v),
                    None => Err(ErrorKind::InvalidJson),
                }
            },
            None => Err(ErrorKind::InvalidJson),
        },
    }
}

/// Reads an exported program's JSON text, mending non-finite numbers when
/// the text as given is refused.
pub fn parse_exported_program_json(json: &str) -> (r: Result<JsonValue, ModelError>)
    ensures
        py_read(r, spec_parse_exported_program_json(json@)),
{
    if let Some(value) = parse_json_str(json) {
        return Ok(value);
    }
    match sanitize_exported_program_json(json) {
        Some(sanitized) => {
            if str_eq(sanitized.as_str(), json) {
                return Err(invalid(Format::PyTorch, ErrorKind::InvalidJson));
            }
            match parse_json_str(sanitized.as_str()) {
                Some(value) => Ok(value),
                None => Err(invalid(Format::PyTorch, ErrorKind::InvalidJson)),
            }
        },
        None => Err(invalid(Format::PyTorch, ErrorKind::InvalidJson)),
    }
}

// ---------------------------------------------------------------------------
// Names of arguments

/// The first name among `names`.
pub open spec fn first_name(names: Seq<Option<Seq<char>>>) -> Option<Seq<char>>
    decreases names.len(),
{
    if names.len() == 0 {
        None
    } else {
        match names[0] {
            Some(n) => Some(n),
            None => first_name(names.drop_first()),
        }
    }
}

/// Whether `kind` names a symbolic scalar argument.
pub open spec fn is_sym_kind(kind: Seq<char>) -> bool {
    kind == "as_sym_int"@ || kind == "as_sym_bool"@ || kind == "as_sym_float"@
}

/// Whether `kind` names a list of arguments that have names.
pub open spec fn is_named_list_kind(kind: Seq<char>) -> bool {
    kind == "as_tensors"@ || kind == "as_optional_tensors"@ || kind == "as_sym_ints"@ || kind
        == "as_sym_bools"@ || kind == "as_sym_floats"@
}

/// Whether `kind` names a list of constants.
pub open spec fn is_constant_list_kind(kind: Seq<char>) -> bool {
    kind == "as_ints"@ || kind == "as_bools"@
}

/// The keys of the lists of named arguments, in the order they are looked
/// for.
pub open spec fn named_list_keys() -> Seq<Seq<char>> {
    seq!["as_tensors"@, "as_optional_tensors"@, "as_sym_ints"@, "as_sym_bools"@, "as_sym_floats"@]
}

/// The keys of the lists of constants, in the order they are looked for.
pub open spec fn constant_list_keys() -> Seq<Seq<char>> {
    seq!["as_ints"@, "as_bools"@]
}

/// The index of the member named `key` when it holds a list.
pub open spec fn list_member(members: Seq<(Seq<char>, JsonView)>, key: Seq<char>) -> Option<int> {
    match member_index(members, key) {
        Some(i) => if members[i].1 is Array {
            Some(i)
        } else {
            None
        },
        None => None,
    }
}

/// The index of the member of the first key in `keys` that holds a list.
pub open spec fn first_list_member(members: Seq<(Seq<char>, JsonView)>, keys: Seq<Seq<char>>) -> Option<int>
    decreases keys.len(),
{
    if keys.len() == 0 {
        None
    } else {
        match list_member(members, keys[0]) {
            Some(i) => Some(i),
            None => first_list_member(members, keys.drop_first()),
        }
    }
}

/// The first member index of a key lies among the members.
pub proof fn lemma_first_list_member(members: Seq<(Seq<char>, JsonView)>, keys: Seq<Seq<char>>)
    ensures
        first_list_member(members, keys) matches Some(i) ==> 0 <= i < members.len()
            && members[i].1 is Array,
    decreases keys.len(),
{
    if keys.len() > 0 {
        lemma_member_index(members, keys[0], 0);
        lemma_first_list_member(members, keys.drop_first());
    }
}

/// A single name, or none.
pub open spec fn one_name(n: Option<Seq<char>>) -> Seq<Option<Seq<char>>> {
    match n {
        Some(x) => seq![Some(x)],
        None => Seq::empty(),
    }
}

/// The first name that each item gives.
pub open spec fn item_first_names(items: Seq<JsonView>) -> Seq<Option<Seq<char>>>
    decreases items,
{
    Seq::new(
        items.len(),
        |j: int|
            if 0 <= j < items.len() {
                proof {
                    assert(decreases_to!(items => items[j]));
                }
                first_name(spec_argument_names(items[j]))
            } else {
                arbitrary()
            },
    )
}

/// The names that an argument gives, in the form with `$type` and `$value`
/// or in the older form with one member per kind: a tensor or a name gives
/// its name, a symbolic scalar the names of its value, a list of tensors or
/// of symbolic scalars the first name of each item, and a list of constants
/// no name for each item.
pub open spec fn spec_argument_names(v: JsonView) -> Seq<Option<Seq<char>>>
    decreases v,
{
    match v {
        JsonView::Object(members) => {
            let kind = json_str(json_get(v, "$type"@));
            let vi = member_index(members, "$value"@);
            if kind is Some && vi is Some {
                let k = kind.unwrap();
                let i = vi.unwrap();
                proof {
                    lemma_member_index(members, "$value"@, 0);
                    assert(decreases_to!(v => members));
                    assert(decreases_to!(members => members[i]));
                    assert(decreases_to!(members[i] => members[i].1));
                }
                let payload = members[i].1;
                if k == "as_tensor"@ {
                    one_name(
                        match json_str(json_get(payload, "name"@)) {
                            Some(n) => Some(n),
                            None => json_str(Some(payload)),
                        },
                    )
                } else if is_sym_kind(k) {
                    spec_argument_names(payload)
                } else if k == "as_name"@ {
                    one_name(json_str(Some(payload)))
                } else if is_named_list_kind(k) {
                    match payload {
                        JsonView::Array(items) => item_first_names(items),
                        _ => Seq::empty(),
                    }
                } else if is_constant_list_kind(k) {
                    match payload {
                        JsonView::Array(items) => Seq::new(items.len(), |j: int| None),
                        _ => Seq::empty(),
                    }
                } else {
                    Seq::empty()
                }
            } else if json_str(json_get(v, "name"@)) is Some {
                one_name(json_str(json_get(v, "name"@)))
            } else if json_str(json_get(v, "as_name"@)) is Some {
                one_name(json_str(json_get(v, "as_name"@)))
            } else if json_str(json_get_opt(json_get(v, "as_tensor"@), "name"@)) is Some {
                one_name(json_str(json_get_opt(json_get(v, "as_tensor"@), "name"@)))
            } else if json_str(json_get_opt(json_get(v, "as_sym_int"@), "as_name"@)) is Some {
                one_name(json_str(json_get_opt(json_get(v, "as_sym_int"@), "as_name"@)))
            } else if json_str(json_get_opt(json_get(v, "as_sym_bool"@), "as_name"@)) is Some {
                one_name(json_str(json_get_opt(json_get(v, "as_sym_bool"@), "as_name"@)))
            } else if json_str(json_get_opt(json_get(v, "as_sym_float"@), "as_name"@)) is Some {
                one_name(json_str(json_get_opt(json_get(v, "as_sym_float"@), "as_name"@)))
            } else {
                proof {
                    assert(decreases_to!(v => members));
                }
                list_names(members)
            }
        },
        _ => Seq::empty(),
    }
}

/// The names of the first list among an argument's members: the first name
/// of each item of a list of named arguments, or no name for each item of a
/// list of constants.
pub open spec fn list_names(members: Seq<(Seq<char>, JsonView)>) -> Seq<Option<Seq<char>>>
    decreases members,
{
    match first_list_member(members, named_list_keys()) {
        Some(i) => {
            proof {
                lemma_first_list_member(members, named_list_keys());
                assert(decreases_to!(members => members[i]));
                assert(decreases_to!(members[i] => members[i].1));
            }
            match members[i].1 {
                JsonView::Array(items) => item_first_names(items),
                _ => Seq::empty(),
            }
        },
        None => match first_list_member(members, constant_list_keys()) {
            Some(i) => match members[i].1 {
                JsonView::Array(items) => Seq::new(items.len(), |j: int| None),
                _ => Seq::empty(),
            },
            None => Seq::empty(),
        },
    }
}

/// The views of optional names.
pub open spec fn name_views(v: Seq<Option<String>>) -> Seq<Option<Seq<char>>> {
    v.map_values(|n: Option<String>| opt_view(n))
}

/// An owned copy of an optional text.
fn owned(s: Option<&str>) -> (r: Option<String>)
    ensures
        opt_view(r) == match s {
            Some(x) => Some(x@),
            None => None::<Seq<char>>,
        },
{
    match s {
        Some(x) => Some(String::from_str(x)),
        None => None,
    }
}

/// A single name, or none.
fn one_name_exec(n: Option<String>) -> (r: Vec<Option<String>>)
    ensures
        name_views(r@) == one_name(opt_view(n)),
{
    let mut out: Vec<Option<String>> = Vec::new();
    if let Some(x) = n {
        out.push(Some(x));
    }
    proof {
        assert(name_views(out@) =~= one_name(opt_view(n)));
    }
    out
}

/// No name for each of `n` items.
fn no_names(n: usize) -> (r: Vec<Option<String>>)
    ensures
        name_views(r@) == Seq::new(n as nat, |j: int| None::<Seq<char>>),
{
    let mut out: Vec<Option<String>> = Vec::new();
    let mut i: usize = 0;
    while i < n
        invariant
            i <= n,
            out@.len() == i,
            forall|j: int| 0 <= j < i ==> (#[trigger] out@[j]) is None,
        decreases n - i,
    {
        out.push(None);
        i = i + 1;
    }
    proof {
        assert(name_views(out@) =~= Seq::new(n as nat, |j: int| None::<Seq<char>>));
    }
    out
}

/// The first name among `names`.
fn first_name_exec(names: Vec<Option<String>>) -> (r: Option<String>)
    ensures
        opt_view(r) == first_name(name_views(names@)),
{
    let ghost view = name_views(names@);
    let mut i: usize = 0;
    proof {
        assert(view.subrange(0, view.len() as int) =~= view);
    }
    while i < names.len()
        invariant
            view == name_views(names@),
            i <= names@.len(),
            first_name(view.subrange(i as int, view.len() as int)) == first_name(view),
        decreases names@.len() - i,
    {
        proof {
            assert(view.subrange(i as int, view.len() as int).drop_first() =~= view.subrange(
                i + 1,
                view.len() as int,
            ));
        }
        if let Some(n) = &names[i] {
            return Some(n.clone());
        }
        i = i + 1;
    }
    proof {
        assert(view.subrange(i as int, view.len() as int) =~= Seq::<Option<Seq<char>>>::empty());
    }
    None
}

/// The first name that each item gives.
fn item_first_names_exec(items: &Vec<JsonValue>) -> (r: Vec<Option<String>>)
    ensures
        name_views(r@) == item_first_names(json_items(items@)),
    decreases json_items(items@),
{
    let ghost view = json_items(items@);
    let mut out: Vec<Option<String>> = Vec::new();
    let mut i: usize = 0;
    while i < items.len()
        invariant
            view == json_items(items@),
            i <= items@.len(),
            out@.len() == i,
            forall|j: int| 0 <= j < i ==> opt_view(#[trigger] out@[j]) == first_name(spec_argument_names(view[j])),
        decreases items@.len() - i,
    {
        proof {
            assert(view[i as int] == items@[i as int]@);
            assert(decreases_to!(view => view[i as int]));
        }
        let names = exported_program_argument_names(&items[i]);
        out.push(first_name_exec(names));
        i = i + 1;
    }
    proof {
        assert(name_views(out@) =~= item_first_names(view));
    }
    out
}

/// The names that an argument gives.
pub fn exported_program_argument_names(value: &JsonValue) -> (r: Vec<Option<String>>)
    ensures
        name_views(r@) == spec_argument_names(value@),
    decreases value@,
{
    let members = match value {
        JsonValue::Object(members) => members,
        _ => {
            let out: Vec<Option<String>> = Vec::new();
            proof {
                assert(name_views(out@) =~= Seq::<Option<Seq<char>>>::empty());
            }
            return out;
        },
    };
    let ghost mv = json_members(members@);
    proof {
        assert(value@ == JsonView::Object(mv));
        lemma_member_index(mv, "$value"@, 0);
    }
    let kind = opt_str(value.get("$type"));
    let payload = value.get("$value");
    if let (Some(k), Some(payload)) = (kind, payload) {
        proof {
            let i = member_index(mv, "$value"@).unwrap();
            assert(payload@ == mv[i].1);
            assert(decreases_to!(value@ => mv));
            assert(decreases_to!(mv => mv[i]));
            assert(decreases_to!(mv[i] => mv[i].1));
        }
        if str_eq(k, "as_tensor") {
            let name = match opt_str(payload.get("name")) {
                Some(n) => Some(n),
                None => payload.as_str(),
            };
            return one_name_exec(owned(name));
        } else if str_eq(k, "as_sym_int") || str_eq(k, "as_sym_bool") || str_eq(k, "as_sym_float") {
            return exported_program_argument_names(payload);
        } else if str_eq(k, "as_name") {
            return one_name_exec(owned(payload.as_str()));
        } else if str_eq(k, "as_tensors") || str_eq(k, "as_optional_tensors") || str_eq(
            k,
            "as_sym_ints",
        ) || str_eq(k, "as_sym_bools") || str_eq(k, "as_sym_floats") {
            return match payload {
                JsonValue::Array(items) => {
                    proof {
                        assert(payload@ == JsonView::Array(json_items(items@)));
                        assert(decreases_to!(payload@ => json_items(items@)));
                    }
                    item_first_names_exec(items)
                },
                _ => {
                    let out: Vec<Option<String>> = Vec::new();
                    proof {
                        assert(name_views(out@) =~= Seq::<Option<Seq<char>>>::empty());
                    }
                    out
                },
            };
        } else if str_eq(k, "as_ints") || str_eq(k, "as_bools") {
            return match payload {
                JsonValue::Array(items) => no_names(items.len()),
                _ => {
                    let out: Vec<Option<String>> = Vec::new();
                    proof {
                        assert(name_views(out@) =~= Seq::<Option<Seq<char>>>::empty());
                    }
                    out
                },
            };
        } else {
            let out: Vec<Option<String>> = Vec::new();
            proof {
                assert(name_views(out@) =~= Seq::<Option<Seq<char>>>::empty());
            }
            return out;
        }
    }
    if let Some(n) = opt_str(value.get("name")) {
        return one_name_exec(Some(String::from_str(n)));
    }
    if let Some(n) = opt_str(value.get("as_name")) {
        return one_name_exec(Some(String::from_str(n)));
    }
    if let Some(n) = opt_str(opt_get(value.get("as_tensor"), "name")) {
        return one_name_exec(Some(String::from_str(n)));
    }
    if let Some(n) = opt_str(opt_get(value.get("as_sym_int"), "as_name")) {
        return one_name_exec(Some(String::from_str(n)));
    }
    if let Some(n) = opt_str(opt_get(value.get("as_sym_bool"), "as_name")) {
        return one_name_exec(Some(String::from_str(n)));
    }
    if let Some(n) = opt_str(opt_get(value.get("as_sym_float"), "as_name")) {
        return one_name_exec(Some(String::from_str(n)));
    }
    let named_keys: [&str; 5] = [
        "as_tensors",
        "as_optional_tensors",
        "as_sym_ints",
        "as_sym_bools",
        "as_sym_floats",
    ];
    let mut k: usize = 0;
    proof {
        assert(spec_argument_names(value@) == list_names(mv));
        lemma_first_list_member(mv, named_list_keys());
        assert(named_keys@.map_values(|s: &str| s@) =~= named_list_keys());
        assert(named_list_keys().subrange(0, 5) =~= named_list_keys());
    }
    while k < 5
        invariant
            k <= 5,
            value@ == JsonView::Object(mv),
            mv == json_members(members@),
            spec_argument_names(value@) == list_names(mv),
            named_keys@.map_values(|s: &str| s@) == named_list_keys(),
            first_list_member(mv, named_list_keys().subrange(k as int, 5)) == first_list_member(
                mv,
                named_list_keys(),
            ),
        decreases 5 - k,
    {
        proof {
            assert(named_list_keys().subrange(k as int, 5).drop_first() =~= named_list_keys().subrange(
                k + 1,
                5,
            ));
            assert(named_list_keys().subrange(k as int, 5)[0] == named_keys@[k as int]@);
            lemma_member_index(mv, named_keys@[k as int]@, 0);
        }
        if let Some(JsonValue::Array(items)) = value.get(named_keys[k]) {
            proof {
                let i = member_index(mv, named_keys@[k as int]@).unwrap();
                assert(mv[i].1 == JsonView::Array(json_items(items@)));
                assert(first_list_member(mv, named_list_keys()) == Some(i));
                assert(decreases_to!(value@ => mv));
                assert(decreases_to!(mv => mv[i]));
                assert(decreases_to!(mv[i] => mv[i].1));
                assert(decreases_to!(mv[i].1 => json_items(items@)));
            }
            return item_first_names_exec(items);
        }
        k = k + 1;
    }
    proof {
        assert(named_list_keys().subrange(5, 5) =~= Seq::<Seq<char>>::empty());
        lemma_member_index(mv, "as_ints"@, 0);
        lemma_member_index(mv, "as_bools"@, 0);
        assert(constant_list_keys().drop_first() =~= seq!["as_bools"@]);
        assert(seq!["as_bools"@].drop_first() =~= Seq::<Seq<char>>::empty());
    }
    proof {
        assert(first_list_member(mv, named_list_keys()) is None);
        assert(constant_list_keys()[0] == "as_ints"@);
        assert(constant_list_keys().drop_first()[0] == "as_bools"@);
    }
    if let Some(JsonValue::Array(items)) = value.get("as_ints") {
        proof {
            let i = member_index(mv, "as_ints"@).unwrap();
            assert(mv[i].1 == JsonView::Array(json_items(items@)));
            assert(list_member(mv, "as_ints"@) == Some(i));
            assert(first_list_member(mv, constant_list_keys()) == Some(i));
        }
        return no_names(items.len());
    }
    proof {
        assert(list_member(mv, "as_ints"@) is None);
    }
    if let Some(JsonValue::Array(items)) = value.get("as_bools") {
        proof {
            let i = member_index(mv, "as_bools"@).unwrap();
            assert(mv[i].1 == JsonView::Array(json_items(items@)));
            assert(list_member(mv, "as_bools"@) == Some(i));
            assert(first_list_member(mv, constant_list_keys().drop_first()) == Some(i));
            assert(first_list_member(mv, constant_list_keys()) == Some(i));
        }
        return no_names(items.len());
    }
    proof {
        assert(list_member(mv, "as_bools"@) is None);
        assert(first_list_member(mv, constant_list_keys().drop_first().drop_first()) is None);
        assert(first_list_member(mv, constant_list_keys().drop_first()) is None);
        assert(first_list_member(mv, constant_list_keys()) is None);
    }
    let out: Vec<Option<String>> = Vec::new();
    proof {
        assert(name_views(out@) =~= Seq::<Option<Seq<char>>>::empty());
    }
    out
}

/// The first name that an argument gives.
pub fn exported_program_argument_names_non_empty(value: &JsonValue) -> (r: Option<String>)
    ensures
        opt_view(r) == first_name(spec_argument_names(value@)),
{
    first_name_exec(exported_program_argument_names(value))
}

// ---------------------------------------------------------------------------
// Names of nodes

/// Whether an argument is a tensor: it has an `as_tensor` member, or its
/// `$type` is `as_tensor`.
pub open spec fn spec_has_tensor(v: JsonView) -> bool {
    json_get(v, "as_tensor"@) is Some || json_str(json_get(v, "$type"@)) == Some("as_tensor"@)
}

/// Whether an argument is a tensor.
pub fn exported_program_argument_has_tensor(value: &JsonValue) -> (r: bool)
    ensures
        r == spec_has_tensor(value@),
{
    if value.get("as_tensor").is_some() {
        return true;
    }
    match opt_str(value.get("$type")) {
        Some(kind) => str_eq(kind, "as_tensor"),
        None => false,
    }
}

/// The outputs of a node: the items of its `outputs` list.
pub open spec fn node_outputs(node: JsonView) -> Seq<JsonView> {
    match json_array(json_get(node, "outputs"@)) {
        Some(items) => items,
        None => Seq::empty(),
    }
}

/// The name of a node: the first name of its first output.
pub open spec fn spec_node_name(node: JsonView) -> Option<Seq<char>> {
    let outputs = node_outputs(node);
    if outputs.len() > 0 {
        first_name(spec_argument_names(outputs[0]))
    } else {
        None
    }
}

/// The name of a node.
pub fn exported_program_node_name(node: &JsonValue) -> (r: Option<String>)
    ensures
        opt_view(r) == spec_node_name(node@),
{
    let outputs = match node.get("outputs") {
        Some(v) => v.as_array(),
        None => None,
    };
    match outputs {
        Some(items) => if items.len() > 0 {
            proof {
                assert(json_items(items@)[0] == items@[0]@);
            }
            exported_program_argument_names_non_empty(&items[0])
        } else {
            None
        },
        None => None,
    }
}

/// The names among optional names.
pub open spec fn present_names(names: Seq<Option<Seq<char>>>) -> Seq<Seq<char>>
    decreases names.len(),
{
    if names.len() == 0 {
        Seq::empty()
    } else {
        let rest = present_names(names.drop_last());
        match names.last() {
            Some(n) => rest.push(n),
            None => rest,
        }
    }
}

/// The names that the outputs give, in order.
pub open spec fn output_names(outputs: Seq<JsonView>) -> Seq<Seq<char>>
    decreases outputs.len(),
{
    if outputs.len() == 0 {
        Seq::empty()
    } else {
        output_names(outputs.drop_last()) + present_names(spec_argument_names(outputs.last()))
    }
}

/// How a node is named: with a generated scalar name for the node and its
/// output, with a generated name for the node only, or by its output.
pub enum NodeNaming {
    Scalar,
    Multi,
    ByOutput,
}

/// How a node is named: a node whose outputs give no name, or whose one
/// named output is no tensor, is named like a scalar; one whose outputs give
/// several names gets a generated name of its own.
pub open spec fn node_naming(node: JsonView) -> NodeNaming {
    let outputs = node_outputs(node);
    let names = output_names(outputs);
    if names.len() == 0 {
        NodeNaming::Scalar
    } else if names.len() != 1 {
        NodeNaming::Multi
    } else if outputs.len() == 0 || !spec_has_tensor(outputs[0]) {
        NodeNaming::Scalar
    } else {
        NodeNaming::ByOutput
    }
}

/// The names of a node and of its output alias.
pub struct ExportedProgramNodeNames {
    pub node: Option<String>,
    pub output_alias: Option<String>,
}

/// The number of names that an argument gives.
fn present_count(names: &Vec<Option<String>>) -> (r: usize)
    ensures
        r == present_names(name_views(names@)).len(),
{
    let ghost view = name_views(names@);
    let mut n: usize = 0;
    let mut i: usize = 0;
    proof {
        assert(view.take(0) =~= Seq::<Option<Seq<char>>>::empty());
    }
    while i < names.len()
        invariant
            view == name_views(names@),
            i <= names@.len(),
            n == present_names(view.take(i as int)).len(),
            n <= i,
        decreases names@.len() - i,
    {
        proof {
            assert(view.take(i + 1).drop_last() =~= view.take(i as int));
        }
        if names[i].is_some() {
            n = n + 1;
        }
        i = i + 1;
    }
    proof {
        assert(view.take(names@.len() as int) =~= view);
    }
    n
}

/// The names of a node and of its output alias: generated from the base
/// names of its target and operator, or none when its output names it.
pub fn exported_program_node_names(
    node: &JsonValue,
    target: &str,
    operator: &str,
    generated_names: &mut crate::pytorch::exported::NameCounts,
) -> (r: ExportedProgramNodeNames)
    requires
        old(generated_names).count(spec_scalar_output_node_base(target@, operator@)) < usize::MAX,
        old(generated_names).count(spec_multi_output_node_base(target@, operator@)) < usize::MAX,
    ensures
        match node_naming(node@) {
            NodeNaming::Scalar => {
                let base = spec_scalar_output_node_base(target@, operator@);
                let name = generated_name(base, old(generated_names).count(base));
                &&& opt_view(r.node) == Some(name)
                &&& opt_view(r.output_alias) == Some(name)
                &&& final(generated_names).count(base) == old(generated_names).count(base) + 1
            },
            NodeNaming::Multi => {
                let base = spec_multi_output_node_base(target@, operator@);
                &&& opt_view(r.node) == Some(generated_name(base, old(generated_names).count(base)))
                &&& r.output_alias is None
                &&& final(generated_names).count(base) == old(generated_names).count(base) + 1
            },
            NodeNaming::ByOutput => r.node is None && r.output_alias is None && forall|b: Seq<char>|
                #[trigger] final(generated_names).count(b) == old(generated_names).count(b),
        },
{
    let outputs = match node.get("outputs") {
        Some(v) => v.as_array(),
        None => None,
    };
    let ghost ov = node_outputs(node@);
    let mut count: usize = 0;
    let mut first_has_tensor = false;
    if let Some(items) = outputs {
        proof {
            assert(ov == json_items(items@));
            assert(ov.take(0) =~= Seq::<JsonView>::empty());
        }
        let mut i: usize = 0;
        while i < items.len()
            invariant
                ov == json_items(items@),
                i <= items@.len(),
                count as int == output_names(ov.take(i as int)).len() || count >= 2,
                count <= 2,
                count >= 2 ==> output_names(ov.take(i as int)).len() >= 2,
            decreases items@.len() - i,
        {
            proof {
                assert(ov.take(i + 1).drop_last() =~= ov.take(i as int));
                assert(ov[i as int] == items@[i as int]@);
            }
            let names = exported_program_argument_names(&items[i]);
            let n = present_count(&names);
            if count < 2 {
                count = if n >= 2 {
                    2
                } else {
                    count + n
                };
                if count > 2 {
                    count = 2;
                }
            }
            i = i + 1;
        }
        proof {
            assert(ov.take(items@.len() as int) =~= ov);
        }
        if items.len() > 0 {
            proof {
                assert(ov[0] == items@[0]@);
            }
            first_has_tensor = exported_program_argument_has_tensor(&items[0]);
        }
    } else {
        proof {
            assert(ov =~= Seq::<JsonView>::empty());
        }
    }
    if count == 0 || (count == 1 && !first_has_tensor) {
        let name = crate::pytorch::exported::exported_program_unique_generated_name(
            crate::pytorch::exported::exported_program_scalar_output_node_base(target, operator),
            generated_names,
        );
        return ExportedProgramNodeNames { node: Some(name.clone()), output_alias: Some(name) };
    }
    if count != 1 {
        let name = crate::pytorch::exported::exported_program_unique_generated_name(
            crate::pytorch::exported::exported_program_multi_output_node_base(target, operator),
            generated_names,
        );
        return ExportedProgramNodeNames { node: Some(name), output_alias: None };
    }
    ExportedProgramNodeNames { node: None, output_alias: None }
}

// ---------------------------------------------------------------------------
// Signatures

/// The entry of a signature spec of the kind `kind`: its member of that name,
/// or its `$value` when its `$type` is that kind.
pub open spec fn spec_signature_entry(spec: JsonView, kind: Seq<char>) -> Option<JsonView> {
    match json_get(spec, kind) {
        Some(x) => Some(x),
        None => if json_str(json_get(spec, "$type"@)) == Some(kind) {
            json_get(spec, "$value"@)
        } else {
            None
        },
    }
}

/// The entry of a signature spec of the kind `kind`.
pub fn exported_program_signature_entry<'a>(spec: &'a JsonValue, kind: &str) -> (r: Option<&'a JsonValue>)
    ensures
        match spec_signature_entry(spec@, kind@) {
            Some(x) => r matches Some(v) && v@ == x,
            None => r is None,
        },
{
    if let Some(x) = spec.get(kind) {
        return Some(x);
    }
    let same = match opt_str(spec.get("$type")) {
        Some(t) => str_eq(t, kind),
        None => false,
    };
    if same {
        spec.get("$value")
    } else {
        None
    }
}

/// Whether a tensor value is a scalar: the sizes of its `meta` (or of itself)
/// are an empty list.
pub open spec fn spec_is_scalar(tensor: JsonView) -> bool {
    let meta = match json_get(tensor, "meta"@) {
        Some(m) => m,
        None => tensor,
    };
    match json_array(json_get(meta, "sizes"@)) {
        Some(items) => items.len() == 0,
        None => false,
    }
}

/// Whether a tensor value is a scalar.
pub fn exported_program_tensor_value_is_scalar(tensor: &JsonValue) -> (r: bool)
    ensures
        r == spec_is_scalar(tensor@),
{
    let meta = match tensor.get("meta") {
        Some(m) => m,
        None => tensor,
    };
    match opt_get(Some(meta), "sizes") {
        Some(v) => match v.as_array() {
            Some(items) => items.len() == 0,
            None => false,
        },
        None => false,
    }
}

/// The member of an optional object named `key`.
pub open spec fn object_get(members: Option<Seq<(Seq<char>, JsonView)>>, key: Seq<char>) -> Option<JsonView> {
    match members {
        Some(m) => json_get(JsonView::Object(m), key),
        None => None,
    }
}

/// Whether an output of the graph is kept: the user names it, or it is a
/// mutated buffer whose tensor value is a scalar.
pub open spec fn keeps_output(
    name: Seq<char>,
    user_outputs: Seq<Seq<char>>,
    buffers: Option<Seq<(Seq<char>, JsonView)>>,
    tensor_values: Option<Seq<(Seq<char>, JsonView)>>,
) -> bool {
    user_outputs.contains(name) || (object_get(buffers, name) is Some && match object_get(
        tensor_values,
        name,
    ) {
        Some(t) => spec_is_scalar(t),
        None => false,
    })
}

/// The names of the graph's outputs that it keeps, in order.
pub open spec fn kept_outputs(
    outputs: Seq<JsonView>,
    user_outputs: Seq<Seq<char>>,
    buffers: Option<Seq<(Seq<char>, JsonView)>>,
    tensor_values: Option<Seq<(Seq<char>, JsonView)>>,
) -> Seq<Seq<char>>
    decreases outputs.len(),
{
    if outputs.len() == 0 {
        Seq::empty()
    } else {
        let rest = kept_outputs(outputs.drop_last(), user_outputs, buffers, tensor_values);
        match first_name(spec_argument_names(outputs.last())) {
            Some(n) => if keeps_output(n, user_outputs, buffers, tensor_values) {
                rest.push(n)
            } else {
                rest
            },
            None => rest,
        }
    }
}

/// The graph of a program.
pub open spec fn program_graph(program: JsonView) -> Option<JsonView> {
    json_get_opt(json_get(program, "graph_module"@), "graph"@)
}

/// The signature of a program.
pub open spec fn program_signature(program: JsonView) -> Option<JsonView> {
    json_get_opt(json_get(program, "graph_module"@), "signature"@)
}

/// The outputs of the graph that the user names or that are mutated scalar
/// buffers; none when the graph has no outputs or keeps none.
pub open spec fn spec_graph_output_names(program: JsonView, user_outputs: Seq<Seq<char>>) -> Option<Seq<Seq<char>>> {
    match program_graph(program) {
        None => None,
        Some(graph) => match json_array(json_get(graph, "outputs"@)) {
            None => None,
            Some(outputs) => {
                let kept = kept_outputs(
                    outputs,
                    user_outputs,
                    json_object(json_get_opt(program_signature(program), "buffers_to_mutate"@)),
                    json_object(json_get(graph, "tensor_values"@)),
                );
                if kept.len() == 0 {
                    None
                } else {
                    Some(kept)
                }
            },
        },
    }
}

/// The views of texts.
pub open spec fn text_views(v: Seq<String>) -> Seq<Seq<char>> {
    v.map_values(|s: String| s@)
}

/// Whether `names` holds `name`.
fn holds_name(names: &Vec<String>, name: &str) -> (r: bool)
    ensures
        r == text_views(names@).contains(name@),
{
    let ghost view = text_views(names@);
    let mut i: usize = 0;
    while i < names.len()
        invariant
            view == text_views(names@),
            i <= names@.len(),
            forall|k: int| 0 <= k < i ==> view[k] != name@,
        decreases names@.len() - i,
    {
        proof {
            assert(view[i as int] == names@[i as int]@);
        }
        if str_eq(names[i].as_str(), name) {
            return true;
        }
        i = i + 1;
    }
    false
}

/// The outputs of the graph that the user names or that are mutated scalar
/// buffers.
pub fn exported_program_graph_output_names(program: &JsonValue, user_outputs: &Vec<String>) -> (r: Option<
    Vec<String>,
>)
    ensures
        match spec_graph_output_names(program@, text_views(user_outputs@)) {
            Some(names) => r matches Some(v) && text_views(v@) == names,
            None => r is None,
        },
{
    let graph = match opt_get(program.get("graph_module"), "graph") {
        Some(g) => g,
        None => return None,
    };
    let tensor_values = match graph.get("tensor_values") {
        Some(v) => v.as_object(),
        None => None,
    };
    let buffers = match opt_get(opt_get(program.get("graph_module"), "signature"), "buffers_to_mutate") {
        Some(v) => v.as_object(),
        None => None,
    };
    let outputs = match graph.get("outputs") {
        Some(v) => match v.as_array() {
            Some(items) => items,
            None => return None,
        },
        None => return None,
    };
    let ghost ov = json_items(outputs@);
    let ghost bv = json_object(json_get_opt(program_signature(program@), "buffers_to_mutate"@));
    let ghost tv = json_object(json_get(graph@, "tensor_values"@));
    let ghost uv = text_views(user_outputs@);
    let mut kept: Vec<String> = Vec::new();
    let mut i: usize = 0;
    proof {
        assert(ov.take(0) =~= Seq::<JsonView>::empty());
        assert(text_views(kept@) =~= Seq::<Seq<char>>::empty());
    }
    while i < outputs.len()
        invariant
            ov == json_items(outputs@),
            i <= outputs@.len(),
            bv == match buffers {
                Some(b) => Some(json_members(b@)),
                None => None::<Seq<(Seq<char>, JsonView)>>,
            },
            tv == match tensor_values {
                Some(t) => Some(json_members(t@)),
                None => None::<Seq<(Seq<char>, JsonView)>>,
            },
            uv == text_views(user_outputs@),
            text_views(kept@) == kept_outputs(ov.take(i as int), uv, bv, tv),
        decreases outputs@.len() - i,
    {
        proof {
            assert(ov.take(i + 1).drop_last() =~= ov.take(i as int));
            assert(ov[i as int] == outputs@[i as int]@);
        }
        if let Some(name) = exported_program_argument_names_non_empty(&outputs[i]) {
            let mut keep = holds_name(user_outputs, name.as_str());
            if !keep {
                if let Some(b) = buffers {
                    if find_member(b, name.as_str()).is_some() {
                        keep = match tensor_values {
                            Some(t) => match find_member(t, name.as_str()) {
                                Some(k) => {
                                    proof {
                                        assert(json_members(t@)[k as int].1 == t@[k as int].1@);
                                    }
                                    exported_program_tensor_value_is_scalar(&t[k].1)
                                },
                                None => false,
                            },
                            None => false,
                        };
                    }
                }
            }
            let ghost before = text_views(kept@);
            if keep {
                kept.push(name);
                proof {
                    assert(text_views(kept@) =~= before.push(kept@.last()@));
                }
            }
        }
        i = i + 1;
    }
    proof {
        assert(ov.take(outputs@.len() as int) =~= ov);
    }
    if kept.len() == 0 {
        None
    } else {
        Some(kept)
    }
}

/// The index of the member named `key`.
pub fn find_member(members: &Vec<(String, JsonValue)>, key: &str) -> (r: Option<usize>)
    ensures
        match member_index(json_members(members@), key@) {
            Some(i) => r matches Some(k) && k == i && 0 <= i < members@.len(),
            None => r is None,
        },
{
    let ghost view = json_members(members@);
    proof {
        lemma_member_index(view, key@, 0);
    }
    let mut i: usize = 0;
    while i < members.len()
        invariant
            view == json_members(members@),
            i <= members@.len(),
            crate::json::member_index_from(view, key@, i as int) == member_index(view, key@),
        decreases members@.len() - i,
    {
        proof {
            assert(view[i as int] == (members@[i as int].0@, members@[i as int].1@));
        }
        if str_eq(members[i].0.as_str(), key) {
            return Some(i);
        }
        i = i + 1;
    }
    None
}

/// The texts among values, in order.
pub open spec fn texts_of(values: Seq<JsonView>) -> Seq<Seq<char>>
    decreases values.len(),
{
    if values.len() == 0 {
        Seq::empty()
    } else {
        let rest = texts_of(values.drop_last());
        match values.last() {
            JsonView::String(s) => rest.push(s),
            _ => rest,
        }
    }
}

/// The name of the argument of a user input (or output) spec.
pub open spec fn spec_user_name(spec: JsonView, inputs: bool) -> Option<Seq<char>> {
    match spec_signature_entry(spec, if inputs { "user_input"@ } else { "user_output"@ }) {
        None => None,
        Some(entry) => match json_get(entry, "arg"@) {
            None => None,
            Some(arg) => first_name(spec_argument_names(arg)),
        },
    }
}

/// The names of the user input (or output) specs, in order.
pub open spec fn user_names(specs: Seq<JsonView>, inputs: bool) -> Seq<Seq<char>>
    decreases specs.len(),
{
    if specs.len() == 0 {
        Seq::empty()
    } else {
        let rest = user_names(specs.drop_last(), inputs);
        match spec_user_name(specs.last(), inputs) {
            Some(n) => rest.push(n),
            None => rest,
        }
    }
}

/// The names of a program's inputs (or outputs): the texts of the older
/// `user_inputs` (`user_outputs`) list, where the outputs are the graph's
/// kept outputs when there are some; or else the names of the user specs
/// among `input_specs` (`output_specs`).
pub open spec fn spec_signature_names(program: JsonView, inputs: bool) -> Seq<Seq<char>> {
    match program_signature(program) {
        None => Seq::empty(),
        Some(signature) => match json_array(
            json_get(signature, if inputs { "user_inputs"@ } else { "user_outputs"@ }),
        ) {
            Some(values) => {
                let names = texts_of(values);
                if inputs {
                    names
                } else {
                    match spec_graph_output_names(program, names) {
                        Some(g) => g,
                        None => names,
                    }
                }
            },
            None => match json_array(
                json_get(signature, if inputs { "input_specs"@ } else { "output_specs"@ }),
            ) {
                Some(specs) => user_names(specs, inputs),
                None => Seq::empty(),
            },
        },
    }
}

/// The names of a program's inputs (or outputs).
pub fn exported_program_signature_names(program: &JsonValue, inputs: bool) -> (r: Vec<String>)
    ensures
        text_views(r@) == spec_signature_names(program@, inputs),
{
    let mut out: Vec<String> = Vec::new();
    proof {
        assert(text_views(out@) =~= Seq::<Seq<char>>::empty());
    }
    let signature = match opt_get(program.get("graph_module"), "signature") {
        Some(s) => s,
        None => return out,
    };
    let legacy_key = if inputs {
        "user_inputs"
    } else {
        "user_outputs"
    };
    if let Some(v) = signature.get(legacy_key) {
        if let Some(values) = v.as_array() {
            let ghost vv = json_items(values@);
            let mut i: usize = 0;
            proof {
                assert(vv.take(0) =~= Seq::<JsonView>::empty());
            }
            while i < values.len()
                invariant
                    vv == json_items(values@),
                    i <= values@.len(),
                    text_views(out@) == texts_of(vv.take(i as int)),
                decreases values@.len() - i,
            {
                proof {
                    assert(vv.take(i + 1).drop_last() =~= vv.take(i as int));
                    assert(vv[i as int] == values@[i as int]@);
                }
                let ghost before = text_views(out@);
                if let Some(s) = values[i].as_str() {
                    out.push(String::from_str(s));
                    proof {
                        assert(text_views(out@) =~= before.push(s@));
                    }
                }
                i = i + 1;
            }
            proof {
                assert(vv.take(values@.len() as int) =~= vv);
            }
            if inputs {
                return out;
            }
            return match exported_program_graph_output_names(program, &out) {
                Some(g) => g,
                None => out,
            };
        }
    }
    let key = if inputs {
        "input_specs"
    } else {
        "output_specs"
    };
    let kind = if inputs {
        "user_input"
    } else {
        "user_output"
    };
    let specs = match signature.get(key) {
        Some(v) => match v.as_array() {
            Some(items) => items,
            None => return out,
        },
        None => return out,
    };
    let ghost sv = json_items(specs@);
    let mut i: usize = 0;
    proof {
        assert(sv.take(0) =~= Seq::<JsonView>::empty());
    }
    while i < specs.len()
        invariant
            sv == json_items(specs@),
            i <= specs@.len(),
            kind@ == (if inputs { "user_input"@ } else { "user_output"@ }),
            text_views(out@) == user_names(sv.take(i as int), inputs),
        decreases specs@.len() - i,
    {
        proof {
            assert(sv.take(i + 1).drop_last() =~= sv.take(i as int));
            assert(sv[i as int] == specs@[i as int]@);
        }
        let name = match exported_program_signature_entry(&specs[i], kind) {
            Some(entry) => match entry.get("arg") {
                Some(arg) => exported_program_argument_names_non_empty(arg),
                None => None,
            },
            None => None,
        };
        let ghost before = text_views(out@);
        if let Some(n) = name {
            out.push(n);
            proof {
                assert(text_views(out@) =~= before.push(out@.last()@));
            }
        }
        i = i + 1;
    }
    proof {
        assert(sv.take(specs@.len() as int) =~= sv);
    }
    out
}

// ---------------------------------------------------------------------------
// Versions, integers and shapes

/// The schema version of a program: an integer, or `major.minor` when
/// neither is zero.
pub open spec fn spec_schema_version(program: JsonView) -> Option<Seq<char>> {
    match json_get(program, "schema_version"@) {
        None => None,
        Some(schema) => match json_i64(Some(schema)) {
            Some(v) => Some(decimal(v as int)),
            None => match (json_i64(json_get(schema, "major"@)), json_i64(json_get(schema, "minor"@))) {
                (Some(major), Some(minor)) => if major == 0 || minor == 0 {
                    None
                } else {
                    Some(decimal(major as int) + "."@ + decimal(minor as int))
                },
                _ => None,
            },
        },
    }
}

/// The schema version of a program.
pub fn exported_program_schema_version(program: &JsonValue) -> (r: Option<String>)
    ensures
        opt_view(r) == spec_schema_version(program@),
{
    let schema = program.get("schema_version")?;
    if let Some(v) = schema.as_i64() {
        return Some(i64_to_string(v));
    }
    let major = match schema.get("major") {
        Some(m) => m.as_i64(),
        None => None,
    }?;
    let minor = match schema.get("minor") {
        Some(m) => m.as_i64(),
        None => None,
    }?;
    if major == 0 || minor == 0 {
        return None;
    }
    let mut text = i64_to_string(major);
    text.append(".");
    text.append(i64_to_string(minor).as_str());
    Some(text)
}

/// The integer of an argument: its `as_int` member, or its `$value` when its
/// `$type` is `as_int`.
pub open spec fn spec_exported_i64(value: JsonView) -> Option<i64> {
    match json_i64(json_get(value, "as_int"@)) {
        Some(v) => Some(v),
        None => if json_str(json_get(value, "$type"@)) == Some("as_int"@) {
            json_i64(json_get(value, "$value"@))
        } else {
            None
        },
    }
}

/// The integer of an argument.
pub fn exported_program_i64(value: &JsonValue) -> (r: Option<i64>)
    ensures
        r == spec_exported_i64(value@),
{
    if let Some(v) = value.get("as_int") {
        if let Some(i) = v.as_i64() {
            return Some(i);
        }
    }
    let is_int = match opt_str(value.get("$type")) {
        Some(t) => str_eq(t, "as_int"),
        None => false,
    };
    if is_int {
        match value.get("$value") {
            Some(v) => v.as_i64(),
            None => None,
        }
    } else {
        None
    }
}

/// The expression of an argument: its `as_expr` member, or its `$value` when
/// its `$type` is `as_expr`.
pub open spec fn spec_exported_expr(value: JsonView) -> Option<JsonView> {
    spec_signature_entry(value, "as_expr"@)
}

/// The expression of an argument.
pub fn exported_program_expr(value: &JsonValue) -> (r: Option<&JsonValue>)
    ensures
        match spec_exported_expr(value@) {
            Some(x) => r matches Some(v) && v@ == x,
            None => r is None,
        },
{
    exported_program_signature_entry(value, "as_expr")
}

/// The integers of sizes, when each is one.
pub open spec fn sizes_ints(items: Seq<JsonView>) -> Option<Seq<i64>>
    decreases items.len(),
{
    if items.len() == 0 {
        Some(Seq::empty())
    } else {
        match sizes_ints(items.drop_last()) {
            None => None,
            Some(rest) => match spec_exported_i64(items.last()) {
                Some(v) => Some(rest.push(v)),
                None => None,
            },
        }
    }
}

/// A shape that is known: the integers of the `sizes` of a tensor's meta,
/// when each is an integer.
pub open spec fn spec_known_shape(meta: JsonView) -> Option<Seq<i64>> {
    match json_array(json_get(meta, "sizes"@)) {
        Some(items) => sizes_ints(items),
        None => None,
    }
}

/// A shape that is missing its integer at the first size that has none.
pub proof fn lemma_sizes_none_stays(items: Seq<JsonView>, j: int)
    requires
        0 <= j <= items.len(),
        sizes_ints(items.take(j)) is None,
    ensures
        sizes_ints(items) is None,
    decreases items.len() - j,
{
    if j < items.len() {
        assert(items.take(j + 1).drop_last() =~= items.take(j));
        lemma_sizes_none_stays(items, j + 1);
    } else {
        assert(items.take(j) =~= items);
    }
}

/// A shape that is known.
pub fn exported_program_known_shape(meta: &JsonValue) -> (r: Option<Vec<i64>>)
    ensures
        match spec_known_shape(meta@) {
            Some(s) => r matches Some(v) && v@ == s,
            None => r is None,
        },
{
    let items = match meta.get("sizes") {
        Some(v) => v.as_array(),
        None => None,
    }?;
    let ghost iv = json_items(items@);
    let mut out: Vec<i64> = Vec::new();
    let mut i: usize = 0;
    proof {
        assert(iv.take(0) =~= Seq::<JsonView>::empty());
        assert(out@ =~= Seq::<i64>::empty());
    }
    while i < items.len()
        invariant
            iv == json_items(items@),
            spec_known_shape(meta@) == sizes_ints(iv),
            i <= items@.len(),
            sizes_ints(iv.take(i as int)) == Some(out@),
        decreases items@.len() - i,
    {
        proof {
            assert(iv.take(i + 1).drop_last() =~= iv.take(i as int));
            assert(iv[i as int] == items@[i as int]@);
        }
        match exported_program_i64(&items[i]) {
            Some(v) => out.push(v),
            None => {
                proof {
                    lemma_sizes_none_stays(iv, i + 1);
                }
                return None;
            },
        }
        i = i + 1;
    }
    proof {
        assert(iv.take(items@.len() as int) =~= iv);
    }
    Some(out)
}

// ---------------------------------------------------------------------------
// Initializers

/// The members whose values are texts, as pairs of key and text.
pub open spec fn text_members(members: Seq<(Seq<char>, JsonView)>) -> Seq<(Seq<char>, Seq<char>)>
    decreases members.len(),
{
    if members.len() == 0 {
        Seq::empty()
    } else {
        let rest = text_members(members.drop_last());
        match members.last().1 {
            JsonView::String(t) => rest.push((members.last().0, t)),
            _ => rest,
        }
    }
}

/// The initializer that an input spec names: its argument's name and the
/// name of its parameter, buffer or tensor constant.
pub open spec fn spec_spec_initializer(spec: JsonView) -> Option<(Seq<char>, Seq<char>)> {
    let choice = match spec_signature_entry(spec, "parameter"@) {
        Some(e) => Some((e, "parameter_name"@)),
        None => match spec_signature_entry(spec, "buffer"@) {
            Some(e) => Some((e, "buffer_name"@)),
            None => match spec_signature_entry(spec, "tensor_constant"@) {
                Some(e) => Some((e, "tensor_constant_name"@)),
                None => None,
            },
        },
    };
    match choice {
        None => None,
        Some((entry, key)) => match json_get(entry, "arg"@) {
            None => None,
            Some(arg) => match first_name(spec_argument_names(arg)) {
                None => None,
                Some(a) => match json_str(json_get(entry, key)) {
                    None => None,
                    Some(n) => Some((a, n)),
                },
            },
        },
    }
}

/// The initializers that input specs name, in order.
pub open spec fn spec_initializers_of(specs: Seq<JsonView>) -> Seq<(Seq<char>, Seq<char>)>
    decreases specs.len(),
{
    if specs.len() == 0 {
        Seq::empty()
    } else {
        let rest = spec_initializers_of(specs.drop_last());
        match spec_spec_initializer(specs.last()) {
            Some(p) => rest.push(p),
            None => rest,
        }
    }
}

/// The text members of the object under `key`, if any.
pub open spec fn text_members_of(sig: JsonView, key: Seq<char>) -> Seq<(Seq<char>, Seq<char>)> {
    match json_object(json_get(sig, key)) {
        Some(m) => text_members(m),
        None => Seq::empty(),
    }
}

/// The initializers of a program, as pairs of argument and name: those of
/// its parameter and tensor constant maps, then those that its input specs
/// name.
pub open spec fn spec_initializer_specs(program: JsonView) -> Seq<(Seq<char>, Seq<char>)> {
    match program_signature(program) {
        None => Seq::empty(),
        Some(sig) => text_members_of(sig, "inputs_to_parameters"@) + text_members_of(
            sig,
            "inputs_to_lifted_tensor_constants"@,
        ) + match json_array(json_get(sig, "input_specs"@)) {
            Some(specs) => spec_initializers_of(specs),
            None => Seq::empty(),
        },
    }
}

/// The views of pairs of texts.
pub open spec fn pair_views(v: Seq<(String, String)>) -> Seq<(Seq<char>, Seq<char>)> {
    v.map_values(|p: (String, String)| (p.0@, p.1@))
}

/// Adds the text members of the object under `key`.
fn push_text_members(out: &mut Vec<(String, String)>, sig: &JsonValue, key: &str)
    ensures
        pair_views(final(out)@) == pair_views(old(out)@) + text_members_of(sig@, key@),
{
    let ghost start = pair_views(out@);
    let members = match sig.get(key) {
        Some(v) => match v.as_object() {
            Some(m) => m,
            None => {
                proof {
                    assert(start + Seq::<(Seq<char>, Seq<char>)>::empty() =~= start);
                }
                return;
            },
        },
        None => {
            proof {
                assert(start + Seq::<(Seq<char>, Seq<char>)>::empty() =~= start);
            }
            return;
        },
    };
    let ghost mv = json_members(members@);
    let mut i: usize = 0;
    proof {
        assert(mv.take(0) =~= Seq::<(Seq<char>, JsonView)>::empty());
        assert(start + text_members(mv.take(0)) =~= start);
    }
    while i < members.len()
        invariant
            mv == json_members(members@),
            i <= members@.len(),
            pair_views(out@) == start + text_members(mv.take(i as int)),
        decreases members@.len() - i,
    {
        proof {
            assert(mv.take(i + 1).drop_last() =~= mv.take(i as int));
            assert(mv[i as int] == (members@[i as int].0@, members@[i as int].1@));
        }
        let ghost before = pair_views(out@);
        if let Some(t) = members[i].1.as_str() {
            out.push((members[i].0.clone(), String::from_str(t)));
            proof {
                assert(pair_views(out@) =~= before.push((mv[i as int].0, t@)));
            }
        }
        i = i + 1;
    }
    proof {
        assert(mv.take(members@.len() as int) =~= mv);
    }
}

/// The initializer that an input spec names.
fn spec_initializer(spec: &JsonValue) -> (r: Option<(String, String)>)
    ensures
        match spec_spec_initializer(spec@) {
            Some((a, n)) => r matches Some(p) && p.0@ == a && p.1@ == n,
            None => r is None,
        },
{
    let (entry, key) = match exported_program_signature_entry(spec, "parameter") {
        Some(e) => (e, "parameter_name"),
        None => match exported_program_signature_entry(spec, "buffer") {
            Some(e) => (e, "buffer_name"),
            None => match exported_program_signature_entry(spec, "tensor_constant") {
                Some(e) => (e, "tensor_constant_name"),
                None => return None,
            },
        },
    };
    let arg = entry.get("arg")?;
    let a = exported_program_argument_names_non_empty(arg)?;
    let n = opt_str(entry.get(key))?;
    Some((a, String::from_str(n)))
}

/// The initializers of a program, as pairs of argument and name.
pub fn exported_program_initializer_specs(program: &JsonValue) -> (r: Vec<(String, String)>)
    ensures
        pair_views(r@) == spec_initializer_specs(program@),
{
    let mut out: Vec<(String, String)> = Vec::new();
    proof {
        assert(pair_views(out@) =~= Seq::<(Seq<char>, Seq<char>)>::empty());
    }
    let sig = match opt_get(program.get("graph_module"), "signature") {
        Some(s) => s,
        None => return out,
    };
    push_text_members(&mut out, sig, "inputs_to_parameters");
    push_text_members(&mut out, sig, "inputs_to_lifted_tensor_constants");
    let ghost start = pair_views(out@);
    let specs = match sig.get("input_specs") {
        Some(v) => match v.as_array() {
            Some(items) => items,
            None => {
                proof {
                    assert(start + Seq::<(Seq<char>, Seq<char>)>::empty() =~= start);
                }
                return out;
            },
        },
        None => {
            proof {
                assert(start + Seq::<(Seq<char>, Seq<char>)>::empty() =~= start);
            }
            return out;
        },
    };
    let ghost sv = json_items(specs@);
    let mut i: usize = 0;
    proof {
        assert(sv.take(0) =~= Seq::<JsonView>::empty());
        assert(start + spec_initializers_of(sv.take(0)) =~= start);
    }
    while i < specs.len()
        invariant
            sv == json_items(specs@),
            i <= specs@.len(),
            pair_views(out@) == start + spec_initializers_of(sv.take(i as int)),
        decreases specs@.len() - i,
    {
        proof {
            assert(sv.take(i + 1).drop_last() =~= sv.take(i as int));
            assert(sv[i as int] == specs@[i as int]@);
        }
        let ghost before = pair_views(out@);
        if let Some(p) = spec_initializer(&specs[i]) {
            out.push(p);
            proof {
                assert(pair_views(out@) =~= before.push((out@.last().0@, out@.last().1@)));
            }
        }
        i = i + 1;
    }
    proof {
        assert(sv.take(specs@.len() as int) =~= sv);
    }
    out
}

} // verus!
