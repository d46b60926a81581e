//! What a legacy TorchScript `model.json` and tensor specs say of tensors:
//! element types by name, and the dimensions of a tensor.
use vstd::prelude::*;
use crate::chars::{parse_i64, parse_i64_exec, parse_usize, parse_usize_exec};
use vstd::string::StringExecFns;
use crate::error::{ErrorKind, Format, ModelError, invalid};
use crate::json::{
    JsonValue, JsonView, json_array, json_get, json_get_opt, json_items, json_members, json_str, lemma_member_index,
    member_index, opt_get, opt_str,
};
use crate::pytorch::exported_json::find_member;
use crate::pytorch::dtypes::{TensorElementType, element_width};
use crate::pytorch::py_error;
use crate::text::str_eq;

verus! {

/// The element type that a normalized type name gives.
pub open spec fn spec_normalized_element_type(value: Seq<char>) -> Option<TensorElementType> {
    if value == "float16"@ {
        Some(TensorElementType::Float16)
    } else if value == "float32"@ {
        Some(TensorElementType::Float32)
    } else if value == "float64"@ {
        Some(TensorElementType::Float64)
    } else if value == "int8"@ {
        Some(TensorElementType::Int8)
    } else if value == "int16"@ {
        Some(TensorElementType::Int16)
    } else if value == "int32"@ {
        Some(TensorElementType::Int32)
    } else if value == "int64"@ {
        Some(TensorElementType::Int64)
    } else if value == "uint8"@ {
        Some(TensorElementType::Uint8)
    } else if value == "boolean"@ {
        Some(TensorElementType::Bool)
    } else if value == "quint8"@ {
        Some(TensorElementType::Other("quint8"))
    } else if value == "qint32"@ {
        Some(TensorElementType::Other("qint32"))
    } else if value == "quint4x2"@ {
        Some(TensorElementType::Other("quint4x2"))
    } else {
        None
    }
}

/// The element type that a normalized type name gives; other names are
/// refused as unsupported.
pub fn normalized_tensor_element_type(value: &str) -> (r: Result<TensorElementType, ModelError>)
    ensures
        match spec_normalized_element_type(value@) {
            Some(t) => r == Ok::<TensorElementType, ModelError>(t),
            None => r == Err::<TensorElementType, ModelError>(py_error(ErrorKind::Unsupported)),
        },
{
    proof {
        reveal_strlit("float16");
    }
    proof {
        reveal_strlit("float32");
    }
    proof {
        reveal_strlit("float64");
    }
    proof {
        reveal_strlit("int8");
    }
    proof {
        reveal_strlit("int16");
    }
    proof {
        reveal_strlit("int32");
    }
    proof {
        reveal_strlit("int64");
    }
    proof {
        reveal_strlit("uint8");
    }
    proof {
        reveal_strlit("boolean");
    }
    proof {
        reveal_strlit("quint8");
    }
    proof {
        reveal_strlit("qint32");
    }
    proof {
        reveal_strlit("quint4x2");
    }
    if str_eq(value, "float16") {
        Ok(TensorElementType::Float16)
    } else if str_eq(value, "float32") {
        Ok(TensorElementType::Float32)
    } else if str_eq(value, "float64") {
        Ok(TensorElementType::Float64)
    } else if str_eq(value, "int8") {
        Ok(TensorElementType::Int8)
    } else if str_eq(value, "int16") {
        Ok(TensorElementType::Int16)
    } else if str_eq(value, "int32") {
        Ok(TensorElementType::Int32)
    } else if str_eq(value, "int64") {
        Ok(TensorElementType::Int64)
    } else if str_eq(value, "uint8") {
        Ok(TensorElementType::Uint8)
    } else if str_eq(value, "boolean") {
        Ok(TensorElementType::Bool)
    } else if str_eq(value, "quint8") {
        Ok(TensorElementType::Other("quint8"))
    } else if str_eq(value, "qint32") {
        Ok(TensorElementType::Other("qint32"))
    } else if str_eq(value, "quint4x2") {
        Ok(TensorElementType::Other("quint4x2"))
    } else {
        Err(invalid(Format::PyTorch, ErrorKind::Unsupported))
    }
}

/// The element type and element size that a TorchScript JSON data type names.
pub open spec fn spec_json_element_type(value: Seq<char>) -> Option<(TensorElementType, usize)> {
    if value == "FLOAT"@ {
        Some((TensorElementType::Float32, 4))
    } else if value == "DOUBLE"@ {
        Some((TensorElementType::Float64, 8))
    } else if value == "HALF"@ {
        Some((TensorElementType::Float16, 2))
    } else if value == "LONG"@ {
        Some((TensorElementType::Int64, 8))
    } else if value == "INT"@ {
        Some((TensorElementType::Int32, 4))
    } else if value == "SHORT"@ {
        Some((TensorElementType::Int16, 2))
    } else if value == "CHAR"@ {
        Some((TensorElementType::Int8, 1))
    } else if value == "BYTE"@ {
        Some((TensorElementType::Uint8, 1))
    } else if value == "BOOL"@ {
        Some((TensorElementType::Bool, 1))
    } else {
        None
    }
}

/// Whether `value` is the normalized name of elements of type `t`: the
/// type's own name in lower case (`boolean` for booleans), or the name of a
/// type known only by its name.
pub open spec fn is_normalized_name_of(value: Seq<char>, t: TensorElementType) -> bool {
    match t {
        TensorElementType::Float16 => value == "float16"@,
        TensorElementType::Float32 => value == "float32"@,
        TensorElementType::Float64 => value == "float64"@,
        TensorElementType::Int8 => value == "int8"@,
        TensorElementType::Int16 => value == "int16"@,
        TensorElementType::Int32 => value == "int32"@,
        TensorElementType::Int64 => value == "int64"@,
        TensorElementType::Uint8 => value == "uint8"@,
        TensorElementType::Bool => value == "boolean"@,
        TensorElementType::Other(q) => value == q@,
        _ => false,
    }
}

/// A normalized type name gives the element type that it names.
pub proof fn lemma_normalized_element_type_named(value: Seq<char>)
    ensures
        spec_normalized_element_type(value) matches Some(t) ==> is_normalized_name_of(value, t),
{
}

/// Whether `value` is the TorchScript JSON data type of elements of type
/// `t`: `FLOAT` and `DOUBLE` the 32- and 64-bit floats, `HALF` the 16-bit
/// one, `LONG`, `INT`, `SHORT` and `CHAR` the signed integers from 64 down to
/// 8 bits, `BYTE` the unsigned byte and `BOOL` the boolean.
pub open spec fn is_json_data_type_of(value: Seq<char>, t: TensorElementType) -> bool {
    match t {
        TensorElementType::Float32 => value == "FLOAT"@,
        TensorElementType::Float64 => value == "DOUBLE"@,
        TensorElementType::Float16 => value == "HALF"@,
        TensorElementType::Int64 => value == "LONG"@,
        TensorElementType::Int32 => value == "INT"@,
        TensorElementType::Int16 => value == "SHORT"@,
        TensorElementType::Int8 => value == "CHAR"@,
        TensorElementType::Uint8 => value == "BYTE"@,
        TensorElementType::Bool => value == "BOOL"@,
        _ => false,
    }
}

/// A TorchScript JSON data type gives the element type that it names, and
/// that type's width as the element size.
pub proof fn lemma_json_element_type_named(value: Seq<char>)
    ensures
        spec_json_element_type(value) matches Some((t, n)) ==> is_json_data_type_of(value, t) && element_width(t)
            == Some(n as nat),
{
}

/// Every TorchScript JSON data type of an element type is read as that type.
pub proof fn lemma_json_element_type_complete(value: Seq<char>, t: TensorElementType)
    requires
        is_json_data_type_of(value, t),
    ensures
        spec_json_element_type(value) matches Some((u, n)) && u == t,
{
    reveal_strlit("FLOAT");
    reveal_strlit("DOUBLE");
    reveal_strlit("HALF");
    reveal_strlit("LONG");
    reveal_strlit("INT");
    reveal_strlit("SHORT");
    reveal_strlit("CHAR");
    reveal_strlit("BYTE");
    reveal_strlit("BOOL");
    assert("FLOAT"@.len() == 5);
    assert("DOUBLE"@.len() == 6);
    assert("HALF"@.len() == 4);
    assert("LONG"@.len() == 4);
    assert("INT"@.len() == 3);
    assert("SHORT"@.len() == 5);
    assert("CHAR"@.len() == 4);
    assert("BYTE"@.len() == 4);
    assert("BOOL"@.len() == 4);
    assert("BOOL"@[0] == 'B');
    assert("BOOL"@[1] == 'O');
    assert("BYTE"@[0] == 'B');
    assert("BYTE"@[1] == 'Y');
    assert("CHAR"@[0] == 'C');
    assert("FLOAT"@[0] == 'F');
    assert("HALF"@[0] == 'H');
    assert("LONG"@[0] == 'L');
    assert("SHORT"@[0] == 'S');
}

/// The element type and size of a TorchScript JSON data type; other names are
/// refused as unsupported.
pub fn torchscript_json_element_type(value: &str) -> (r: Result<(TensorElementType, usize), ModelError>)
    ensures
        match spec_json_element_type(value@) {
            Some(t) => r == Ok::<(TensorElementType, usize), ModelError>(t),
            None => r == Err::<(TensorElementType, usize), ModelError>(py_error(ErrorKind::Unsupported)),
        },
{
    proof {
        reveal_strlit("FLOAT");
    }
    proof {
        reveal_strlit("DOUBLE");
    }
    proof {
        reveal_strlit("HALF");
    }
    proof {
        reveal_strlit("LONG");
    }
    proof {
        reveal_strlit("INT");
    }
    proof {
        reveal_strlit("SHORT");
    }
    proof {
        reveal_strlit("CHAR");
    }
    proof {
        reveal_strlit("BYTE");
    }
    proof {
        reveal_strlit("BOOL");
    }
    if str_eq(value, "FLOAT") {
        Ok((TensorElementType::Float32, 4))
    } else if str_eq(value, "DOUBLE") {
        Ok((TensorElementType::Float64, 8))
    } else if str_eq(value, "HALF") {
        Ok((TensorElementType::Float16, 2))
    } else if str_eq(value, "LONG") {
        Ok((TensorElementType::Int64, 8))
    } else if str_eq(value, "INT") {
        Ok((TensorElementType::Int32, 4))
    } else if str_eq(value, "SHORT") {
        Ok((TensorElementType::Int16, 2))
    } else if str_eq(value, "CHAR") {
        Ok((TensorElementType::Int8, 1))
    } else if str_eq(value, "BYTE") {
        Ok((TensorElementType::Uint8, 1))
    } else if str_eq(value, "BOOL") {
        Ok((TensorElementType::Bool, 1))
    } else {
        Err(invalid(Format::PyTorch, ErrorKind::Unsupported))
    }
}

/// The dimensions of the first `n` items, each a string that spells an
/// `i64`; the first item that is no string, or spells none, refuses them.
pub open spec fn dims_of(items: Seq<JsonView>) -> Result<Seq<i64>, ErrorKind>
    decreases items.len(),
{
    if items.len() == 0 {
        Ok(Seq::empty())
    } else {
        match dims_of(items.drop_last()) {
            Err(k) => Err(k),
            Ok(prev) => match json_str(Some(items.last())) {
                None => Err(ErrorKind::InvalidValue),
                Some(s) => match parse_i64(s) {
                    None => Err(ErrorKind::InvalidValue),
                    Some(v) => Ok(prev.push(v)),
                },
            },
        }
    }
}

/// The dimensions of a TorchScript JSON tensor: its `dims` list, which it
/// must have.
pub open spec fn spec_shape_values(tensor: JsonView) -> Result<Seq<i64>, ErrorKind> {
    match json_array(json_get(tensor, "dims"@)) {
        None => Err(ErrorKind::Missing),
        Some(items) => dims_of(items),
    }
}

proof fn lemma_dims_error_stays(items: Seq<JsonView>, k: int)
    requires
        0 <= k <= items.len(),
        dims_of(items.take(k)) is Err,
    ensures
        dims_of(items) == dims_of(items.take(k)),
    decreases items.len() - k,
{
    if k == items.len() {
        assert(items.take(k) =~= items);
    } else {
        assert(items.take(k + 1).drop_last() =~= items.take(k));
        lemma_dims_error_stays(items, k + 1);
    }
}

/// The dimensions of a TorchScript JSON tensor.
pub fn torchscript_json_shape_values(tensor: &JsonValue) -> (r: Result<Vec<i64>, ModelError>)
    ensures
        match spec_shape_values(tensor@) {
            Ok(v) => r matches Ok(x) && x@ == v,
            Err(k) => r matches Err(e) && e == py_error(k),
        },
{
    let items = match tensor.get("dims") {
        Some(JsonValue::Array(items)) => items,
        _ => return Err(invalid(Format::PyTorch, ErrorKind::Missing)),
    };
    let ghost iv = json_items(items@);
    let mut out: Vec<i64> = Vec::new();
    let mut i: usize = 0;
    proof {
        assert(iv.take(0) =~= Seq::<JsonView>::empty());
    }
    while i < items.len()
        invariant
            iv == json_items(items@),
            iv.len() == items@.len(),
            spec_shape_values(tensor@) == dims_of(iv),
            i <= iv.len(),
            dims_of(iv.take(i as int)) == Ok::<Seq<i64>, ErrorKind>(out@),
        decreases iv.len() - i,
    {
        proof {
            assert(iv[i as int] == items@[i as int]@);
            assert(iv.take(i + 1).drop_last() =~= iv.take(i as int));
            assert(iv.take(i + 1).last() == iv[i as int]);
        }
        let text = match items[i].as_str() {
            Some(t) => t,
            None => {
                proof {
                    lemma_dims_error_stays(iv, i + 1);
                }
                return Err(invalid(Format::PyTorch, ErrorKind::InvalidValue));
            },
        };
        match parse_i64_exec(text) {
            Some(v) => out.push(v),
            None => {
                proof {
                    lemma_dims_error_stays(iv, i + 1);
                }
                return Err(invalid(Format::PyTorch, ErrorKind::InvalidValue));
            },
        }
        i = i + 1;
    }
    proof {
        assert(iv.take(i as int) =~= iv);
    }
    Ok(out)
}

// ---------------------------------------------------------------------------
// Parameter names

/// The views of optional names.
pub open spec fn opt_names(v: Seq<Option<String>>) -> Seq<Option<Seq<char>>> {
    v.map_values(|n: Option<String>| match n {
        Some(s) => Some(s@),
        None => None,
    })
}

/// `names` with the parameters `ps` of the module qualified as `q`: a
/// parameter whose `tensorId` spells an index within the names, and that has
/// a `name`, names that tensor `q.name`.
pub open spec fn assign_params(ps: Seq<JsonView>, q: Seq<char>, names: Seq<Option<Seq<char>>>) -> Seq<Option<Seq<char>>>
    decreases ps.len(),
{
    if ps.len() == 0 {
        names
    } else {
        let prev = assign_params(ps.drop_last(), q, names);
        let p = ps.last();
        match json_str(json_get(p, "tensorId"@)) {
            None => prev,
            Some(t) => match parse_usize(t) {
                None => prev,
                Some(id) => match json_str(json_get(p, "name"@)) {
                    None => prev,
                    Some(n) => if id < prev.len() {
                        prev.update(id as int, Some(q + "."@ + n))
                    } else {
                        prev
                    },
                },
            },
        }
    }
}

/// `names` with the parameters of a module named under `prefix`, and then of
/// its submodules in order, each named under the module's qualified name; a
/// module without a `name` names nothing.
pub open spec fn collect_module(module: JsonView, prefix: Seq<char>, names: Seq<Option<Seq<char>>>) -> Seq<Option<Seq<char>>>
    decreases module, 0int,
{
    match module {
        JsonView::Object(members) => match json_str(json_get(module, "name"@)) {
            None => names,
            Some(n) => {
                let q = if prefix.len() == 0 {
                    n
                } else {
                    prefix + "."@ + n
                };
                let after = match json_array(json_get(module, "parameters"@)) {
                    Some(ps) => assign_params(ps, q, names),
                    None => names,
                };
                match member_index(members, "submodules"@) {
                    Some(i) => {
                        proof {
                            lemma_member_index(members, "submodules"@, 0);
                            assert(decreases_to!(module => members));
                            assert(decreases_to!(members => members[i]));
                            assert(decreases_to!(members[i] => members[i].1));
                        }
                        match members[i].1 {
                            JsonView::Array(subs) => collect_all(subs, subs.len() as int, q, after),
                            _ => after,
                        }
                    },
                    None => after,
                }
            },
        },
        _ => names,
    }
}

/// `names` with the parameters of the first `n` modules, in order.
pub open spec fn collect_all(subs: Seq<JsonView>, n: int, prefix: Seq<char>, names: Seq<Option<Seq<char>>>) -> Seq<
    Option<Seq<char>>,
>
    decreases subs, n,
{
    if n <= 0 || n > subs.len() {
        names
    } else {
        proof {
            assert(decreases_to!(subs => subs[n - 1]));
        }
        collect_module(subs[n - 1], prefix, collect_all(subs, n - 1, prefix, names))
    }
}

/// The names of a legacy model's tensors, by index: one slot per entry of its
/// `tensors` list, filled from the parameters of `mainModule`'s submodules.
pub open spec fn spec_parameter_names(model: JsonView) -> Seq<Option<Seq<char>>> {
    let count = match json_array(json_get(model, "tensors"@)) {
        Some(ts) => ts.len(),
        None => 0,
    };
    let init = Seq::new(count, |i: int| None::<Seq<char>>);
    match json_array(json_get_opt(json_get(model, "mainModule"@), "submodules"@)) {
        Some(subs) => collect_all(subs, subs.len() as int, Seq::empty(), init),
        None => init,
    }
}

/// Names the tensors that the parameters `ps` of the module `q` name.
fn assign_params_exec(ps: &Vec<JsonValue>, q: &str, names: &mut Vec<Option<String>>)
    ensures
        opt_names(final(names)@) == assign_params(json_items(ps@), q@, opt_names(old(names)@)),
{
    let ghost pv = json_items(ps@);
    let ghost start = opt_names(names@);
    let mut i: usize = 0;
    proof {
        assert(pv.take(0) =~= Seq::<JsonView>::empty());
    }
    while i < ps.len()
        invariant
            pv == json_items(ps@),
            pv.len() == ps@.len(),
            start == opt_names(old(names)@),
            i <= pv.len(),
            opt_names(names@) == assign_params(pv.take(i as int), q@, start),
        decreases pv.len() - i,
    {
        proof {
            assert(pv[i as int] == ps@[i as int]@);
            assert(pv.take(i + 1).drop_last() =~= pv.take(i as int));
            assert(pv.take(i + 1).last() == pv[i as int]);
        }
        let p = &ps[i];
        if let Some(t) = opt_str(p.get("tensorId")) {
            if let Some(id) = parse_usize_exec(t) {
                if let Some(n) = opt_str(p.get("name")) {
                    if id < names.len() {
                        let mut full = String::from_str(q);
                        full.append(".");
                        full.append(n);
                        let ghost before = names@;
                        let ghost fv = full@;
                        names.set(id, Some(full));
                        proof {
                            assert(opt_names(names@) =~= opt_names(before).update(id as int, Some(fv)));
                        }
                    }
                }
            }
        }
        i = i + 1;
    }
    proof {
        assert(pv.take(i as int) =~= pv);
    }
}

/// Fills the names of the tensors that a module and its submodules name.
fn collect_module_exec(module: &JsonValue, prefix: &str, names: &mut Vec<Option<String>>)
    ensures
        opt_names(final(names)@) == collect_module(module@, prefix@, opt_names(old(names)@)),
    decreases module@,
{
    let members = match module {
        JsonValue::Object(members) => members,
        _ => return,
    };
    let ghost mv = json_members(members@);
    proof {
        assert(module@ == JsonView::Object(mv));
    }
    let n = match opt_str(module.get("name")) {
        Some(n) => n,
        None => return,
    };
    proof {
        reveal_strlit("");
    }
    let q = if str_eq(prefix, "") {
        String::from_str(n)
    } else {
        let mut q = String::from_str(prefix);
        q.append(".");
        q.append(n);
        q
    };
    proof {
        if prefix@ == ""@ {
            assert(prefix@.len() == 0);
        } else {
            assert(prefix@.len() != 0) by {
                if prefix@.len() == 0 {
                    assert(prefix@ =~= ""@);
                }
            }
        }
    }
    if let Some(JsonValue::Array(ps)) = module.get("parameters") {
        assign_params_exec(ps, q.as_str(), names);
    }
    let ghost after = opt_names(names@);
    match find_member(members, "submodules") {
        Some(i) => {
            proof {
                lemma_member_index(mv, "submodules"@, 0);
                assert(mv[i as int] == (members@[i as int].0@, members@[i as int].1@));
            }
            match &members[i].1 {
                JsonValue::Array(items) => {
                    let ghost sv = json_items(items@);
                    proof {
                        assert(members@[i as int].1@ == JsonView::Array(sv));
                        assert(decreases_to!(module@ => mv));
                        assert(decreases_to!(mv => mv[i as int]));
                        assert(decreases_to!(mv[i as int] => mv[i as int].1));
                        let a = mv[i as int].1;
                        assert(a is Array);
                        assert(a->Array_0 == sv);
                        assert(decreases_to!(a => a->Array_0));
                    }
                    let mut j: usize = 0;
                    while j < items.len()
                        invariant
                            sv == json_items(items@),
                            sv.len() == items@.len(),
                            j <= sv.len(),
                            decreases_to!(module@ => sv),
                            opt_names(names@) == collect_all(sv, j as int, q@, after),
                        decreases sv.len() - j,
                    {
                        proof {
                            assert(sv[j as int] == items@[j as int]@);
                            assert(decreases_to!(sv => sv[j as int]));
                        }
                        collect_module_exec(&items[j], q.as_str(), names);
                        j = j + 1;
                    }
                },
                _ => {},
            }
        },
        None => {},
    }
}

/// The names of a legacy model's tensors, by index.
pub fn legacy_torchscript_parameter_names(model: &JsonValue) -> (r: Vec<Option<String>>)
    ensures
        opt_names(r@) == spec_parameter_names(model@),
{
    let count = match model.get("tensors") {
        Some(JsonValue::Array(ts)) => ts.len(),
        _ => 0,
    };
    let mut names: Vec<Option<String>> = Vec::new();
    let mut i: usize = 0;
    while i < count
        invariant
            i <= count,
            names@.len() == i,
            forall|k: int| 0 <= k < i ==> names@[k] is None,
        decreases count - i,
    {
        names.push(None);
        i = i + 1;
    }
    let ghost init = opt_names(names@);
    proof {
        assert(init =~= Seq::new(count as nat, |k: int| None::<Seq<char>>));
    }
    if let Some(JsonValue::Array(items)) = opt_get(model.get("mainModule"), "submodules") {
        let ghost sv = json_items(items@);
        let mut j: usize = 0;
        while j < items.len()
            invariant
                sv == json_items(items@),
                sv.len() == items@.len(),
                j <= sv.len(),
                opt_names(names@) == collect_all(sv, j as int, Seq::empty(), init),
            decreases sv.len() - j,
        {
            proof {
                assert(sv[j as int] == items@[j as int]@);
                reveal_strlit("");
                assert(""@ =~= Seq::<char>::empty());
            }
            collect_module_exec(&items[j], "", &mut names);
            j = j + 1;
        }
    }
    names
}

} // verus!
