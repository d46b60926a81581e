//! Reading an exported program archive: its program JSON, its version, and
//! the tensors that initialize the program's parameters, buffers and
//! constants, found in its state dicts, its weight configs or the program's
//! own tensor metadata.
use vstd::prelude::*;
use vstd::string::StringExecFns;
use crate::chars::{str_trim, trim};
use crate::error::{ErrorKind, Format, ModelError, invalid};
use crate::json::{
    JsonValue, JsonView, json_get, json_get_opt, json_i64, json_members, json_object, json_str,
    json_value_of, opt_get, parse_json_str,
};
use crate::pytorch::archives::{
    PyTorchZipArchive, exported_program_zip_bytes, exported_program_zip_entry,
    spec_exported_program_entry, spec_pytorch_zip_archive,
};
use crate::pytorch::detect::ExportedProgramArchive;
use crate::pytorch::dtypes::{exported_program_dtype_info, spec_exported_dtype_info};
use crate::pytorch::entries::{entry_bytes_at, entry_text_at, first_where, logical_is, named, spec_sibling};
use crate::pytorch::exported_json::{
    exported_program_initializer_specs, exported_program_known_shape, exported_program_schema_version,
    pair_views, parse_exported_program_json, spec_initializer_specs, spec_known_shape,
    spec_parse_exported_program_json, spec_schema_version,
};
use crate::pytorch::legacy::{checked_byte_len, spec_byte_len};
use crate::pytorch::machine::{StateDictTensor, TensorView};
use crate::pytorch::modules::opt_view;
use crate::pytorch::names::{first_non_empty_line, spec_first_non_empty_line};
use crate::pytorch::py_error;
use crate::pytorch::state_dict::{EntryValueView, EntryView, StateDict, StateDictEntryValue, entry_views, spec_state_dict};
use crate::pytorch::zip::{ZipArchive, ZipEntryView, spec_zip_archive};
use crate::text::str_eq;
use vstd::utf8::encode_utf8;

verus! {

/// A tensor that initializes a program argument, with the name it has in
/// the file that holds it.
pub struct ExportedProgramInitializer {
    pub name: String,
    pub tensor: StateDictTensor,
}

pub struct InitializerView {
    pub name: Seq<char>,
    pub tensor: TensorView,
}

impl View for ExportedProgramInitializer {
    type V = InitializerView;

    open spec fn view(&self) -> InitializerView {
        InitializerView { name: self.name@, tensor: self.tensor@ }
    }
}

/// The initializers of a program, each under the argument it initializes;
/// no argument occurs twice.
pub type Inits = Seq<(Seq<char>, InitializerView)>;

/// The views of initializers.
pub open spec fn init_views(v: Seq<(String, ExportedProgramInitializer)>) -> Inits {
    v.map_values(|p: (String, ExportedProgramInitializer)| (p.0@, p.1@))
}

/// The index of the initializer of `arg`, from `i` on.
pub open spec fn init_index(m: Inits, arg: Seq<char>, i: int) -> Option<int>
    decreases m.len() - i,
{
    if i < 0 || i >= m.len() {
        None
    } else if m[i].0 == arg {
        Some(i)
    } else {
        init_index(m, arg, i + 1)
    }
}

/// `m` with `v` as the initializer of `arg`: it takes the place of an
/// earlier one, or is added at the end.
pub open spec fn init_insert(m: Inits, arg: Seq<char>, v: InitializerView) -> Inits {
    match init_index(m, arg, 0) {
        Some(i) => m.update(i, (arg, v)),
        None => m.push((arg, v)),
    }
}

/// The argument that the external name `external` initializes: the last
/// spec that names it.
pub open spec fn arg_of(specs: Seq<(Seq<char>, Seq<char>)>, external: Seq<char>) -> Option<Seq<char>>
    decreases specs.len(),
{
    if specs.len() == 0 {
        None
    } else if specs.last().1 == external {
        Some(specs.last().0)
    } else {
        arg_of(specs.drop_last(), external)
    }
}

proof fn lemma_init_index(m: Inits, arg: Seq<char>, i: int)
    requires
        0 <= i,
    ensures
        init_index(m, arg, i) matches Some(j) ==> i <= j < m.len() && m[j].0 == arg,
    decreases m.len() - i,
{
    if i < m.len() && m[i].0 != arg {
        lemma_init_index(m, arg, i + 1);
    }
}

/// Sets the initializer of `arg`.
fn insert_init(m: &mut Vec<(String, ExportedProgramInitializer)>, arg: String, v: ExportedProgramInitializer)
    ensures
        init_views(final(m)@) == init_insert(init_views(old(m)@), arg@, v@),
{
    let ghost before = init_views(m@);
    proof {
        lemma_init_index(before, arg@, 0);
    }
    let mut i: usize = 0;
    while i < m.len()
        invariant
            before == init_views(m@),
            m@ == old(m)@,
            i <= m@.len(),
            init_index(before, arg@, i as int) == init_index(before, arg@, 0),
        decreases m@.len() - i,
    {
        proof {
            assert(before[i as int] == (m@[i as int].0@, m@[i as int].1@));
        }
        if str_eq(m[i].0.as_str(), arg.as_str()) {
            let ghost av = arg@;
            let ghost vv = v@;
            let _ = m.remove(i);
            m.insert(i, (arg, v));
            proof {
                assert(init_views(m@) =~= before.update(i as int, (av, vv)));
            }
            return;
        }
        i = i + 1;
    }
    let ghost av = arg@;
    let ghost vv = v@;
    m.push((arg, v));
    proof {
        assert(init_views(m@) =~= before.push((av, vv)));
    }
}

/// The argument that an external name initializes.
fn arg_of_exec(specs: &Vec<(String, String)>, external: &str) -> (r: Option<String>)
    ensures
        opt_view(r) == arg_of(pair_views(specs@), external@),
{
    let ghost pv = pair_views(specs@);
    let mut i: usize = specs.len();
    proof {
        assert(pv.take(i as int) =~= pv);
    }
    while i > 0
        invariant
            pv == pair_views(specs@),
            i <= specs@.len(),
            arg_of(pv, external@) == arg_of(pv.take(i as int), external@),
        decreases i,
    {
        proof {
            assert(pv.take(i as int).last() == (specs@[i - 1].0@, specs@[i - 1].1@));
            assert(pv.take(i as int).drop_last() =~= pv.take(i - 1));
        }
        if str_eq(specs[i - 1].1.as_str(), external) {
            return Some(specs[i - 1].0.clone());
        }
        i = i - 1;
    }
    proof {
        assert(pv.take(0) =~= Seq::<(Seq<char>, Seq<char>)>::empty());
    }
    None
}

// ---------------------------------------------------------------------------
// From state dicts

/// The tensor of a state dict entry, a packed tensor standing for itself.
pub open spec fn entry_tensor(v: EntryValueView) -> Option<TensorView> {
    match v {
        EntryValueView::Tensor(t) => Some(t),
        EntryValueView::PackedTensor(t, _) => Some(t),
        EntryValueView::NoneValue => None,
    }
}

/// `m` with the entries of a state dict that initialize arguments.
pub open spec fn add_entries(m: Inits, specs: Seq<(Seq<char>, Seq<char>)>, entries: Seq<EntryView>) -> Inits
    decreases entries.len(),
{
    if entries.len() == 0 {
        m
    } else {
        let prev = add_entries(m, specs, entries.drop_last());
        let e = entries.last();
        match (arg_of(specs, e.key), entry_tensor(e.value)) {
            (Some(arg), Some(t)) => init_insert(prev, arg, InitializerView { name: e.key, tensor: t }),
            _ => prev,
        }
    }
}

/// `m` with what the state dict archive `data` initializes.
pub open spec fn add_state_dict(m: Inits, specs: Seq<(Seq<char>, Seq<char>)>, data: Seq<u8>) -> Result<Inits, ErrorKind> {
    match spec_pytorch_zip_archive(data) {
        Err(k) => Err(k),
        Ok(a) => match spec_state_dict(a.data_pickle) {
            Err(k) => Err(k),
            Ok(None) => Ok(m),
            Ok(Some(entries)) => Ok(add_entries(m, specs, entries)),
        },
    }
}

/// A copy of a stored tensor.
fn copy_tensor(t: &StateDictTensor) -> (r: StateDictTensor)
    ensures
        r@ == t@,
{
    let layout = match &t.layout {
        Some(l) => Some(l.clone()),
        None => None,
    };
    StateDictTensor { element_type: t.element_type, shape: t.shape.clone(), byte_len: t.byte_len, layout }
}

/// Adds what the state dict archive `data` initializes.
fn add_state_dict_initializers(
    m: &mut Vec<(String, ExportedProgramInitializer)>,
    specs: &Vec<(String, String)>,
    data: &[u8],
) -> (r: Result<(), ModelError>)
    ensures
        match add_state_dict(init_views(old(m)@), pair_views(specs@), data@) {
            Ok(n) => r is Ok && init_views(final(m)@) == n,
            Err(k) => r matches Err(e) && e == py_error(k),
        },
{
    let archive = PyTorchZipArchive::read(data)?;
    let state_dict = match StateDict::read(archive.data_pickle.as_slice())? {
        Some(d) => d,
        None => return Ok(()),
    };
    let ghost ev = entry_views(state_dict.entries@);
    let ghost start = init_views(m@);
    let mut i: usize = 0;
    proof {
        assert(ev.take(0) =~= Seq::<EntryView>::empty());
    }
    while i < state_dict.entries.len()
        invariant
            ev == entry_views(state_dict.entries@),
            ev.len() == state_dict.entries@.len(),
            start == init_views(old(m)@),
            i <= ev.len(),
            init_views(m@) == add_entries(start, pair_views(specs@), ev.take(i as int)),
        decreases ev.len() - i,
    {
        let entry = &state_dict.entries[i];
        proof {
            assert(ev[i as int] == entry@);
            assert(ev.take(i + 1).drop_last() =~= ev.take(i as int));
            assert(ev.take(i + 1).last() == entry@);
        }
        if let Some(arg) = arg_of_exec(specs, entry.key.as_str()) {
            let tensor = match &entry.value {
                StateDictEntryValue::Tensor(t) => Some(copy_tensor(t)),
                StateDictEntryValue::PackedTensor { tensor, .. } => Some(copy_tensor(tensor)),
                StateDictEntryValue::NoneValue => None,
            };
            if let Some(t) = tensor {
                insert_init(m, arg, ExportedProgramInitializer { name: entry.key.clone(), tensor: t });
            }
        }
        i = i + 1;
    }
    proof {
        assert(ev.take(i as int) =~= ev);
    }
    Ok(())
}

// ---------------------------------------------------------------------------
// From weight configs

/// The tensor that a weight config's payload describes: its dtype and known
/// shape from `tensor_meta`, and as byte length the size of the entry that
/// `path_name` names, or else the length that the shape and dtype give.
pub open spec fn spec_config_tensor(es: Seq<ZipEntryView>, payload: JsonView) -> Result<Option<TensorView>, ErrorKind> {
    match json_get(payload, "tensor_meta"@) {
        None => Ok(None),
        Some(meta) => match json_i64(json_get(meta, "dtype"@)) {
            None => Ok(None),
            Some(code) => match spec_exported_dtype_info(code) {
                None => Ok(None),
                Some((element_type, size)) => match spec_known_shape(meta) {
                    None => Ok(None),
                    Some(shape) => match spec_byte_len(shape, size as int) {
                        Err(k) => Err(k),
                        Ok(n) => {
                            let byte_len = match json_str(json_get(payload, "path_name"@)) {
                                Some(name) => match spec_exported_program_entry(es, name) {
                                    Some(i) => es[i].uncompressed_size,
                                    None => n as usize,
                                },
                                None => n as usize,
                            };
                            Ok(Some(TensorView { element_type, shape, byte_len, layout: None }))
                        },
                    },
                },
            },
        },
    }
}

/// The tensor that a weight config's payload describes.
fn config_tensor(archive: &ZipArchive, payload: &JsonValue) -> (r: Result<Option<StateDictTensor>, ModelError>)
    ensures
        match spec_config_tensor(archive@, payload@) {
            Ok(None) => r matches Ok(None),
            Ok(Some(t)) => r matches Ok(Some(x)) && x@ == t,
            Err(k) => r matches Err(e) && e == py_error(k),
        },
{
    let meta = match payload.get("tensor_meta") {
        Some(m) => m,
        None => return Ok(None),
    };
    let code = match opt_get(Some(meta), "dtype") {
        Some(d) => match d.as_i64() {
            Some(c) => c,
            None => return Ok(None),
        },
        None => return Ok(None),
    };
    let (element_type, size) = match exported_program_dtype_info(code) {
        Some(x) => x,
        None => return Ok(None),
    };
    let shape = match exported_program_known_shape(meta) {
        Some(s) => s,
        None => return Ok(None),
    };
    let computed = checked_byte_len(shape.as_slice(), size)?;
    let byte_len = match payload.get("path_name") {
        Some(p) => match p.as_str() {
            Some(name) => match exported_program_zip_entry(archive, name) {
                Some(entry) => entry.uncompressed_size,
                None => computed,
            },
            None => computed,
        },
        None => computed,
    };
    Ok(Some(StateDictTensor { element_type, shape, byte_len, layout: None }))
}

/// `m` with the members of a weight config that initialize arguments; the
/// first payload that is refused refuses them all.
pub open spec fn add_config_members(
    m: Inits,
    specs: Seq<(Seq<char>, Seq<char>)>,
    es: Seq<ZipEntryView>,
    members: Seq<(Seq<char>, JsonView)>,
) -> Result<Inits, ErrorKind>
    decreases members.len(),
{
    if members.len() == 0 {
        Ok(m)
    } else {
        match add_config_members(m, specs, es, members.drop_last()) {
            Err(k) => Err(k),
            Ok(prev) => {
                let (external, payload) = members.last();
                match arg_of(specs, external) {
                    None => Ok(prev),
                    Some(arg) => match spec_config_tensor(es, payload) {
                        Err(k) => Err(k),
                        Ok(None) => Ok(prev),
                        Ok(Some(t)) => Ok(init_insert(prev, arg, InitializerView { name: external, tensor: t })),
                    },
                }
            },
        }
    }
}

/// `m` with what the weight config entry `name` initializes: its text must
/// be a JSON document; the members of its `config` object are read.
pub open spec fn add_config(
    m: Inits,
    specs: Seq<(Seq<char>, Seq<char>)>,
    es: Seq<ZipEntryView>,
    name: Seq<char>,
) -> Result<Inits, ErrorKind> {
    match entry_text_at(es, first_where(es, logical_is(name), 0)) {
        Err(k) => Err(k),
        Ok(text) => match json_value_of(encode_utf8(text)) {
            None => Err(ErrorKind::InvalidJson),
            Some(config) => match json_object(json_get(config, "config"@)) {
                None => Ok(m),
                Some(members) => add_config_members(m, specs, es, members),
            },
        },
    }
}

proof fn lemma_config_error_stays(
    m: Inits,
    specs: Seq<(Seq<char>, Seq<char>)>,
    es: Seq<ZipEntryView>,
    members: Seq<(Seq<char>, JsonView)>,
    k: int,
)
    requires
        0 <= k <= members.len(),
        add_config_members(m, specs, es, members.take(k)) is Err,
    ensures
        add_config_members(m, specs, es, members) == add_config_members(m, specs, es, members.take(k)),
    decreases members.len() - k,
{
    if k == members.len() {
        assert(members.take(k) =~= members);
    } else {
        assert(members.take(k + 1).drop_last() =~= members.take(k));
        lemma_config_error_stays(m, specs, es, members, k + 1);
    }
}

/// Adds what the weight config entry `name` initializes.
fn add_config_initializers(
    m: &mut Vec<(String, ExportedProgramInitializer)>,
    specs: &Vec<(String, String)>,
    archive: &ZipArchive,
    name: &str,
) -> (r: Result<(), ModelError>)
    ensures
        match add_config(init_views(old(m)@), pair_views(specs@), archive@, name@) {
            Ok(n) => r is Ok && init_views(final(m)@) == n,
            Err(k) => r matches Err(e) && e == py_error(k),
        },
{
    let text = archive.text_logical(name)?;
    let config = match parse_json_str(text.as_str()) {
        Some(c) => c,
        None => return Err(invalid(Format::PyTorch, ErrorKind::InvalidJson)),
    };
    let members = match config.get("config") {
        Some(JsonValue::Object(members)) => members,
        _ => return Ok(()),
    };
    let ghost mv = json_members(members@);
    let ghost start = init_views(m@);
    let ghost sv = pair_views(specs@);
    let mut i: usize = 0;
    proof {
        assert(mv.take(0) =~= Seq::<(Seq<char>, JsonView)>::empty());
        assert(add_config(start, sv, archive@, name@) == add_config_members(start, sv, archive@, mv));
    }
    while i < members.len()
        invariant
            add_config(start, sv, archive@, name@) == add_config_members(start, sv, archive@, mv),
            mv == json_members(members@),
            mv.len() == members@.len(),
            sv == pair_views(specs@),
            start == init_views(old(m)@),
            i <= mv.len(),
            add_config_members(start, sv, archive@, mv.take(i as int)) == Ok::<Inits, ErrorKind>(init_views(m@)),
        decreases mv.len() - i,
    {
        proof {
            assert(mv[i as int] == (members@[i as int].0@, members@[i as int].1@));
            assert(mv.take(i + 1).drop_last() =~= mv.take(i as int));
            assert(mv.take(i + 1).last() == mv[i as int]);
        }
        if let Some(arg) = arg_of_exec(specs, members[i].0.as_str()) {
            match config_tensor(archive, &members[i].1) {
                Err(e) => {
                    proof {
                        assert(arg_of(sv, mv[i as int].0) is Some);
                        assert(spec_config_tensor(archive@, mv[i as int].1) is Err);
                        assert(add_config_members(start, sv, archive@, mv.take(i + 1)) == Err::<Inits, ErrorKind>(
                            spec_config_tensor(archive@, mv[i as int].1)->Err_0,
                        ));
                        lemma_config_error_stays(start, sv, archive@, mv, i + 1);
                    }
                    return Err(e);
                },
                Ok(None) => {},
                Ok(Some(t)) => {
                    insert_init(m, arg, ExportedProgramInitializer { name: members[i].0.clone(), tensor: t });
                },
            }
        }
        i = i + 1;
    }
    proof {
        assert(mv.take(i as int) =~= mv);
    }
    Ok(())
}

// ---------------------------------------------------------------------------
// From the program's tensor metadata

/// The program's tensor metadata, when it is an object.
pub open spec fn tensor_values(program: JsonView) -> Option<JsonView> {
    match json_get_opt(json_get_opt(json_get(program, "graph_module"@), "graph"@), "tensor_values"@) {
        Some(v) => if json_object(Some(v)) is Some {
            Some(v)
        } else {
            None
        },
        None => None,
    }
}

/// `m` with the specs' tensors that the metadata describes with a dtype and
/// a known shape, each under its argument with its external name; a shape
/// whose byte length overflows refuses them all.
pub open spec fn add_metadata_specs(
    m: Inits,
    specs: Seq<(Seq<char>, Seq<char>)>,
    values: JsonView,
) -> Result<Inits, ErrorKind>
    decreases specs.len(),
{
    if specs.len() == 0 {
        Ok(m)
    } else {
        match add_metadata_specs(m, specs.drop_last(), values) {
            Err(k) => Err(k),
            Ok(prev) => {
                let (arg, external) = specs.last();
                match json_get(values, arg) {
                    None => Ok(prev),
                    Some(tensor) => match json_i64(json_get(tensor, "dtype"@)) {
                        None => Ok(prev),
                        Some(code) => match spec_exported_dtype_info(code) {
                            None => Ok(prev),
                            Some((element_type, size)) => match spec_known_shape(tensor) {
                                None => Ok(prev),
                                Some(shape) => match spec_byte_len(shape, size as int) {
                                    Err(k) => Err(k),
                                    Ok(n) => Ok(
                                        init_insert(
                                            prev,
                                            arg,
                                            InitializerView {
                                                name: external,
                                                tensor: TensorView { element_type, shape, byte_len: n as usize, layout: None },
                                            },
                                        ),
                                    ),
                                },
                            },
                        },
                    },
                }
            },
        }
    }
}

/// `m` with what the program's tensor metadata initializes.
pub open spec fn add_metadata(m: Inits, specs: Seq<(Seq<char>, Seq<char>)>, program: JsonView) -> Result<Inits, ErrorKind> {
    match tensor_values(program) {
        None => Ok(m),
        Some(values) => add_metadata_specs(m, specs, values),
    }
}

proof fn lemma_metadata_error_stays(m: Inits, specs: Seq<(Seq<char>, Seq<char>)>, values: JsonView, k: int)
    requires
        0 <= k <= specs.len(),
        add_metadata_specs(m, specs.take(k), values) is Err,
    ensures
        add_metadata_specs(m, specs, values) == add_metadata_specs(m, specs.take(k), values),
    decreases specs.len() - k,
{
    if k == specs.len() {
        assert(specs.take(k) =~= specs);
    } else {
        assert(specs.take(k + 1).drop_last() =~= specs.take(k));
        lemma_metadata_error_stays(m, specs, values, k + 1);
    }
}

/// Adds what the program's tensor metadata initializes.
fn add_metadata_initializers(
    m: &mut Vec<(String, ExportedProgramInitializer)>,
    specs: &Vec<(String, String)>,
    program: &JsonValue,
) -> (r: Result<(), ModelError>)
    ensures
        match add_metadata(init_views(old(m)@), pair_views(specs@), program@) {
            Ok(n) => r is Ok && init_views(final(m)@) == n,
            Err(k) => r matches Err(e) && e == py_error(k),
        },
{
    let values = match opt_get(opt_get(program.get("graph_module"), "graph"), "tensor_values") {
        Some(v) => match v {
            JsonValue::Object(_) => v,
            _ => return Ok(()),
        },
        None => return Ok(()),
    };
    let ghost sv = pair_views(specs@);
    let ghost start = init_views(m@);
    let mut i: usize = 0;
    proof {
        assert(sv.take(0) =~= Seq::<(Seq<char>, Seq<char>)>::empty());
    }
    while i < specs.len()
        invariant
            sv == pair_views(specs@),
            sv.len() == specs@.len(),
            start == init_views(old(m)@),
            tensor_values(program@) == Some(values@),
            i <= sv.len(),
            add_metadata_specs(start, sv.take(i as int), values@) == Ok::<Inits, ErrorKind>(init_views(m@)),
        decreases sv.len() - i,
    {
        proof {
            assert(sv[i as int] == (specs@[i as int].0@, specs@[i as int].1@));
            assert(sv.take(i + 1).drop_last() =~= sv.take(i as int));
            assert(sv.take(i + 1).last() == sv[i as int]);
        }
        if let Some(tensor) = values.get(specs[i].0.as_str()) {
            let code = match tensor.get("dtype") {
                Some(d) => d.as_i64(),
                None => None,
            };
            if let Some(code) = code {
                if let Some((element_type, size)) = exported_program_dtype_info(code) {
                    if let Some(shape) = exported_program_known_shape(tensor) {
                        let byte_len = match checked_byte_len(shape.as_slice(), size) {
                            Ok(n) => n,
                            Err(e) => {
                                proof {
                                    lemma_metadata_error_stays(start, sv, values@, i + 1);
                                }
                                return Err(e);
                            },
                        };
                        insert_init(
                            m,
                            specs[i].0.clone(),
                            ExportedProgramInitializer {
                                name: specs[i].1.clone(),
                                tensor: StateDictTensor { element_type, shape, byte_len, layout: None },
                            },
                        );
                    }
                }
            }
        }
        i = i + 1;
    }
    proof {
        assert(sv.take(i as int) =~= sv);
    }
    Ok(())
}

// ---------------------------------------------------------------------------
// All initializers

/// `m` with what the state dict entry at path `name` initializes, when the
/// entry is there and its bytes decode.
pub open spec fn from_logical(
    m: Result<Inits, ErrorKind>,
    specs: Seq<(Seq<char>, Seq<char>)>,
    es: Seq<ZipEntryView>,
    name: Seq<char>,
) -> Result<Inits, ErrorKind> {
    match m {
        Err(k) => Err(k),
        Ok(m) => match entry_bytes_at(es, first_where(es, logical_is(name), 0)) {
            Ok(b) => add_state_dict(m, specs, b),
            Err(_) => Ok(m),
        },
    }
}

/// `m` with what the state dict entry found under `name` initializes, when
/// there is one.
pub open spec fn from_found(
    m: Result<Inits, ErrorKind>,
    specs: Seq<(Seq<char>, Seq<char>)>,
    es: Seq<ZipEntryView>,
    name: Seq<char>,
) -> Result<Inits, ErrorKind> {
    match m {
        Err(k) => Err(k),
        Ok(m) => match spec_exported_program_entry(es, name) {
            None => Ok(m),
            Some(i) => match entry_bytes_at(es, Some(i)) {
                Err(k) => Err(k),
                Ok(b) => add_state_dict(m, specs, b),
            },
        },
    }
}

/// `m` with what the weight config at path `name` initializes, when there
/// is one.
pub open spec fn from_config(
    m: Result<Inits, ErrorKind>,
    specs: Seq<(Seq<char>, Seq<char>)>,
    es: Seq<ZipEntryView>,
    name: Seq<char>,
) -> Result<Inits, ErrorKind> {
    match m {
        Err(k) => Err(k),
        Ok(m) => if first_where(es, logical_is(name), 0) is Some {
            add_config(m, specs, es, name)
        } else {
            Ok(m)
        },
    }
}

/// The initializers of a program: none when its signature names none; else
/// those of its serialized state dicts and constants, of its weight and
/// constant archives, and of its weight configs, in that order (a later one
/// replaces an earlier one of the same argument); and when these give none,
/// those that the program's tensor metadata describes.
pub open spec fn spec_initializers(es: Seq<ZipEntryView>, program: JsonView) -> Result<Inits, ErrorKind> {
    let specs = spec_initializer_specs(program);
    if specs.len() == 0 {
        Ok(Seq::empty())
    } else {
        let r1 = from_logical(Ok(Seq::empty()), specs, es, "serialized_state_dict.pt"@);
        let r2 = from_logical(r1, specs, es, "serialized_state_dict.json"@);
        let r3 = from_logical(r2, specs, es, "serialized_constants.pt"@);
        let r4 = from_found(r3, specs, es, "data/weights/model.pt"@);
        let r5 = from_found(r4, specs, es, "data/constants/model.pt"@);
        let r6 = from_config(r5, specs, es, "model_weights_config.json"@);
        let r7 = from_config(r6, specs, es, "model_constants_config.json"@);
        match r7 {
            Err(k) => Err(k),
            Ok(m) => if m.len() == 0 {
                add_metadata(m, specs, program)
            } else {
                Ok(m)
            },
        }
    }
}

fn step_logical(
    m: &mut Vec<(String, ExportedProgramInitializer)>,
    specs: &Vec<(String, String)>,
    archive: &ZipArchive,
    name: &str,
) -> (r: Result<(), ModelError>)
    ensures
        match from_logical(Ok(init_views(old(m)@)), pair_views(specs@), archive@, name@) {
            Ok(n) => r is Ok && init_views(final(m)@) == n,
            Err(k) => r matches Err(e) && e == py_error(k),
        },
{
    match archive.bytes_logical(name) {
        Ok(data) => add_state_dict_initializers(m, specs, data.as_slice()),
        Err(_) => Ok(()),
    }
}

fn step_found(
    m: &mut Vec<(String, ExportedProgramInitializer)>,
    specs: &Vec<(String, String)>,
    archive: &ZipArchive,
    name: &str,
) -> (r: Result<(), ModelError>)
    ensures
        match from_found(Ok(init_views(old(m)@)), pair_views(specs@), archive@, name@) {
            Ok(n) => r is Ok && init_views(final(m)@) == n,
            Err(k) => r matches Err(e) && e == py_error(k),
        },
{
    match exported_program_zip_bytes(archive, name)? {
        Some(data) => add_state_dict_initializers(m, specs, data.as_slice()),
        None => Ok(()),
    }
}

fn step_config(
    m: &mut Vec<(String, ExportedProgramInitializer)>,
    specs: &Vec<(String, String)>,
    archive: &ZipArchive,
    name: &str,
) -> (r: Result<(), ModelError>)
    ensures
        match from_config(Ok(init_views(old(m)@)), pair_views(specs@), archive@, name@) {
            Ok(n) => r is Ok && init_views(final(m)@) == n,
            Err(k) => r matches Err(e) && e == py_error(k),
        },
{
    if archive.logical_entry(name).is_some() {
        add_config_initializers(m, specs, archive, name)
    } else {
        Ok(())
    }
}

/// The initializers of a program read from its archive.
pub fn exported_program_initializers(archive: &ZipArchive, program: &JsonValue) -> (r: Result<
    Vec<(String, ExportedProgramInitializer)>,
    ModelError,
>)
    ensures
        match spec_initializers(archive@, program@) {
            Ok(m) => r matches Ok(v) && init_views(v@) == m,
            Err(k) => r matches Err(e) && e == py_error(k),
        },
{
    let specs = exported_program_initializer_specs(program);
    let mut m: Vec<(String, ExportedProgramInitializer)> = Vec::new();
    proof {
        assert(init_views(m@) =~= Seq::<(Seq<char>, InitializerView)>::empty());
    }
    if specs.len() == 0 {
        return Ok(m);
    }
    step_logical(&mut m, &specs, archive, "serialized_state_dict.pt")?;
    step_logical(&mut m, &specs, archive, "serialized_state_dict.json")?;
    step_logical(&mut m, &specs, archive, "serialized_constants.pt")?;
    step_found(&mut m, &specs, archive, "data/weights/model.pt")?;
    step_found(&mut m, &specs, archive, "data/constants/model.pt")?;
    step_config(&mut m, &specs, archive, "model_weights_config.json")?;
    step_config(&mut m, &specs, archive, "model_constants_config.json")?;
    if m.len() == 0 {
        add_metadata_initializers(&mut m, &specs, program)?;
    }
    Ok(m)
}

// ---------------------------------------------------------------------------
// The archive

/// An exported program: its version, its JSON, and its initializers.
pub struct ExportedProgram {
    pub version: Option<String>,
    pub program: JsonValue,
    pub initializers: Vec<(String, ExportedProgramInitializer)>,
}

pub struct ExportedProgramView {
    pub version: Option<Seq<char>>,
    pub program: JsonView,
    pub initializers: Inits,
}

impl View for ExportedProgram {
    type V = ExportedProgramView;

    open spec fn view(&self) -> ExportedProgramView {
        ExportedProgramView {
            version: opt_view(self.version),
            program: self.program@,
            initializers: init_views(self.initializers@),
        }
    }
}

/// What an exported program archive holds: the JSON of its
/// `serialized_exported_program.json` (with the first line of a `version`
/// beside it as version), or else of its `model.json`; the JSON as
/// `parse_exported_program_json` reads it; its initializers; and, without a
/// version entry, the version that the program's schema gives.
pub open spec fn spec_read_exported_program(data: Seq<u8>) -> Result<ExportedProgramView, ErrorKind> {
    match spec_zip_archive(data) {
        Err(k) => Err(k),
        Ok(es) => {
            let main = first_where(es, logical_is("serialized_exported_program.json"@), 0);
            let json = match main {
                Some(i) => entry_text_at(es, first_where(es, named(es[i].name), 0)),
                None => entry_text_at(es, first_where(es, logical_is("model.json"@), 0)),
            };
            let explicit = match main {
                Some(i) => match entry_text_at(es, first_where(es, named(spec_sibling(es[i].name, "version"@)), 0)) {
                    Ok(t) => spec_first_non_empty_line(trim(t)),
                    Err(_) => None,
                },
                None => None,
            };
            match json {
                Err(k) => Err(k),
                Ok(text) => match spec_parse_exported_program_json(text) {
                    Err(k) => Err(k),
                    Ok(program) => match spec_initializers(es, program) {
                        Err(k) => Err(k),
                        Ok(initializers) => Ok(
                            ExportedProgramView {
                                version: if explicit is Some {
                                    explicit
                                } else {
                                    spec_schema_version(program)
                                },
                                program,
                                initializers,
                            },
                        ),
                    },
                },
            }
        },
    }
}

/// Reads an exported program archive.
pub fn read_exported_program(data: &[u8]) -> (r: Result<ExportedProgram, ModelError>)
    ensures
        match spec_read_exported_program(data@) {
            Ok(v) => r matches Ok(p) && p@ == v,
            Err(k) => r matches Err(e) && e == py_error(k),
        },
{
    let archive = ZipArchive::open(data)?;
    proof {
        crate::pytorch::entries::lemma_first_where_bounds(archive@, logical_is("serialized_exported_program.json"@), 0);
    }
    let (json, explicit) = match archive.logical_entry("serialized_exported_program.json") {
        Some(entry) => {
            let explicit = match archive.text_sibling(entry.name, "version") {
                Ok(v) => first_non_empty_line(str_trim(v.as_str())),
                Err(_) => None,
            };
            (archive.text(entry.name)?, explicit)
        },
        None => (archive.text_logical("model.json")?, None),
    };
    let program = parse_exported_program_json(json.as_str())?;
    let initializers = exported_program_initializers(&archive, &program)?;
    let version = match explicit {
        Some(v) => Some(v),
        None => exported_program_schema_version(&program),
    };
    Ok(ExportedProgram { version, program, initializers })
}

impl ExportedProgramArchive {
    /// Reads an exported program archive.
    pub fn read(data: &[u8]) -> (r: Result<ExportedProgram, ModelError>)
        ensures
            match spec_read_exported_program(data@) {
                Ok(v) => r matches Ok(p) && p@ == v,
                Err(k) => r matches Err(e) && e == py_error(k),
            },
    {
        read_exported_program(data)
    }
}

} // verus!
