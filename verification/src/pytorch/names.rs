//! The names that PyTorch archives use: entry paths, versions, groups and
//! source lines.
use vstd::prelude::*;
use vstd::string::StringExecFns;
use crate::chars::{
    str_trim_start, str_views, trim_end_matches, trim_start, ascii_lowercase, find_from, find_from_exec, index_of, last_index_of, last_index_of_exec,
    lemma_find_from_bounds, lemma_last_index_of_bounds, lines, replace_char, rsplit_once, split_once, strip_prefix, str_ascii_lowercase, str_lines,
    str_replace_char, str_rsplit_once, str_split_once, str_strip_prefix, str_trim, trim,
};
use crate::error::{ErrorKind, Format, ModelError, invalid};
use crate::pytorch::py_error;
use crate::pytorch::modules::{opt_view, string_views};
use crate::text::{
    all_ascii, ascii_chars, ascii_string, has_suffix, occurs_at, str_chars, str_ends_with, str_eq,
    str_find, str_slice,
};

verus! {

// ---------------------------------------------------------------------------
// Entry paths

/// The path of an entry inside the model: from its `code/` folder on, else
/// after its last `/`, else the whole name.
pub open spec fn spec_logical_zip_path(name: Seq<char>) -> Seq<char> {
    match find_from(name, "code/"@, 0) {
        Some(j) => name.subrange(j, name.len() as int),
        None => match last_index_of(name, '/', name.len() as int) {
            Some(j) => name.subrange(j + 1, name.len() as int),
            None => name,
        },
    }
}

/// `p` occurs nowhere in `s` from `i` on when the search from `i` finds none.
pub proof fn lemma_find_from_none(s: Seq<char>, p: Seq<char>, i: int, k: int)
    requires
        0 <= i <= k,
        k + p.len() <= s.len(),
        find_from(s, p, i) is None,
    ensures
        s.subrange(k, k + p.len()) != p,
    decreases k - i,
{
    if i < k {
        lemma_find_from_none(s, p, i + 1, k);
    }
}

/// Where the search for `p` succeeds, `p` stands.
pub proof fn lemma_find_from_found(s: Seq<char>, p: Seq<char>, i: int)
    requires
        0 <= i,
    ensures
        find_from(s, p, i) matches Some(j) ==> s.subrange(j, j + p.len()) == p,
    decreases s.len() + 1 - i,
{
    if i + p.len() <= s.len() && s.subrange(i, i + p.len()) != p {
        lemma_find_from_found(s, p, i + 1);
    }
}

/// The path inside the model ends the entry's name, and it is its own path
/// inside the model: it starts with `code/` when the name holds `code/`, and
/// has no `/` at all otherwise.
pub proof fn lemma_logical_zip_path(name: Seq<char>)
    ensures
        ({
            let l = spec_logical_zip_path(name);
            &&& l.len() <= name.len()
            &&& name.subrange(name.len() - l.len(), name.len() as int) == l
            &&& spec_logical_zip_path(l) == l
            &&& find_from(name, "code/"@, 0) is Some ==> l.len() >= 5 && l.subrange(0, 5) == "code/"@
            &&& find_from(name, "code/"@, 0) is None ==> forall|k: int| 0 <= k < l.len() ==> l[k] != '/'
        }),
{
    reveal_strlit("code/");
    let code = "code/"@;
    let l = spec_logical_zip_path(name);
    lemma_find_from_bounds(name, code, 0);
    lemma_find_from_found(name, code, 0);
    lemma_last_index_of_bounds(name, '/', name.len() as int);
    match find_from(name, code, 0) {
        Some(j) => {
            assert(l =~= name.subrange(j, name.len() as int));
            assert(name.subrange(name.len() - l.len(), name.len() as int) =~= l);
            assert(l.subrange(0, 5) =~= name.subrange(j, j + 5));
            assert(find_from(l, code, 0) == Some(0int)) by {
                assert(l.subrange(0, 0 + code.len() as int) =~= code);
            }
            assert(l.subrange(0, l.len() as int) =~= l);
        },
        None => {
            let j0 = last_index_of(name, '/', name.len() as int);
            assert(name.subrange(name.len() - l.len(), name.len() as int) =~= l);
            assert(forall|k: int| 0 <= k < l.len() ==> l[k] != '/') by {
                if j0 is Some {
                    assert forall|k: int| 0 <= k < l.len() implies l[k] != '/' by {
                        assert(l[k] == name[j0->0 + 1 + k]);
                    }
                }
            }
            lemma_find_from_bounds(l, code, 0);
            lemma_find_from_found(l, code, 0);
            if find_from(l, code, 0) is Some {
                let i = find_from(l, code, 0)->0;
                assert(l.subrange(i, i + 5)[4] == code[4]);
                assert(l[i + 4] == '/');
                assert(false);
            }
            lemma_last_index_of_bounds(l, '/', l.len() as int);
            assert(last_index_of(l, '/', l.len() as int) is None);
        },
    }
}

/// The path of a zip entry inside the model.
pub fn logical_zip_path(name: &str) -> (r: &str)
    ensures
        r@ == spec_logical_zip_path(name@),
{
    let chars = str_chars(name);
    let code = str_chars("code/");
    let n = chars.len();
    match find_from_exec(chars.as_slice(), code.as_slice(), 0) {
        Some(j) => str_slice(name, j, n),
        None => match last_index_of_exec(chars.as_slice(), '/', n) {
            Some(j) => str_slice(name, j + 1, n),
            None => name,
        },
    }
}

/// The path of a package entry below its top folder.
pub open spec fn spec_package_relative_path(name: Seq<char>) -> Seq<char> {
    match split_once(name, '/') {
        Some((_, rest)) => rest,
        None => name,
    }
}

/// The path of a package entry below its top folder.
pub fn package_relative_path(name: &str) -> (r: &str)
    ensures
        r@ == spec_package_relative_path(name@),
{
    match str_split_once(name, '/') {
        Some((_, rest)) => rest,
        None => name,
    }
}

// ---------------------------------------------------------------------------
// Versions

/// The PyTorch version that a TorchScript archive version stands for.
pub open spec fn spec_torchscript_version(value: Seq<char>) -> Option<Seq<char>> {
    if value == "1"@ {
        Some("1.3"@)
    } else if value == "2"@ {
        Some("1.5"@)
    } else if value == "3"@ || value == "4"@ {
        Some("1.6"@)
    } else if value == "5"@ {
        Some("1.7"@)
    } else if value == "6"@ {
        Some("1.9"@)
    } else if value == "7"@ {
        Some("1.10"@)
    } else if value == "8"@ || value == "9"@ {
        Some("1.11"@)
    } else if value == "10"@ {
        Some("1.12"@)
    } else {
        None
    }
}

/// Whether the PyTorch release `release` writes TorchScript archives of
/// version `value`: 1.3 writes version 1, 1.5 version 2, 1.6 versions 3 and
/// 4, 1.7 version 5, 1.9 version 6, 1.10 version 7, 1.11 versions 8 and 9,
/// 1.12 version 10.
pub open spec fn release_writes_version(release: Seq<char>, value: Seq<char>) -> bool {
    ||| release == "1.3"@ && value == "1"@
    ||| release == "1.5"@ && value == "2"@
    ||| release == "1.6"@ && (value == "3"@ || value == "4"@)
    ||| release == "1.7"@ && value == "5"@
    ||| release == "1.9"@ && value == "6"@
    ||| release == "1.10"@ && value == "7"@
    ||| release == "1.11"@ && (value == "8"@ || value == "9"@)
    ||| release == "1.12"@ && value == "10"@
}

/// An archive version stands for the PyTorch release that writes it.
pub proof fn lemma_torchscript_version_release(value: Seq<char>)
    ensures
        spec_torchscript_version(value) matches Some(r) ==> release_writes_version(r, value),
{
}

/// The PyTorch version that a TorchScript archive version stands for.
pub fn torchscript_version(value: &str) -> (r: Option<String>)
    ensures
        opt_view(r) == spec_torchscript_version(value@),
{
    if str_eq(value, "1") {
        Some(String::from_str("1.3"))
    } else if str_eq(value, "2") {
        Some(String::from_str("1.5"))
    } else if str_eq(value, "3") || str_eq(value, "4") {
        Some(String::from_str("1.6"))
    } else if str_eq(value, "5") {
        Some(String::from_str("1.7"))
    } else if str_eq(value, "6") {
        Some(String::from_str("1.9"))
    } else if str_eq(value, "7") {
        Some(String::from_str("1.10"))
    } else if str_eq(value, "8") || str_eq(value, "9") {
        Some(String::from_str("1.11"))
    } else if str_eq(value, "10") {
        Some(String::from_str("1.12"))
    } else {
        None
    }
}

/// The version of a package: none when empty, the PyTorch version that a
/// TorchScript version stands for, or the text itself.
pub open spec fn spec_package_version(value: Seq<char>) -> Option<Seq<char>> {
    if value.len() == 0 {
        None
    } else {
        match spec_torchscript_version(value) {
            Some(v) => Some(v),
            None => Some(value),
        }
    }
}

/// The version of a PyTorch package.
pub fn pytorch_package_version(value: &str) -> (r: Option<String>)
    ensures
        opt_view(r) == spec_package_version(value@),
{
    if value.is_empty() {
        return None;
    }
    match torchscript_version(value) {
        Some(v) => Some(v),
        None => Some(String::from_str(value)),
    }
}

/// The inputs that a packaged model's node takes beyond its submodules.
pub open spec fn spec_package_pickle_input_count(operator: Seq<char>) -> usize {
    if operator == "models.DCGAN.DCGAN"@ {
        0
    } else if operator == "multi_acc_v3_package.TTSModelMultiAcc_v3"@ {
        6
    } else if operator == "release_module.TeModel"@ {
        4
    } else if operator == "torchvision.models.shufflenetv2.ShuffleNetV2"@ {
        5
    } else {
        0
    }
}

/// The inputs that a packaged model's node takes beyond its submodules.
pub fn package_pickle_input_count(operator: &str) -> (r: usize)
    ensures
        r == spec_package_pickle_input_count(operator@),
{
    if str_eq(operator, "models.DCGAN.DCGAN") {
        0
    } else if str_eq(operator, "multi_acc_v3_package.TTSModelMultiAcc_v3") {
        6
    } else if str_eq(operator, "release_module.TeModel") {
        4
    } else if str_eq(operator, "torchvision.models.shufflenetv2.ShuffleNetV2") {
        5
    } else {
        0
    }
}

// ---------------------------------------------------------------------------
// State dict keys

/// The group of a state dict key: what comes before its last `.`, `""` for a
/// key without one; `None` for packed parameters, for an empty key and for a
/// key that starts with its only `.`.
pub open spec fn spec_state_dict_group_name(key: Seq<char>) -> Option<Seq<char>> {
    if exists|j: int| occurs_at(key, "._packed_params."@, j) {
        None
    } else {
        match rsplit_once(key, '.') {
            Some((group, _)) => if group.len() == 0 {
                None
            } else {
                Some(group)
            },
            None => if key.len() == 0 {
                None
            } else {
                Some(Seq::empty())
            },
        }
    }
}

/// The group that a state dict key belongs to.
pub fn state_dict_group_name(key: &str) -> (r: Option<&str>)
    ensures
        match spec_state_dict_group_name(key@) {
            Some(g) => r matches Some(s) && s@ == g,
            None => r is None,
        },
{
    if str_find(key, "._packed_params.").is_some() {
        return None;
    }
    match str_rsplit_once(key, '.') {
        Some((group, _)) => if group.is_empty() {
            None
        } else {
            Some(group)
        },
        None => if key.is_empty() {
            None
        } else {
            let empty = "";
            proof {
                reveal_strlit("");
            }
            Some(empty)
        },
    }
}

/// The name of a sparse layout: without `torch.`, with its `_`s made `.`s.
pub open spec fn spec_sparse_layout_name(value: Seq<char>) -> Seq<char> {
    replace_char(
        match strip_prefix(value, "torch."@) {
            Some(rest) => rest,
            None => value,
        },
        '_',
        '.',
    )
}

/// The name of a sparse tensor layout.
pub fn sparse_layout_name(value: &str) -> (r: String)
    ensures
        r@ == spec_sparse_layout_name(value@),
{
    let stripped = match str_strip_prefix(value, "torch.") {
        Some(rest) => rest,
        None => value,
    };
    str_replace_char(stripped, '_', '.')
}

// ---------------------------------------------------------------------------
// Text

/// The first line of `value`, trimmed, when it is not empty.
pub open spec fn spec_first_non_empty_line(value: Seq<char>) -> Option<Seq<char>> {
    let ls = lines(value);
    if ls.len() == 0 || trim(ls[0]).len() == 0 {
        None
    } else {
        Some(trim(ls[0]))
    }
}

/// The first line of `value`, trimmed, when it is not empty.
pub fn first_non_empty_line(value: &str) -> (r: Option<String>)
    ensures
        opt_view(r) == spec_first_non_empty_line(value@),
{
    let ls = str_lines(value);
    if ls.len() == 0 {
        return None;
    }
    let line = str_trim(ls[0]);
    if line.is_empty() {
        None
    } else {
        Some(String::from_str(line))
    }
}

/// The index of the first occurrence of `p` in `data` at or after `i`.
pub open spec fn find_bytes_from(data: Seq<u8>, p: Seq<u8>, i: int) -> Option<int>
    decreases data.len() + 1 - i,
{
    if i < 0 || i + p.len() > data.len() {
        None
    } else if data.subrange(i, i + p.len()) == p {
        Some(i)
    } else {
        find_bytes_from(data, p, i + 1)
    }
}

/// Where the printable ASCII run that ends at `end` starts.
pub open spec fn printable_run_start(data: Seq<u8>, end: int) -> int
    decreases end,
{
    if end <= 0 || end > data.len() || !(0x20 <= data[end - 1] <= 0x7e) {
        end
    } else {
        printable_run_start(data, end - 1)
    }
}

/// The `.py` bytes.
pub open spec fn py_suffix() -> Seq<u8> {
    seq![0x2eu8, 0x70, 0x79]
}

/// The path of a Python source that debug data names: the printable run that
/// ends with the first `.py`.
pub open spec fn spec_debug_python_path(data: Seq<u8>) -> Option<Seq<char>> {
    match find_bytes_from(data, py_suffix(), 0) {
        None => None,
        Some(j) => Some(
            ascii_chars(data.subrange(printable_run_start(data, j + 3), j + 3)),
        ),
    }
}

proof fn lemma_find_bytes_bounds(data: Seq<u8>, p: Seq<u8>, i: int)
    requires
        0 <= i,
    ensures
        find_bytes_from(data, p, i) matches Some(j) ==> i <= j && j + p.len() <= data.len(),
    decreases data.len() + 1 - i,
{
    if i + p.len() <= data.len() && data.subrange(i, i + p.len()) != p {
        lemma_find_bytes_bounds(data, p, i + 1);
    }
}

/// The Python source path that debug data names.
pub fn debug_python_path(data: &[u8]) -> (r: Option<String>)
    ensures
        opt_view(r) == spec_debug_python_path(data@),
{
    let n = data.len();
    if n < 3 {
        proof {
            assert(find_bytes_from(data@, py_suffix(), 0) is None);
        }
        return None;
    }
    let mut i: usize = 0;
    loop
        invariant
            n == data@.len() >= 3,
            i <= n - 3,
            find_bytes_from(data@, py_suffix(), i as int) == find_bytes_from(data@, py_suffix(), 0),
        ensures
            i <= n - 3,
            find_bytes_from(data@, py_suffix(), 0) == Some(i as int),
        decreases n - i,
    {
        if data[i] == 0x2e && data[i + 1] == 0x70 && data[i + 2] == 0x79 {
            proof {
                assert(data@.subrange(i as int, i + 3) =~= py_suffix());
            }
            break;
        }
        proof {
            let w = data@.subrange(i as int, i + 3);
            assert(w[0] == data@[i as int] && w[1] == data@[i + 1] && w[2] == data@[i + 2]);
            assert(w != py_suffix());
        }
        if i == n - 3 {
            proof {
                assert(find_bytes_from(data@, py_suffix(), i + 1) is None);
            }
            return None;
        }
        i = i + 1;
    }
    let found = i;
    let end = found + 3;
    let mut start = end;
    while start > 0 && 0x20 <= data[start - 1] && data[start - 1] <= 0x7e
        invariant
            end <= n == data@.len(),
            start <= end,
            printable_run_start(data@, start as int) == printable_run_start(data@, end as int),
            forall|k: int| start <= k < end ==> 0x20 <= #[trigger] data@[k] <= 0x7e,
        decreases start,
    {
        start = start - 1;
    }
    let run = crate::onnx::slice_range(data, start, end);
    proof {
        assert(all_ascii(run@));
    }
    Some(ascii_string(run))
}

// ---------------------------------------------------------------------------
// File names

/// The extension of a file name: what follows its last `.`, unless nothing
/// precedes that `.`.
pub open spec fn spec_extension(file_name: Seq<char>) -> Option<Seq<char>> {
    match rsplit_once(file_name, '.') {
        Some((stem, extension)) => if stem.len() == 0 {
            None
        } else {
            Some(extension)
        },
        None => None,
    }
}

/// Whether a file name has a pickle extension: `ckpt`, `pkl`, `pickle`,
/// `pth` or `pt`, in any ASCII case.
pub open spec fn spec_is_pickle_path(file_name: Option<Seq<char>>) -> bool {
    match file_name {
        None => false,
        Some(f) => match spec_extension(f) {
            None => false,
            Some(e) => {
                let l = ascii_lowercase(e);
                l == "ckpt"@ || l == "pkl"@ || l == "pickle"@ || l == "pth"@ || l == "pt"@
            },
        },
    }
}

/// Whether a path's file name has a pickle extension.
pub fn is_pickle_path(file_name: Option<&str>) -> (r: bool)
    ensures
        r == spec_is_pickle_path(match file_name {
            Some(f) => Some(f@),
            None => None,
        }),
{
    let name = match file_name {
        Some(name) => name,
        None => return false,
    };
    let extension = match str_rsplit_once(name, '.') {
        Some((stem, extension)) => if stem.is_empty() {
            return false;
        } else {
            extension
        },
        None => return false,
    };
    let lower = str_ascii_lowercase(extension);
    let l = lower.as_str();
    str_eq(l, "ckpt") || str_eq(l, "pkl") || str_eq(l, "pickle") || str_eq(l, "pth") || str_eq(
        l,
        "pt",
    )
}

/// Whether a path's file name is that of a tensor data pickle.
pub fn is_tensor_data_pickle_path(file_name: Option<&str>) -> (r: bool)
    ensures
        r == (match file_name {
            Some(f) => has_suffix(f@, ".tensor.data.pkl"@),
            None => false,
        }),
{
    match file_name {
        Some(name) => str_ends_with(name, ".tensor.data.pkl"),
        None => false,
    }
}

// ---------------------------------------------------------------------------
// TorchScript source

/// The length of `s` without the copies of `c` at its end.
fn trim_end_matches_len(s: &[char], c: char) -> (r: usize)
    ensures
        r <= s@.len(),
        s@.subrange(0, r as int) == trim_end_matches(s@, c),
{
    let mut n = s.len();
    proof {
        assert(s@.subrange(0, n as int) =~= s@);
    }
    while n > 0 && s[n - 1] == c
        invariant
            n <= s@.len(),
            trim_end_matches(s@.subrange(0, n as int), c) == trim_end_matches(s@, c),
        decreases n,
    {
        proof {
            assert(s@.subrange(0, n as int).drop_last() =~= s@.subrange(0, n - 1));
        }
        n = n - 1;
    }
    n
}

/// `s` without the copies of `c` at its end.
pub fn str_trim_end_matches(s: &str, c: char) -> (r: &str)
    ensures
        r@ == trim_end_matches(s@, c),
{
    let chars = str_chars(s);
    let n = trim_end_matches_len(chars.as_slice(), c);
    str_slice(s, 0, n)
}

/// What the scan of a `forward` method's header knows after some lines:
/// whether the header started, the input names so far, whether it ended.
pub open spec fn forward_step(state: (bool, Seq<Seq<char>>, bool), line: Seq<char>) -> (
    bool,
    Seq<Seq<char>>,
    bool,
) {
    let (in_forward, inputs, done) = state;
    let trimmed = trim(line);
    if done {
        state
    } else if strip_prefix(trimmed, "def forward("@) is Some {
        (true, inputs, false)
    } else if !in_forward {
        state
    } else {
        let inputs = match split_once(trimmed, ':') {
            Some((name, _)) => {
                let name = trim_end_matches(trim(name), ',');
                if name != "self"@ && name.len() > 0 {
                    inputs.push(name)
                } else {
                    inputs
                }
            },
            None => inputs,
        };
        (true, inputs, trimmed.len() > 0 && trimmed.last() == ':')
    }
}

/// The scan after the first `k` lines.
pub open spec fn forward_scan(ls: Seq<Seq<char>>, k: nat) -> (bool, Seq<Seq<char>>, bool)
    decreases k,
{
    if k == 0 || k > ls.len() {
        (false, Seq::empty(), false)
    } else {
        forward_step(forward_scan(ls, (k - 1) as nat), ls[k - 1])
    }
}

/// The input names of the `forward` method of a TorchScript source: the
/// names before the `:` of each line after `def forward(`, up to the line that
/// ends with `:`, without `self`.
pub open spec fn spec_forward_inputs(source: Seq<char>) -> Option<Seq<Seq<char>>> {
    let inputs = forward_scan(lines(source), lines(source).len()).1;
    if inputs.len() == 0 {
        None
    } else {
        Some(inputs)
    }
}

proof fn lemma_forward_scan_done(ls: Seq<Seq<char>>, k: nat, m: nat)
    requires
        k <= m <= ls.len(),
        forward_scan(ls, k).2 || k == m,
    ensures
        forward_scan(ls, m) == forward_scan(ls, k),
    decreases m - k,
{
    if k < m {
        lemma_forward_scan_done(ls, k, (m - 1) as nat);
    }
}

/// The input names of the `forward` method of a TorchScript source.
pub fn parse_forward_inputs(source: &str) -> (r: Result<Vec<String>, ModelError>)
    ensures
        match spec_forward_inputs(source@) {
            Some(names) => r matches Ok(v) && string_views(v@) == names,
            None => r matches Err(e) && e == py_error(ErrorKind::Missing),
        },
{
    let ls = str_lines(source);
    let ghost views = str_views(ls@);
    let mut in_forward = false;
    let mut inputs: Vec<String> = Vec::new();
    let mut k: usize = 0;
    proof {
        assert(string_views(inputs@) =~= Seq::<Seq<char>>::empty());
    }
    while k < ls.len()
        invariant_except_break
            !forward_scan(views, k as nat).2,
        invariant
            views == str_views(ls@),
            views == lines(source@),
            k <= ls@.len(),
            forward_scan(views, k as nat).0 == in_forward,
            forward_scan(views, k as nat).1 == string_views(inputs@),
        ensures
            forward_scan(views, k as nat).2 || k == ls@.len(),
        decreases ls@.len() - k,
    {
        let trimmed = str_trim(ls[k]);
        k = k + 1;
        if str_strip_prefix(trimmed, "def forward(").is_some() {
            in_forward = true;
            continue;
        }
        if !in_forward {
            continue;
        }
        if let Some((name, _)) = str_split_once(trimmed, ':') {
            let name = str_trim_end_matches(str_trim(name), ',');
            if !str_eq(name, "self") && !name.is_empty() {
                let ghost before = string_views(inputs@);
                inputs.push(String::from_str(name));
                proof {
                    assert(string_views(inputs@) =~= before.push(name@));
                }
            }
        }
        let ends_with_colon = str_ends_with(trimmed, ":");
        proof {
            reveal_strlit(":");
            let t = trimmed@;
            if t.len() > 0 {
                let tail = t.subrange(t.len() - 1, t.len() as int);
                assert(tail =~= seq![t.last()]);
                if t.last() == ':' {
                    assert(tail =~= ":"@);
                }
                if tail == ":"@ {
                    assert(tail[0] == ":"@[0]);
                }
            }
            assert(ends_with_colon == (t.len() > 0 && t.last() == ':'));
        }
        if ends_with_colon {
            break;
        }
    }
    proof {
        lemma_forward_scan_done(views, k as nat, views.len());
    }
    if inputs.len() == 0 {
        return Err(invalid(Format::PyTorch, ErrorKind::Missing));
    }
    Ok(inputs)
}

/// The first input name of the `forward` method of a TorchScript source.
pub fn parse_forward_input(source: &str) -> (r: Result<String, ModelError>)
    ensures
        match spec_forward_inputs(source@) {
            Some(names) => r matches Ok(s) && s@ == names[0],
            None => r matches Err(e) && e == py_error(ErrorKind::Missing),
        },
{
    let mut inputs = parse_forward_inputs(source)?;
    let first = inputs.remove(0);
    Ok(first)
}

/// The name that a line assigns a dict literal to.
pub open spec fn spec_dict_assignment(line: Seq<char>) -> Option<Seq<char>> {
    match split_once(trim(line), '=') {
        Some((name, rhs)) => if strip_prefix(trim_start(rhs), "{"@) is Some && trim(name).len() > 0 {
            Some(trim(name))
        } else {
            None
        },
        None => None,
    }
}

/// The name that a line assigns a dict literal to.
pub fn parse_dict_assignment(line: &str) -> (r: Option<String>)
    ensures
        opt_view(r) == spec_dict_assignment(line@),
{
    let trimmed = str_trim(line);
    let (name, rhs) = match str_split_once(trimmed, '=') {
        Some(parts) => parts,
        None => return None,
    };
    if str_strip_prefix(str_trim_start(rhs), "{").is_some() {
        let name = str_trim(name);
        if !name.is_empty() {
            return Some(String::from_str(name));
        }
    }
    None
}

} // verus!
