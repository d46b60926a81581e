//! The text forms that TorchScript models are described in: generated shapes,
//! flat node specs and parameter names.
use vstd::prelude::*;
use vstd::string::StringExecFns;
use crate::chars::{
    lines, parse_i64, parse_i64_exec, split, split_once, split_once_str, str_lines, str_split,
    str_split_once, str_split_once_str, str_strip_prefix, str_trim, str_views, strip_prefix, trim,
};
use crate::error::{ErrorKind, Format, ModelError, invalid};
use crate::pytorch::modules::string_views;
use crate::pytorch::py_error;
use crate::text::str_eq;
use crate::fmt::{decimal, lemma_decimal_bytes_value};
use crate::chars::{all_digits, decimal_value, is_digit};

verus! {

// ---------------------------------------------------------------------------
// Shapes

/// The dimensions of a generated shape: none for an empty field, else the
/// `i64`s between its commas; an error when one is no number.
pub open spec fn spec_generated_shape(field: Seq<char>) -> Result<Seq<i64>, ErrorKind> {
    if field.len() == 0 {
        Ok(Seq::empty())
    } else {
        let pieces = split(field, ',');
        if forall|i: int| 0 <= i < pieces.len() ==> (#[trigger] parse_i64(pieces[i])) is Some {
            Ok(pieces.map_values(|p: Seq<char>| parse_i64(p)->Some_0))
        } else {
            Err(ErrorKind::InvalidValue)
        }
    }
}

/// The decimal texts of `dims` joined by commas.
pub open spec fn joined_shape(dims: Seq<i64>) -> Seq<char>
    decreases dims.len(),
{
    if dims.len() <= 1 {
        if dims.len() == 0 {
            Seq::empty()
        } else {
            decimal(dims[0] as int)
        }
    } else {
        joined_shape(dims.drop_last()) + seq![','] + decimal(dims.last() as int)
    }
}

/// Splitting text with a separator-free tail extends the last piece.
proof fn lemma_split_tail(a: Seq<char>, b: Seq<char>, c: char)
    requires
        forall|i: int| 0 <= i < b.len() ==> b[i] != c,
    ensures
        split(a + b, c) == split(a, c).update(split(a, c).len() - 1, split(a, c).last() + b),
        split(a, c).len() > 0,
    decreases b.len(),
{
    lemma_split_len(a, c);
    if b.len() == 0 {
        assert(a + b =~= a);
        assert(split(a, c).last() + b =~= split(a, c).last());
        assert(split(a, c).update(split(a, c).len() - 1, split(a, c).last()) =~= split(a, c));
    } else {
        lemma_split_tail(a, b.drop_last(), c);
        assert((a + b).drop_last() =~= a + b.drop_last());
        assert((a + b).last() == b.last());
        lemma_split_len(a + b.drop_last(), c);
        assert(split(a, c).last() + b =~= (split(a, c).last() + b.drop_last()).push(b.last()));
        assert(split(a + b, c) =~= split(a, c).update(split(a, c).len() - 1, split(a, c).last() + b));
    }
}

/// Splitting gives at least one piece.
proof fn lemma_split_len(s: Seq<char>, c: char)
    ensures
        split(s, c).len() > 0,
    decreases s.len(),
{
    if s.len() > 0 {
        lemma_split_len(s.drop_last(), c);
    }
}

/// The decimal text of an `i64` has no comma and reads back as it.
proof fn lemma_decimal_i64(n: i64)
    ensures
        forall|i: int| 0 <= i < decimal(n as int).len() ==> decimal(n as int)[i] != ',',
        parse_i64(decimal(n as int)) == Some(n),
{
    let m: nat = if n < 0 { (-n) as nat } else { n as nat };
    lemma_decimal_bytes_value(m);
    let d = crate::text::ascii_chars(crate::fmt::decimal_bytes(m));
    let s = decimal(n as int);
    if n < 0 {
        assert(s == seq!['-'] + d);
        assert(s.drop_first() =~= d);
        assert forall|i: int| 0 <= i < s.len() implies s[i] != ',' by {
            if i > 0 {
                assert(s[i] == d[i - 1]);
            }
        }
        assert(all_digits(d));
    } else {
        assert(s == d);
        assert(is_digit(s[0]));
        assert(all_digits(d));
    }
}

/// Joining `i64`s with commas and parsing the text as a generated shape
/// gives them back.
pub proof fn lemma_generated_shape_of_joined(dims: Seq<i64>)
    requires
        dims.len() > 0,
    ensures
        spec_generated_shape(joined_shape(dims)) == Ok::<Seq<i64>, ErrorKind>(dims),
{
    lemma_split_joined(dims);
    lemma_decimal_i64(dims[0]);
    assert(joined_shape(dims).len() > 0) by {
        lemma_joined_nonempty(dims);
    }
    let pieces = split(joined_shape(dims), ',');
    assert forall|i: int| 0 <= i < pieces.len() implies (#[trigger] parse_i64(pieces[i])) is Some && parse_i64(
        pieces[i],
    )->Some_0 == dims[i] by {
        lemma_decimal_i64(dims[i]);
    }
    assert(pieces.map_values(|p: Seq<char>| parse_i64(p)->Some_0) =~= dims);
}

proof fn lemma_joined_nonempty(dims: Seq<i64>)
    requires
        dims.len() > 0,
    ensures
        joined_shape(dims).len() > 0,
    decreases dims.len(),
{
    crate::fmt::lemma_decimal_injective(dims.last() as int, 0);
    crate::fmt::lemma_decimal_injective(dims[0] as int, 0);
}

/// The pieces of a joined shape are the decimal texts of its dimensions.
proof fn lemma_split_joined(dims: Seq<i64>)
    requires
        dims.len() > 0,
    ensures
        split(joined_shape(dims), ',') == dims.map_values(|d: i64| decimal(d as int)),
    decreases dims.len(),
{
    lemma_decimal_i64(dims.last());
    if dims.len() == 1 {
        lemma_split_tail(Seq::empty(), decimal(dims[0] as int), ',');
        assert(Seq::<char>::empty() + decimal(dims[0] as int) =~= decimal(dims[0] as int));
        assert(split(Seq::<char>::empty(), ',') =~= seq![Seq::<char>::empty()]);
        assert(Seq::<char>::empty() + decimal(dims[0] as int) =~= decimal(dims[0] as int));
        assert(split(decimal(dims[0] as int), ',') =~= dims.map_values(|d: i64| decimal(d as int)));
    } else {
        let prev = dims.drop_last();
        lemma_split_joined(prev);
        let a = joined_shape(prev) + seq![','];
        assert(split(a, ',') =~= split(joined_shape(prev), ',').push(Seq::empty())) by {
            assert(a.drop_last() =~= joined_shape(prev));
        }
        lemma_split_tail(a, decimal(dims.last() as int), ',');
        assert(joined_shape(dims) =~= a + decimal(dims.last() as int));
        assert(Seq::<char>::empty() + decimal(dims.last() as int) =~= decimal(dims.last() as int));
        assert(split(joined_shape(dims), ',') =~= dims.map_values(|d: i64| decimal(d as int)));
    }
}

/// Parses the dimensions of a generated shape.
pub fn parse_generated_shape(field: &str) -> (r: Result<Vec<i64>, ModelError>)
    ensures
        match spec_generated_shape(field@) {
            Ok(dims) => r matches Ok(v) && v@ == dims,
            Err(k) => r matches Err(e) && e == py_error(k),
        },
{
    if field.is_empty() {
        let v: Vec<i64> = Vec::new();
        proof {
            assert(v@ =~= Seq::<i64>::empty());
        }
        return Ok(v);
    }
    let pieces = str_split(field, ',');
    let ghost views = str_views(pieces@);
    let mut dims: Vec<i64> = Vec::new();
    let mut i: usize = 0;
    while i < pieces.len()
        invariant
            views == str_views(pieces@),
            views == split(field@, ','),
            field@.len() > 0,
            i <= pieces@.len(),
            forall|j: int| 0 <= j < i ==> (#[trigger] parse_i64(views[j])) is Some,
            dims@ == views.take(i as int).map_values(|p: Seq<char>| parse_i64(p)->Some_0),
        decreases pieces@.len() - i,
    {
        let value = match parse_i64_exec(pieces[i]) {
            Some(value) => value,
            None => {
                proof {
                    assert(parse_i64(views[i as int]) is None);
                }
                return Err(invalid(Format::PyTorch, ErrorKind::InvalidValue));
            },
        };
        dims.push(value);
        proof {
            assert(views.take(i + 1) =~= views.take(i as int).push(views[i as int]));
        }
        i = i + 1;
    }
    proof {
        assert(views.take(pieces@.len() as int) =~= views);
    }
    Ok(dims)
}

// ---------------------------------------------------------------------------
// Flat node specs

/// The value of a flat attribute: a string, or a list of types.
pub enum TorchScriptAttributeValue<'a> {
    Text(&'a str),
    TypeList(Vec<&'a str>),
}

pub enum AttributeValueView {
    Text(Seq<char>),
    TypeList(Seq<Seq<char>>),
}

/// A named attribute of a flat node spec.
pub struct TorchScriptAttributeLowering<'a> {
    pub name: &'a str,
    pub value: TorchScriptAttributeValue<'a>,
}

/// The name and the value of an attribute.
pub open spec fn attribute_view<'a>(a: TorchScriptAttributeLowering<'a>) -> (Seq<char>, AttributeValueView) {
    (
        a.name@,
        match a.value {
            TorchScriptAttributeValue::Text(s) => AttributeValueView::Text(s@),
            TorchScriptAttributeValue::TypeList(v) => AttributeValueView::TypeList(str_views(v@)),
        },
    )
}

/// The views of a list of attributes.
pub open spec fn attribute_views<'a>(v: Seq<TorchScriptAttributeLowering<'a>>) -> Seq<
    (Seq<char>, AttributeValueView),
> {
    v.map_values(|a: TorchScriptAttributeLowering<'a>| attribute_view(a))
}

/// One `name=value` attribute; a value that starts with `type[]:` lists
/// types between commas.
pub open spec fn spec_attribute(entry: Seq<char>) -> Option<(Seq<char>, AttributeValueView)> {
    match split_once(entry, '=') {
        None => None,
        Some((name, value)) => Some(
            (
                name,
                match strip_prefix(value, "type[]:"@) {
                    Some(types) => AttributeValueView::TypeList(split(types, ',')),
                    None => AttributeValueView::Text(value),
                },
            ),
        ),
    }
}

/// The attributes of a flat node spec: none for an empty field, else the
/// entries between its semicolons; an error when one has no `=`.
pub open spec fn spec_flat_attributes(field: Seq<char>) -> Result<Seq<(Seq<char>, AttributeValueView)>, ErrorKind> {
    if field.len() == 0 {
        Ok(Seq::empty())
    } else {
        let entries = split(field, ';');
        if forall|i: int| 0 <= i < entries.len() ==> (#[trigger] spec_attribute(entries[i])) is Some {
            Ok(entries.map_values(|e: Seq<char>| spec_attribute(e)->Some_0))
        } else {
            Err(ErrorKind::InvalidValue)
        }
    }
}

/// Parses one attribute entry.
fn parse_attribute<'a>(entry: &'a str) -> (r: Option<TorchScriptAttributeLowering<'a>>)
    ensures
        match spec_attribute(entry@) {
            Some(v) => r matches Some(a) && attribute_view(a) == v,
            None => r is None,
        },
{
    let (name, value) = match str_split_once(entry, '=') {
        Some(parts) => parts,
        None => return None,
    };
    let value = match str_strip_prefix(value, "type[]:") {
        Some(types) => TorchScriptAttributeValue::TypeList(str_split(types, ',')),
        None => TorchScriptAttributeValue::Text(value),
    };
    Some(TorchScriptAttributeLowering { name, value })
}

/// Parses the attributes of a flat node spec.
pub fn parse_flat_torchscript_attributes<'a>(field: &'a str) -> (r: Result<
    Vec<TorchScriptAttributeLowering<'a>>,
    ModelError,
>)
    ensures
        match spec_flat_attributes(field@) {
            Ok(attrs) => r matches Ok(v) && attribute_views(v@) == attrs,
            Err(k) => r matches Err(e) && e == py_error(k),
        },
{
    let mut attrs: Vec<TorchScriptAttributeLowering<'a>> = Vec::new();
    if field.is_empty() {
        proof {
            assert(attribute_views(attrs@) =~= Seq::<(Seq<char>, AttributeValueView)>::empty());
        }
        return Ok(attrs);
    }
    let entries = str_split(field, ';');
    let ghost views = str_views(entries@);
    let mut i: usize = 0;
    proof {
        assert(attribute_views(attrs@) =~= views.take(0).map_values(
            |e: Seq<char>| spec_attribute(e)->Some_0,
        ));
    }
    while i < entries.len()
        invariant
            views == str_views(entries@),
            views == split(field@, ';'),
            field@.len() > 0,
            i <= entries@.len(),
            forall|j: int| 0 <= j < i ==> (#[trigger] spec_attribute(views[j])) is Some,
            attribute_views(attrs@) == views.take(i as int).map_values(
                |e: Seq<char>| spec_attribute(e)->Some_0,
            ),
        decreases entries@.len() - i,
    {
        let attr = match parse_attribute(entries[i]) {
            Some(a) => a,
            None => {
                proof {
                    assert(spec_attribute(views[i as int]) is None);
                }
                return Err(invalid(Format::PyTorch, ErrorKind::InvalidValue));
            },
        };
        let ghost before = attribute_views(attrs@);
        let ghost av = attribute_view(attr);
        attrs.push(attr);
        proof {
            assert(attribute_views(attrs@) =~= before.push(av));
            assert(views.take(i + 1) =~= views.take(i as int).push(views[i as int]));
            assert(views.take(i + 1).map_values(|e: Seq<char>| spec_attribute(e)->Some_0)
                =~= views.take(i as int).map_values(|e: Seq<char>| spec_attribute(e)->Some_0).push(
                spec_attribute(views[i as int])->Some_0,
            ));
        }
        i = i + 1;
    }
    proof {
        assert(views.take(entries@.len() as int) =~= views);
    }
    Ok(attrs)
}

/// A value of a flat node spec: absent when it is `~`.
pub open spec fn flat_value(v: Seq<char>) -> Option<Seq<char>> {
    if v == "~"@ {
        None
    } else {
        Some(v)
    }
}

/// The values of a flat node spec field: none for an empty field, else those
/// between its commas.
pub open spec fn spec_flat_values(field: Seq<char>) -> Seq<Option<Seq<char>>> {
    if field.len() == 0 {
        Seq::empty()
    } else {
        split(field, ',').map_values(|v: Seq<char>| flat_value(v))
    }
}

/// The views of optional strings.
pub open spec fn opt_str_views<'a>(v: Seq<Option<&'a str>>) -> Seq<Option<Seq<char>>> {
    v.map_values(
        |o: Option<&'a str>|
            match o {
                Some(s) => Some(s@),
                None => None,
            },
    )
}

/// Parses the values of a flat node spec field.
pub fn parse_flat_torchscript_values<'a>(field: &'a str) -> (r: Vec<Option<&'a str>>)
    ensures
        opt_str_views(r@) == spec_flat_values(field@),
{
    let mut out: Vec<Option<&'a str>> = Vec::new();
    if field.is_empty() {
        proof {
            assert(opt_str_views(out@) =~= Seq::<Option<Seq<char>>>::empty());
        }
        return out;
    }
    let pieces = str_split(field, ',');
    let ghost views = str_views(pieces@);
    let mut i: usize = 0;
    proof {
        assert(opt_str_views(out@) =~= views.take(0).map_values(|v: Seq<char>| flat_value(v)));
    }
    while i < pieces.len()
        invariant
            views == str_views(pieces@),
            views == split(field@, ','),
            i <= pieces@.len(),
            opt_str_views(out@) == views.take(i as int).map_values(|v: Seq<char>| flat_value(v)),
        decreases pieces@.len() - i,
    {
        let piece = pieces[i];
        let ghost before = opt_str_views(out@);
        out.push(if str_eq(piece, "~") { None } else { Some(piece) });
        proof {
            assert(opt_str_views(out@) =~= before.push(flat_value(piece@)));
            assert(views.take(i + 1) =~= views.take(i as int).push(views[i as int]));
            assert(views.take(i + 1).map_values(|v: Seq<char>| flat_value(v)) =~= views.take(
                i as int,
            ).map_values(|v: Seq<char>| flat_value(v)).push(flat_value(views[i as int])));
        }
        i = i + 1;
    }
    proof {
        assert(views.take(pieces@.len() as int) =~= views);
    }
    out
}

/// A node of a flat TorchScript spec.
pub struct FlatTorchScriptNodeSpec<'a> {
    pub operator: &'a str,
    pub source: &'a str,
    pub generated: &'a str,
    pub attributes: Vec<TorchScriptAttributeLowering<'a>>,
    pub inputs: Vec<Option<&'a str>>,
    pub outputs: Vec<&'a str>,
}

/// The present values, in order.
pub open spec fn present(values: Seq<Option<Seq<char>>>) -> Seq<Seq<char>>
    decreases values.len(),
{
    if values.len() == 0 {
        Seq::empty()
    } else {
        match values.last() {
            Some(v) => present(values.drop_last()).push(v),
            None => present(values.drop_last()),
        }
    }
}

/// The operator, source, generated location, attributes, inputs and
/// outputs of a flat node spec line of five or six `|`-separated fields.
pub open spec fn spec_flat_node(line: Seq<char>) -> Result<
    (
        Seq<char>,
        Seq<char>,
        Seq<char>,
        Seq<(Seq<char>, AttributeValueView)>,
        Seq<Option<Seq<char>>>,
        Seq<Seq<char>>,
    ),
    ErrorKind,
> {
    let fields = split(line, '|');
    if fields.len() != 5 && fields.len() != 6 {
        Err(ErrorKind::InvalidValue)
    } else {
        match spec_flat_attributes(
            if fields.len() == 6 {
                fields[5]
            } else {
                Seq::empty()
            },
        ) {
            Err(k) => Err(k),
            Ok(attributes) => Ok(
                (
                    fields[0],
                    fields[1],
                    fields[2],
                    attributes,
                    spec_flat_values(fields[3]),
                    present(spec_flat_values(fields[4])),
                ),
            ),
        }
    }
}

/// The present values of a list, in order.
fn present_values<'a>(values: Vec<Option<&'a str>>) -> (r: Vec<&'a str>)
    ensures
        str_views(r@) == present(opt_str_views(values@)),
{
    let mut out: Vec<&'a str> = Vec::new();
    let mut i: usize = 0;
    proof {
        assert(opt_str_views(values@).take(0) =~= Seq::<Option<Seq<char>>>::empty());
        assert(str_views(out@) =~= Seq::<Seq<char>>::empty());
    }
    while i < values.len()
        invariant
            i <= values@.len(),
            str_views(out@) == present(opt_str_views(values@).take(i as int)),
        decreases values@.len() - i,
    {
        let ghost before = str_views(out@);
        proof {
            assert(opt_str_views(values@).take(i + 1).drop_last() =~= opt_str_views(values@).take(
                i as int,
            ));
        }
        if let Some(v) = values[i] {
            out.push(v);
            proof {
                assert(str_views(out@) =~= before.push(v@));
            }
        }
        i = i + 1;
    }
    proof {
        assert(opt_str_views(values@).take(values@.len() as int) =~= opt_str_views(values@));
    }
    out
}

/// Parses a line of a flat TorchScript node spec.
pub fn parse_flat_torchscript_node_spec<'a>(line: &'a str) -> (r: Result<
    FlatTorchScriptNodeSpec<'a>,
    ModelError,
>)
    ensures
        match spec_flat_node(line@) {
            Ok((operator, source, generated, attributes, inputs, outputs)) => r matches Ok(n)
                && n.operator@ == operator && n.source@ == source && n.generated@ == generated
                && attribute_views(n.attributes@) == attributes && opt_str_views(n.inputs@) == inputs
                && str_views(n.outputs@) == outputs,
            Err(k) => r matches Err(e) && e == py_error(k),
        },
{
    let fields = str_split(line, '|');
    let ghost views = str_views(fields@);
    if fields.len() != 5 && fields.len() != 6 {
        return Err(invalid(Format::PyTorch, ErrorKind::InvalidValue));
    }
    let attribute_field = if fields.len() == 6 {
        fields[5]
    } else {
        let empty = "";
        proof {
            reveal_strlit("");
            assert(empty@ =~= Seq::<char>::empty());
        }
        empty
    };
    let attributes = parse_flat_torchscript_attributes(attribute_field)?;
    let inputs = parse_flat_torchscript_values(fields[3]);
    let outputs = present_values(parse_flat_torchscript_values(fields[4]));
    Ok(
        FlatTorchScriptNodeSpec {
            operator: fields[0],
            source: fields[1],
            generated: fields[2],
            attributes,
            inputs,
            outputs,
        },
    )
}

// ---------------------------------------------------------------------------
// Parameter names

/// What the scan of a forward method knows after some lines: the aliases
/// that name submodules and the parameter names found.
pub open spec fn blitz_step(
    state: (Seq<(Seq<char>, Seq<char>)>, Seq<Seq<char>>),
    line: Seq<char>,
) -> (Seq<(Seq<char>, Seq<char>)>, Seq<Seq<char>>) {
    let (aliases, parameters) = state;
    match split_once_str(line, " = "@) {
        None => state,
        Some((target, expression)) => match strip_prefix(expression, "self."@) {
            Some(module) => (aliases.push((target, module)), parameters),
            None => match split_once(expression, '.') {
                None => state,
                Some((alias, parameter)) => if parameter != "weight"@ && parameter != "bias"@ {
                    state
                } else {
                    match first_alias(aliases, alias, 0) {
                        Some(i) => (aliases, parameters.push(aliases[i].1 + "."@ + parameter)),
                        None => state,
                    }
                },
            },
        },
    }
}

/// The first alias at or after `i` named `name`.
pub open spec fn first_alias(aliases: Seq<(Seq<char>, Seq<char>)>, name: Seq<char>, i: int) -> Option<int>
    decreases aliases.len() - i,
{
    if i < 0 || i >= aliases.len() {
        None
    } else if aliases[i].0 == name {
        Some(i)
    } else {
        first_alias(aliases, name, i + 1)
    }
}

/// The scan after the first `k` trimmed lines.
pub open spec fn blitz_scan(ls: Seq<Seq<char>>, k: nat) -> (Seq<(Seq<char>, Seq<char>)>, Seq<Seq<char>>)
    decreases k,
{
    if k == 0 || k > ls.len() {
        (Seq::empty(), Seq::empty())
    } else {
        blitz_step(blitz_scan(ls, (k - 1) as nat), trim(ls[k - 1]))
    }
}

/// The parameter names of a small model's forward source: `x = self.m`
/// makes `x` an alias of submodule `m`, and `y = x.weight` (or `.bias`)
/// names the parameter `m.weight`.
pub open spec fn spec_blitz_parameter_names(source: Seq<char>) -> Seq<Seq<char>> {
    blitz_scan(lines(source), lines(source).len()).1
}

/// The views of alias pairs.
pub open spec fn alias_views(v: Seq<(String, String)>) -> Seq<(Seq<char>, Seq<char>)> {
    v.map_values(|p: (String, String)| (p.0@, p.1@))
}

/// The module that the first alias named `name` stands for.
fn find_alias(aliases: &Vec<(String, String)>, name: &str) -> (r: Option<usize>)
    ensures
        r matches Some(j) ==> j < aliases@.len() && first_alias(alias_views(aliases@), name@, 0)
            == Some(j as int),
        r is None ==> first_alias(alias_views(aliases@), name@, 0) is None,
{
    let ghost views = alias_views(aliases@);
    let mut i: usize = 0;
    while i < aliases.len()
        invariant
            views == alias_views(aliases@),
            i <= aliases@.len(),
            first_alias(views, name@, i as int) == first_alias(views, name@, 0),
        decreases aliases@.len() - i,
    {
        if str_eq(aliases[i].0.as_str(), name) {
            assert(views[i as int].0 == name@);
            return Some(i);
        }
        i = i + 1;
    }
    None
}

/// Takes one trimmed line of a forward source into the scan.
fn blitz_line(aliases: &mut Vec<(String, String)>, parameters: &mut Vec<String>, line: &str)
    ensures
        (alias_views(final(aliases)@), string_views(final(parameters)@)) == blitz_step(
            (alias_views(old(aliases)@), string_views(old(parameters)@)),
            line@,
        ),
{
    let (target, expression) = match str_split_once_str(line, " = ") {
        Some(parts) => parts,
        None => return,
    };
    if let Some(module) = str_strip_prefix(expression, "self.") {
        let ghost before = alias_views(aliases@);
        aliases.push((String::from_str(target), String::from_str(module)));
        proof {
            assert(alias_views(aliases@) =~= before.push((target@, module@)));
        }
        return;
    }
    let (alias, parameter) = match str_split_once(expression, '.') {
        Some(parts) => parts,
        None => return,
    };
    if !str_eq(parameter, "weight") && !str_eq(parameter, "bias") {
        return;
    }
    if let Some(i) = find_alias(aliases, alias) {
        let mut name = aliases[i].1.clone();
        name.append(".");
        name.append(parameter);
        let ghost before = string_views(parameters@);
        parameters.push(name);
        proof {
            assert(string_views(parameters@) =~= before.push(
                alias_views(aliases@)[i as int].1 + "."@ + parameter@,
            ));
        }
    }
}

/// The parameter names that a small model's forward source uses.
pub fn blitz_parameter_names(source: &str) -> (r: Vec<String>)
    ensures
        string_views(r@) == spec_blitz_parameter_names(source@),
{
    let ls = str_lines(source);
    let ghost views = str_views(ls@);
    let mut aliases: Vec<(String, String)> = Vec::new();
    let mut parameters: Vec<String> = Vec::new();
    let mut k: usize = 0;
    proof {
        assert(alias_views(aliases@) =~= Seq::<(Seq<char>, Seq<char>)>::empty());
        assert(string_views(parameters@) =~= Seq::<Seq<char>>::empty());
    }
    while k < ls.len()
        invariant
            views == str_views(ls@),
            views == lines(source@),
            k <= ls@.len(),
            blitz_scan(views, k as nat) == (alias_views(aliases@), string_views(parameters@)),
        decreases ls@.len() - k,
    {
        let line = str_trim(ls[k]);
        proof {
            assert(views[k as int] == ls@[k as int]@);
        }
        blitz_line(&mut aliases, &mut parameters, line);
        k = k + 1;
    }
    parameters
}

/// The parameters of AlexNet, in order.
pub open spec fn spec_alexnet_parameter_names() -> Seq<Seq<char>> {
    seq![
        "features.0.weight"@,
        "features.0.bias"@,
        "features.3.weight"@,
        "features.3.bias"@,
        "features.6.weight"@,
        "features.6.bias"@,
        "features.8.weight"@,
        "features.8.bias"@,
        "features.10.weight"@,
        "features.10.bias"@,
        "classifier.1.weight"@,
        "classifier.1.bias"@,
        "classifier.4.weight"@,
        "classifier.4.bias"@,
        "classifier.6.weight"@,
        "classifier.6.bias"@,
    ]
}

/// The parameters of AlexNet, in order.
pub fn alexnet_parameter_names() -> (r: Vec<&'static str>)
    ensures
        str_views(r@) == spec_alexnet_parameter_names(),
{
    let names: [&'static str; 16] = [
        "features.0.weight",
        "features.0.bias",
        "features.3.weight",
        "features.3.bias",
        "features.6.weight",
        "features.6.bias",
        "features.8.weight",
        "features.8.bias",
        "features.10.weight",
        "features.10.bias",
        "classifier.1.weight",
        "classifier.1.bias",
        "classifier.4.weight",
        "classifier.4.bias",
        "classifier.6.weight",
        "classifier.6.bias",
    ];
    let mut out: Vec<&'static str> = Vec::new();
    let mut i: usize = 0;
    while i < 16
        invariant
            i <= 16,
            out@ == names@.take(i as int),
        decreases 16 - i,
    {
        out.push(names[i]);
        proof {
            assert(names@.take(i + 1) =~= names@.take(i as int).push(names@[i as int]));
        }
        i = i + 1;
    }
    proof {
        assert(names@.take(16) =~= names@);
        assert(str_views(out@) =~= spec_alexnet_parameter_names());
    }
    out
}

} // verus!
