//! The text a config is shown as: one line per field with the env keys it
//! reads, and the lines of a build-time constants module and of the cfg
//! directives for a build script.

use super::attrs::FieldAttrs;
use super::attrs::FieldModel;
use super::fields::field_keys;
use super::fields::nested_child_prefix;
use super::fields::spec_child_prefix;
use super::fields::spec_field_keys;
use super::plan::is_stringish;
use super::plan::spec_is_stringish;
use super::plan::spec_last_ident_is;
use super::plan::type_last_ident_is;
use super::plan::TypeShape;
use super::text::debug_quoted;
use super::text::indent;
use super::text::join_texts;
use super::text::remove_spaces;
use super::text::same_text;
use super::text::spec_debug_quoted;
use super::text::spec_indent;
use super::text::spec_join;
use super::text::without_spaces;
use vstd::prelude::*;
use vstd::string::StringExecFns;

verus! {

/// How the keys of a scalar field are shown: its keys under `prefix`,
/// separated by `, `.
pub open spec fn spec_display_keys(prefix: Seq<char>, name: Seq<char>, m: FieldModel) -> Seq<char> {
    spec_join(spec_field_keys(prefix, name, m), ", "@)
}

/// How the keys of a scalar field are shown: its keys under `prefix`,
/// separated by `, `.
pub fn display_keys(prefix: &str, field_name: &str, attrs: &FieldAttrs) -> (shown: String)
    ensures
        shown@ == spec_display_keys(prefix@, field_name@, attrs.model()),
{
    let keys = field_keys(prefix, field_name, attrs);
    join_texts(&keys, ", ")
}

/// The line a field is shown with at `depth` under `prefix`, given the debug
/// text of its value and, for a nested field, its struct's own `PREFIX`; and
/// for a sub-struct the prefix it is shown under one level deeper. A skipped field shows its value and `(skipped)`; a
/// sub-struct shows only its name and a colon; a sensitive field shows `***`
/// in place of its value; any other field shows its value; the last two add
/// their keys in brackets.
pub open spec fn spec_display_field(
    depth: nat,
    prefix: Seq<char>,
    name: Seq<char>,
    m: FieldModel,
    value: Seq<char>,
    own: Option<Seq<char>>,
) -> (Seq<char>, Option<Seq<char>>) {
    let pad = spec_indent(depth);
    if m.skip {
        (pad + name + " = "@ + value + " (skipped)\n"@, None)
    } else if m.flatten {
        (pad + name + ":\n"@, Some(prefix))
    } else if m.nested {
        (pad + name + ":\n"@, Some(spec_child_prefix(prefix, name, m, own)))
    } else if m.sensitive {
        (pad + name + " = *** ("@ + spec_display_keys(prefix, name, m) + ")\n"@, None)
    } else {
        (pad + name + " = "@ + value + " ("@ + spec_display_keys(prefix, name, m) + ")\n"@, None)
    }
}

/// The line a field is shown with (see [`spec_display_field`]).
pub fn display_field(
    depth: usize,
    prefix: &str,
    field_name: &str,
    attrs: &FieldAttrs,
    value_text: &str,
    own_prefix: Option<&str>,
) -> (shown: (String, Option<String>))
    ensures
        shown.0@ == spec_display_field(
            depth as nat,
            prefix@,
            field_name@,
            attrs.model(),
            value_text@,
            super::fields::opt_str(own_prefix),
        ).0,
        match shown.1 {
            Some(p) => spec_display_field(
                depth as nat,
                prefix@,
                field_name@,
                attrs.model(),
                value_text@,
                super::fields::opt_str(own_prefix),
            ).1 == Some(p@),
            None => spec_display_field(
                depth as nat,
                prefix@,
                field_name@,
                attrs.model(),
                value_text@,
                super::fields::opt_str(own_prefix),
            ).1 is None,
        },
{
    let mut line = indent(depth);
    line.append(field_name);
    if attrs.skip {
        line.append(" = ");
        line.append(value_text);
        line.append(" (skipped)\n");
        return (line, None);
    }
    if attrs.flatten || attrs.nested {
        line.append(":\n");
        let child = if attrs.flatten {
            prefix.to_owned()
        } else {
            nested_child_prefix(prefix, field_name, attrs, own_prefix)
        };
        return (line, Some(child));
    }
    let keys = display_keys(prefix, field_name, attrs);
    if attrs.sensitive {
        line.append(" = *** (");
    } else {
        line.append(" = ");
        line.append(value_text);
        line.append(" (");
    }
    line.append(keys.as_str());
    line.append(")\n");
    (line, None)
}

/// The first line of a build-time constants module.
pub open spec fn spec_module_header() -> Seq<char> {
    "// generated by conflaguration::codegen — do not edit by hand\n"@
}

/// The first line of a build-time constants module: a do-not-edit header.
pub fn module_header() -> (header: &'static str)
    ensures
        header@ == spec_module_header(),
{
    "// generated by conflaguration::codegen — do not edit by hand\n"
}

/// The constant a field becomes, given its value's display text: text
/// fields become a quoted `&str`, any other field keeps its type (without
/// spaces) and its value as displayed.
pub open spec fn spec_const_line(
    const_name: Seq<char>,
    stringish: bool,
    type_text: Seq<char>,
    value: Seq<char>,
) -> Seq<char> {
    if stringish {
        "pub const "@ + const_name + ": &str = "@ + spec_debug_quoted(value) + ";\n"@
    } else {
        "pub const "@ + const_name + ": "@ + without_spaces(type_text) + " = "@ + value + ";\n"@
    }
}

/// The constant a field becomes (see [`spec_const_line`]).
pub fn const_line(const_name: &str, shape: &TypeShape, type_text: &str, value_text: &str) -> (line:
    String)
    ensures
        line@ == spec_const_line(
            const_name@,
            spec_is_stringish(shape.model()),
            type_text@,
            value_text@,
        ),
{
    let mut line = "pub const ".to_owned();
    line.append(const_name);
    if is_stringish(shape) {
        line.append(": &str = ");
        let quoted = debug_quoted(value_text);
        line.append(quoted.as_str());
    } else {
        line.append(": ");
        let ty = remove_spaces(type_text);
        line.append(ty.as_str());
        line.append(" = ");
        line.append(value_text);
    }
    line.append(";\n");
    line
}

/// A constants module: the header, then the lines in order.
pub open spec fn spec_const_module(lines: Seq<Seq<char>>) -> Seq<char>
    decreases lines.len(),
{
    if lines.len() == 0 {
        spec_module_header()
    } else {
        spec_const_module(lines.drop_last()) + lines.last()
    }
}

/// A constants module: the header, then the lines in order.
pub fn const_module(lines: &Vec<String>) -> (module: String)
    ensures
        module@ == spec_const_module(super::text::texts(lines@)),
{
    let mut module = module_header().to_owned();
    let mut i: usize = 0;
    while i < lines.len()
        invariant
            i <= lines@.len(),
            module@ == spec_const_module(super::text::texts(lines@.subrange(0, i as int))),
        decreases lines@.len() - i,
    {
        proof {
            let head = super::text::texts(lines@.subrange(0, i as int + 1));
            assert(head.drop_last() =~= super::text::texts(lines@.subrange(0, i as int)));
        }
        module.append(lines[i].as_str());
        i = i + 1;
    }
    proof {
        assert(lines@.subrange(0, lines@.len() as int) =~= lines@);
    }
    module
}

/// The cfg directive a field gives a build script under `prefix`, given its
/// value's display text: a `bool` field gives a bare flag when true and
/// nothing when false; any other field gives the flag with its value quoted.
pub open spec fn spec_cfg_line(prefix: Seq<char>, field: Seq<char>, is_bool: bool, value: Seq<char>) -> Option<
    Seq<char>,
> {
    let flag = "cargo:rustc-cfg="@ + prefix + "_"@ + field;
    if is_bool {
        if value == "true"@ {
            Some(flag)
        } else {
            None
        }
    } else {
        Some(flag + "="@ + spec_debug_quoted(value))
    }
}

/// The cfg directive a field gives a build script (see [`spec_cfg_line`]).
pub fn cfg_line(prefix: &str, field: &str, shape: &TypeShape, value_text: &str) -> (line: Option<
    String,
>)
    ensures
        match line {
            Some(l) => spec_cfg_line(
                prefix@,
                field@,
                spec_last_ident_is(shape.model(), "bool"@),
                value_text@,
            ) == Some(l@),
            None => spec_cfg_line(
                prefix@,
                field@,
                spec_last_ident_is(shape.model(), "bool"@),
                value_text@,
            ) is None,
        },
{
    let mut flag = "cargo:rustc-cfg=".to_owned();
    flag.append(prefix);
    flag.append("_");
    flag.append(field);
    if type_last_ident_is(shape, "bool") {
        if same_text(value_text, "true") {
            Some(flag)
        } else {
            None
        }
    } else {
        flag.append("=");
        let quoted = debug_quoted(value_text);
        flag.append(quoted.as_str());
        Some(flag)
    }
}


/// A sensitive scalar field is shown the same whatever its value: the value
/// never appears in its line.
pub proof fn law_sensitive_value_is_masked(
    depth: nat,
    prefix: Seq<char>,
    name: Seq<char>,
    m: FieldModel,
    value: Seq<char>,
    other: Seq<char>,
    own: Option<Seq<char>>,
)
    requires
        m.sensitive,
        !m.skip,
        !m.nested,
        !m.flatten,
    ensures
        spec_display_field(depth, prefix, name, m, value, own) == spec_display_field(
            depth,
            prefix,
            name,
            m,
            other,
            own,
        ),
{
}

/// What is shown agrees with what is read: a scalar field shows exactly the
/// keys it is resolved from, in cascade order, and a sub-struct is shown under
/// the prefix it is resolved under.
pub proof fn law_display_agrees_with_resolution(
    depth: nat,
    prefix: Seq<char>,
    name: Seq<char>,
    m: FieldModel,
    s: super::attrs::StructModel,
    value: Seq<char>,
    own: Option<Seq<char>>,
)
    requires
        !m.skip,
    ensures
        super::fields::spec_field_source(prefix, name, m, s, own) matches super::fields::SourceModel::Scalar(
            keys,
            _,
        ) ==> spec_display_keys(prefix, name, m) == spec_join(keys, ", "@),
        super::fields::spec_field_source(prefix, name, m, s, own) matches super::fields::SourceModel::Nested(
            child,
        ) ==> spec_display_field(depth, prefix, name, m, value, own).1 == Some(child),
        super::fields::spec_field_source(prefix, name, m, s, own) is Flattened ==> spec_display_field(
            depth,
            prefix,
            name,
            m,
            value,
            own,
        ).1 == Some(prefix),
{
}

} // verus!
