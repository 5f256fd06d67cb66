//! Where a field's value comes from: the env keys it reads, the prefix a
//! nested struct is resolved under, and which resolution call applies.

use super::attrs::spec_inherit;
use super::attrs::FieldAttrs;
use super::attrs::FieldModel;
use super::attrs::Literal;
use super::attrs::LiteralModel;
use super::attrs::StructAttrs;
use super::attrs::StructModel;
use super::text::all_ascii;
use super::text::ascii_upper;
use super::text::copy_texts;
use super::text::spec_uppercase;
use super::text::texts;
use super::text::uppercase;
use crate::join_key;
use crate::spec_join_key;
use vstd::prelude::*;

verus! {

/// The env key segment of a field: its name, uppercased (on an ASCII name,
/// `a`-`z` raised to `A`-`Z`).
pub fn field_name_to_env_key(name: &str) -> (key: String)
    ensures
        key@ == spec_uppercase(name@),
        all_ascii(name@) ==> key@ == name@.map_values(|c: char| ascii_upper(c)),
{
    uppercase(name)
}

/// The key segments a scalar field reads: its `envs`, or else its uppercased
/// name.
pub open spec fn spec_segment_names(name: Seq<char>, m: FieldModel) -> Seq<Seq<char>> {
    if m.envs.len() == 0 {
        seq![spec_uppercase(name)]
    } else {
        m.envs
    }
}

/// The key segments a scalar field reads: its `envs`, or else its uppercased
/// name.
pub fn field_segment_names(field_name: &str, attrs: &FieldAttrs) -> (names: Vec<String>)
    ensures
        texts(names@) == spec_segment_names(field_name@, attrs.model()),
{
    if attrs.envs.len() == 0 {
        let mut names: Vec<String> = Vec::new();
        names.push(field_name_to_env_key(field_name));
        assert(texts(names@) =~= spec_segment_names(field_name@, attrs.model()));
        names
    } else {
        copy_texts(&attrs.envs)
    }
}

/// Each segment joined to the prefix.
pub open spec fn joined_keys(prefix: Seq<char>, names: Seq<Seq<char>>) -> Seq<Seq<char>> {
    names.map_values(|n: Seq<char>| spec_join_key(prefix, n))
}

/// The keys a scalar field reads under `prefix`, in cascade order: the
/// segments themselves with `override`, otherwise each joined to the prefix.
pub open spec fn spec_field_keys(prefix: Seq<char>, name: Seq<char>, m: FieldModel) -> Seq<
    Seq<char>,
> {
    if m.envs_override {
        spec_segment_names(name, m)
    } else {
        joined_keys(prefix, spec_segment_names(name, m))
    }
}

/// The keys a scalar field reads under `prefix`, in cascade order.
pub fn field_keys(prefix: &str, field_name: &str, attrs: &FieldAttrs) -> (keys: Vec<String>)
    ensures
        texts(keys@) == spec_field_keys(prefix@, field_name@, attrs.model()),
{
    let names = field_segment_names(field_name, attrs);
    if attrs.envs_override {
        return names;
    }
    let ghost segs = texts(names@);
    let mut keys: Vec<String> = Vec::new();
    let mut i: usize = 0;
    while i < names.len()
        invariant
            i <= names@.len(),
            segs == texts(names@),
            keys@.len() == i,
            forall|j: int| 0 <= j < i ==> #[trigger] keys@[j]@ == spec_join_key(prefix@, segs[j]),
        decreases names@.len() - i,
    {
        keys.push(join_key(prefix, names[i].as_str()));
        i = i + 1;
    }
    assert(texts(keys@) =~= joined_keys(prefix@, segs));
    keys
}

/// Borrow each key as a `&str`, in order.
pub fn key_refs(keys: &Vec<String>) -> (refs: Vec<&str>)
    ensures
        refs@.len() == keys@.len(),
        forall|i: int| 0 <= i < keys@.len() ==> #[trigger] refs@[i]@ == keys@[i]@,
{
    let mut refs: Vec<&str> = Vec::new();
    let mut i: usize = 0;
    while i < keys.len()
        invariant
            i <= keys@.len(),
            refs@.len() == i,
            forall|j: int| 0 <= j < i ==> #[trigger] refs@[j]@ == keys@[j]@,
        decreases keys@.len() - i,
    {
        refs.push(keys[i].as_str());
        i = i + 1;
    }
    refs
}

/// The text of an optional borrowed string.
pub open spec fn opt_str(o: Option<&str>) -> Option<Seq<char>> {
    match o {
        Some(s) => Some(s@),
        None => None,
    }
}

/// The prefix a nested field's struct is resolved under, given the nested
/// struct's own `PREFIX`: `override_prefix` as it is; for a bare
/// `override_prefix`, the parent prefix joined with the nested struct's own
/// prefix (its uppercased field name when it has none); otherwise the parent
/// prefix joined with the field's `prefix` or uppercased name.
pub open spec fn spec_child_prefix(
    prefix: Seq<char>,
    name: Seq<char>,
    m: FieldModel,
    own: Option<Seq<char>>,
) -> Seq<char> {
    match m.override_prefix {
        Some(absolute) => absolute,
        None => spec_join_key(
            prefix,
            if m.inherit_prefix {
                match own {
                    Some(segment) => segment,
                    None => spec_uppercase(name),
                }
            } else {
                match m.prefix {
                    Some(segment) => segment,
                    None => spec_uppercase(name),
                }
            },
        ),
    }
}

/// The prefix a nested field's struct is resolved under, given the nested
/// struct's own `PREFIX` (see [`spec_child_prefix`]).
pub fn nested_child_prefix(
    prefix: &str,
    field_name: &str,
    attrs: &FieldAttrs,
    own_prefix: Option<&str>,
) -> (child: String)
    ensures
        child@ == spec_child_prefix(prefix@, field_name@, attrs.model(), opt_str(own_prefix)),
{
    match &attrs.override_prefix {
        Some(absolute) => absolute.clone(),
        None => {
            let chosen = if attrs.inherit_prefix {
                own_prefix
            } else {
                match &attrs.prefix {
                    Some(segment) => Some(segment.as_str()),
                    None => None,
                }
            };
            match chosen {
                Some(segment) => join_key(prefix, segment),
                None => {
                    let segment = field_name_to_env_key(field_name);
                    join_key(prefix, segment.as_str())
                },
            }
        },
    }
}

/// The call a scalar field is resolved with.
pub enum ResolveCall {
    /// `resolve_with_or(keys, parser, literal)`.
    ParserOr { parser: String, default: Literal },
    /// `resolve_with_or(keys, parser, Default::default())`.
    ParserOrDefault { parser: String },
    /// `resolve_with_or_str(keys, parser, text)`.
    ParserOrText { parser: String, text: String },
    /// `resolve_with(keys, parser)`.
    Parser { parser: String },
    /// `resolve_or_parse(keys, text)`: the text parsed when no key is set.
    OrParse { text: String },
    /// `resolve_or(keys, literal)`.
    Or { default: Literal },
    /// `resolve_or_else(keys, Default::default)`.
    OrDefault,
    /// `resolve(keys)`: a key must be set.
    Required,
}

/// The mathematical value of a [`ResolveCall`].
pub ghost enum CallModel {
    ParserOr(Seq<char>, LiteralModel),
    ParserOrDefault(Seq<char>),
    ParserOrText(Seq<char>, Seq<char>),
    Parser(Seq<char>),
    OrParse(Seq<char>),
    Or(LiteralModel),
    OrDefault,
    Required,
}

impl ResolveCall {
    pub open spec fn model(&self) -> CallModel {
        match self {
            ResolveCall::ParserOr { parser, default } => CallModel::ParserOr(
                parser@,
                default.model(),
            ),
            ResolveCall::ParserOrDefault { parser } => CallModel::ParserOrDefault(parser@),
            ResolveCall::ParserOrText { parser, text } => CallModel::ParserOrText(parser@, text@),
            ResolveCall::Parser { parser } => CallModel::Parser(parser@),
            ResolveCall::OrParse { text } => CallModel::OrParse(text@),
            ResolveCall::Or { default } => CallModel::Or(default.model()),
            ResolveCall::OrDefault => CallModel::OrDefault,
            ResolveCall::Required => CallModel::Required,
        }
    }
}

/// The call a scalar field is resolved with. With a parser: its typed
/// default, `Default::default()`, its `default_str`, or none, in that order of
/// preference. Without one: a string `default` is parsed like `default_str`,
/// any other literal is the fallback itself, a bare `default` falls back to
/// `Default::default()`, and with no default a key must be set.
pub open spec fn spec_resolve_call(m: FieldModel) -> CallModel {
    match m.resolve_with {
        Some(parser) => if m.default is Some {
            CallModel::ParserOr(parser, m.default->0)
        } else if m.use_default {
            CallModel::ParserOrDefault(parser)
        } else if m.default_str is Some {
            CallModel::ParserOrText(parser, m.default_str->0)
        } else {
            CallModel::Parser(parser)
        },
        None => match m.default {
            Some(LiteralModel::Str(text)) => CallModel::OrParse(text),
            Some(other) => CallModel::Or(other),
            None => if m.use_default {
                CallModel::OrDefault
            } else {
                match m.default_str {
                    Some(text) => CallModel::OrParse(text),
                    None => CallModel::Required,
                }
            },
        },
    }
}

/// The call a scalar field is resolved with (see [`spec_resolve_call`]).
pub fn resolve_call(attrs: &FieldAttrs) -> (call: ResolveCall)
    ensures
        call.model() == spec_resolve_call(attrs.model()),
{
    match &attrs.resolve_with {
        Some(parser) => {
            if let Some(lit) = &attrs.default {
                ResolveCall::ParserOr { parser: parser.clone(), default: lit.duplicate() }
            } else if attrs.use_default {
                ResolveCall::ParserOrDefault { parser: parser.clone() }
            } else if let Some(text) = &attrs.default_str {
                ResolveCall::ParserOrText { parser: parser.clone(), text: text.clone() }
            } else {
                ResolveCall::Parser { parser: parser.clone() }
            }
        },
        None => match &attrs.default {
            Some(Literal::Str(text)) => ResolveCall::OrParse { text: text.clone() },
            Some(other) => ResolveCall::Or { default: other.duplicate() },
            None => if attrs.use_default {
                ResolveCall::OrDefault
            } else {
                match &attrs.default_str {
                    Some(text) => ResolveCall::OrParse { text: text.clone() },
                    None => ResolveCall::Required,
                }
            },
        },
    }
}


/// Where a field's value comes from when the struct is built from the
/// environment.
pub enum FieldSource {
    /// `Default::default()`; the environment is not read.
    Skipped,
    /// The sub-struct, resolved under the parent's own prefix.
    Flattened,
    /// The sub-struct, resolved under `prefix`.
    Nested { prefix: String },
    /// A scalar read from `keys` by `call`.
    Scalar { keys: Vec<String>, call: ResolveCall },
}

/// The mathematical value of a [`FieldSource`].
pub ghost enum SourceModel {
    Skipped,
    Flattened,
    Nested(Seq<char>),
    Scalar(Seq<Seq<char>>, CallModel),
}

impl FieldSource {
    pub open spec fn model(&self) -> SourceModel {
        match self {
            FieldSource::Skipped => SourceModel::Skipped,
            FieldSource::Flattened => SourceModel::Flattened,
            FieldSource::Nested { prefix } => SourceModel::Nested(prefix@),
            FieldSource::Scalar { keys, call } => SourceModel::Scalar(texts(keys@), call.model()),
        }
    }
}

/// Where a field's value comes from under `prefix`, once it has taken the
/// struct's parser: `skip` first, then `flatten`, then `nested`, else a
/// scalar read from its keys.
pub open spec fn spec_field_source(
    prefix: Seq<char>,
    name: Seq<char>,
    m: FieldModel,
    s: StructModel,
    own: Option<Seq<char>>,
) -> SourceModel {
    let f = spec_inherit(m, s);
    if f.skip {
        SourceModel::Skipped
    } else if f.flatten {
        SourceModel::Flattened
    } else if f.nested {
        SourceModel::Nested(spec_child_prefix(prefix, name, f, own))
    } else {
        SourceModel::Scalar(spec_field_keys(prefix, name, f), spec_resolve_call(f))
    }
}

/// Where a field's value comes from under `prefix` (see [`spec_field_source`]).
pub fn field_source(
    prefix: &str,
    field_name: &str,
    attrs: &FieldAttrs,
    struct_attrs: &StructAttrs,
    own_prefix: Option<&str>,
) -> (source: FieldSource)
    ensures
        source.model() == spec_field_source(
            prefix@,
            field_name@,
            attrs.model(),
            struct_attrs.model(),
            opt_str(own_prefix),
        ),
{
    let mut field = attrs.duplicate();
    super::attrs::inherit_struct_resolve_with(&mut field, struct_attrs);
    if field.skip {
        FieldSource::Skipped
    } else if field.flatten {
        FieldSource::Flattened
    } else if field.nested {
        FieldSource::Nested { prefix: nested_child_prefix(prefix, field_name, &field, own_prefix) }
    } else {
        FieldSource::Scalar {
            keys: field_keys(prefix, field_name, &field),
            call: resolve_call(&field),
        }
    }
}

/// What overriding a built struct from the environment does to a field.
pub enum FieldUpdate {
    /// Left as it is.
    Kept,
    /// The sub-struct is overridden under the parent's own prefix.
    Flattened,
    /// The sub-struct is overridden under `prefix`.
    Nested { prefix: String },
    /// Re-read from `keys` when any of them is set, by `parser` or else by the
    /// type's own parsing; defaults play no part.
    Scalar { keys: Vec<String>, parser: Option<String> },
}

/// The mathematical value of a [`FieldUpdate`].
pub ghost enum UpdateModel {
    Kept,
    Flattened,
    Nested(Seq<char>),
    Scalar(Seq<Seq<char>>, Option<Seq<char>>),
}

impl FieldUpdate {
    pub open spec fn model(&self) -> UpdateModel {
        match self {
            FieldUpdate::Kept => UpdateModel::Kept,
            FieldUpdate::Flattened => UpdateModel::Flattened,
            FieldUpdate::Nested { prefix } => UpdateModel::Nested(prefix@),
            FieldUpdate::Scalar { keys, parser } => UpdateModel::Scalar(
                texts(keys@),
                super::attrs::opt_text(*parser),
            ),
        }
    }
}

/// What overriding from the environment under `prefix` does to a field.
pub open spec fn spec_field_update(
    prefix: Seq<char>,
    name: Seq<char>,
    m: FieldModel,
    s: StructModel,
    own: Option<Seq<char>>,
) -> UpdateModel {
    let f = spec_inherit(m, s);
    if f.skip {
        UpdateModel::Kept
    } else if f.flatten {
        UpdateModel::Flattened
    } else if f.nested {
        UpdateModel::Nested(spec_child_prefix(prefix, name, f, own))
    } else {
        UpdateModel::Scalar(spec_field_keys(prefix, name, f), f.resolve_with)
    }
}

/// What overriding from the environment under `prefix` does to a field (see
/// [`spec_field_update`]).
pub fn field_update(
    prefix: &str,
    field_name: &str,
    attrs: &FieldAttrs,
    struct_attrs: &StructAttrs,
    own_prefix: Option<&str>,
) -> (update: FieldUpdate)
    ensures
        update.model() == spec_field_update(
            prefix@,
            field_name@,
            attrs.model(),
            struct_attrs.model(),
            opt_str(own_prefix),
        ),
{
    let mut field = attrs.duplicate();
    super::attrs::inherit_struct_resolve_with(&mut field, struct_attrs);
    if field.skip {
        FieldUpdate::Kept
    } else if field.flatten {
        FieldUpdate::Flattened
    } else if field.nested {
        FieldUpdate::Nested { prefix: nested_child_prefix(prefix, field_name, &field, own_prefix) }
    } else {
        FieldUpdate::Scalar {
            keys: field_keys(prefix, field_name, &field),
            parser: super::attrs::copy_opt_text(&field.resolve_with),
        }
    }
}

/// Some lookup found a value.
pub open spec fn found_any(lookups: Seq<Option<String>>) -> bool {
    exists|i: int| 0 <= i < lookups.len() && (#[trigger] lookups[i]) is Some
}

/// Whether any of `lookups` found a value.
pub fn any_found(lookups: &[Option<String>]) -> (set: bool)
    ensures
        set == found_any(lookups@),
{
    let mut i: usize = 0;
    while i < lookups.len()
        invariant
            i <= lookups@.len(),
            forall|j: int| 0 <= j < i ==> (#[trigger] lookups@[j]) is None,
        decreases lookups@.len() - i,
    {
        if lookups[i].is_some() {
            return true;
        }
        i = i + 1;
    }
    false
}

/// Whether any of `keys` is set in the process environment: each key is
/// looked up, in order, and the answer is whether some lookup found a value.
/// With no keys, none is; which keys are set is the environment's business.
pub fn any_key_set(keys: &[&str]) -> (set: bool)
    ensures
        exists|lookups: Seq<Option<String>>|
            lookups.len() == keys@.len() && set == #[trigger] found_any(lookups),
        keys@.len() == 0 ==> !set,
{
    let lookups = crate::resolve::environment_lookups(keys);
    let set = any_found(lookups.as_slice());
    proof {
        assert(set == found_any(lookups@));
    }
    set
}


/// With `override`, a field's keys are exact: the prefix plays no part.
pub proof fn law_override_keys_ignore_prefix(
    prefix: Seq<char>,
    other: Seq<char>,
    name: Seq<char>,
    m: FieldModel,
)
    requires
        m.envs_override,
    ensures
        spec_field_keys(prefix, name, m) == spec_field_keys(other, name, m),
        spec_field_keys(prefix, name, m) == spec_segment_names(name, m),
{
}

/// `override_prefix` is absolute: a nested struct is resolved under it,
/// whatever the parent's prefix.
pub proof fn law_override_prefix_is_absolute(
    prefix: Seq<char>,
    other: Seq<char>,
    name: Seq<char>,
    m: FieldModel,
    own: Option<Seq<char>>,
    other_own: Option<Seq<char>>,
)
    requires
        m.override_prefix is Some,
    ensures
        spec_child_prefix(prefix, name, m, own) == m.override_prefix->0,
        spec_child_prefix(prefix, name, m, own) == spec_child_prefix(other, name, m, other_own),
{
}

/// A bare `override_prefix` accumulates: the nested struct is resolved under
/// the parent prefix joined with the nested struct's own prefix, whatever the
/// field is called.
pub proof fn law_bare_override_prefix_accumulates(
    prefix: Seq<char>,
    name: Seq<char>,
    other_name: Seq<char>,
    m: FieldModel,
    own: Seq<char>,
)
    requires
        m.inherit_prefix,
        m.override_prefix is None,
    ensures
        spec_child_prefix(prefix, name, m, Some(own)) == spec_join_key(prefix, own),
        spec_child_prefix(prefix, name, m, Some(own)) == spec_child_prefix(
            prefix,
            other_name,
            m,
            Some(own),
        ),
{
}

/// Keys accumulate down the hierarchy: a plain scalar field `inner` of a
/// struct nested as `outer` under `prefix` reads the one key `prefix`,
/// `OUTER` (or the nested field's own `prefix` segment) and `INNER`, joined by
/// underscores.
pub proof fn law_nested_keys_accumulate(
    prefix: Seq<char>,
    outer: Seq<char>,
    nested: FieldModel,
    inner: Seq<char>,
    scalar: FieldModel,
    own: Option<Seq<char>>,
)
    requires
        nested.nested,
        nested.override_prefix is None,
        !nested.inherit_prefix,
        scalar.envs.len() == 0,
        !scalar.envs_override,
    ensures
        spec_field_keys(spec_child_prefix(prefix, outer, nested, own), inner, scalar) == seq![
            spec_join_key(
                spec_join_key(
                    prefix,
                    match nested.prefix {
                        Some(segment) => segment,
                        None => spec_uppercase(outer),
                    },
                ),
                spec_uppercase(inner),
            ),
        ],
{
    let child = spec_child_prefix(prefix, outer, nested, own);
    assert(joined_keys(child, seq![spec_uppercase(inner)]) =~= seq![
        spec_join_key(child, spec_uppercase(inner)),
    ]);
}

/// A flattened field shares its parent's namespace: it is resolved, and
/// overridden, under the parent's own prefix.
pub proof fn law_flatten_shares_prefix(
    prefix: Seq<char>,
    name: Seq<char>,
    m: FieldModel,
    s: StructModel,
    own: Option<Seq<char>>,
)
    requires
        m.flatten,
        !m.skip,
    ensures
        spec_field_source(prefix, name, m, s, own) == SourceModel::Flattened,
        spec_field_update(prefix, name, m, s, own) == UpdateModel::Flattened,
{
}

/// Overriding from the environment touches a field exactly where building
/// reads it: a skipped field is kept, a flattened one is overridden in the
/// parent's namespace, a nested struct is overridden under the same prefix it
/// is built under, and a scalar field re-reads the same keys.
pub proof fn law_override_agrees_with_construction(
    prefix: Seq<char>,
    name: Seq<char>,
    m: FieldModel,
    s: StructModel,
    own: Option<Seq<char>>,
)
    ensures
        match spec_field_source(prefix, name, m, s, own) {
            SourceModel::Skipped => spec_field_update(prefix, name, m, s, own) == UpdateModel::Kept,
            SourceModel::Flattened => spec_field_update(prefix, name, m, s, own)
                == UpdateModel::Flattened,
            SourceModel::Nested(p) => spec_field_update(prefix, name, m, s, own)
                == UpdateModel::Nested(p),
            SourceModel::Scalar(keys, _) => spec_field_update(prefix, name, m, s, own) matches UpdateModel::Scalar(
                k,
                _,
            ) && k == keys,
        },
{
}

/// Where a nested struct is built and overridden: under `override_prefix`
/// as given; with a bare `override_prefix`, under the parent prefix joined
/// with the struct's own `PREFIX` (or the uppercased field name when it has
/// none); else under the parent prefix joined with the field's `prefix`
/// segment, or with its uppercased name.
pub proof fn law_nested_prefix_from_attributes(
    prefix: Seq<char>,
    name: Seq<char>,
    m: FieldModel,
    s: StructModel,
    own: Option<Seq<char>>,
)
    requires
        m.nested,
        !m.skip,
        !m.flatten,
    ensures
        ({
            let expected = match m.override_prefix {
                Some(absolute) => absolute,
                None => if m.inherit_prefix {
                    match own {
                        Some(segment) => spec_join_key(prefix, segment),
                        None => spec_join_key(prefix, spec_uppercase(name)),
                    }
                } else {
                    match m.prefix {
                        Some(segment) => spec_join_key(prefix, segment),
                        None => spec_join_key(prefix, spec_uppercase(name)),
                    }
                },
            };
            &&& spec_field_source(prefix, name, m, s, own) == SourceModel::Nested(expected)
            &&& spec_field_update(prefix, name, m, s, own) == UpdateModel::Nested(expected)
        }),
{
}

/// A scalar field with a bare `default` and no parser of its own keeps its
/// type's own parsing and falls back to the type's default: the struct's
/// parser plays no part, in building or in overriding.
pub proof fn law_bare_default_ignores_struct_parser(
    prefix: Seq<char>,
    name: Seq<char>,
    m: FieldModel,
    s: StructModel,
    other: StructModel,
    own: Option<Seq<char>>,
)
    requires
        m.use_default,
        m.default is None,
        m.resolve_with is None,
        !m.skip,
        !m.nested,
        !m.flatten,
    ensures
        spec_field_source(prefix, name, m, s, own) matches SourceModel::Scalar(_, call) && call
            == CallModel::OrDefault,
        spec_field_update(prefix, name, m, s, own) matches UpdateModel::Scalar(_, parser)
            && parser is None,
        spec_field_source(prefix, name, m, s, own) == spec_field_source(
            prefix,
            name,
            m,
            other,
            own,
        ),
{
}

/// A scalar field with no default of any kind and no parser of its own is
/// parsed with the struct's parser when the struct names one.
pub proof fn law_plain_field_takes_struct_parser(
    prefix: Seq<char>,
    name: Seq<char>,
    m: FieldModel,
    s: StructModel,
    own: Option<Seq<char>>,
)
    requires
        !m.use_default,
        m.default is None,
        m.default_str is None,
        m.resolve_with is None,
        s.resolve_with is Some,
        !m.skip,
        !m.nested,
        !m.flatten,
    ensures
        spec_field_source(prefix, name, m, s, own) matches SourceModel::Scalar(_, call) && call
            == CallModel::Parser(s.resolve_with->0),
        spec_field_update(prefix, name, m, s, own) matches UpdateModel::Scalar(_, parser)
            && parser == s.resolve_with,
{
}

} // verus!
