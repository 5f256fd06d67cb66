//! Field and struct attributes: the items written inside `#[setting(..)]` and
//! `#[settings(..)]`, what each one sets, and which combinations are refused.

use super::text::copy_texts;
use super::text::parses_as_path;
use super::text::same_text;
use super::text::spec_is_path;
use super::text::texts;
use vstd::prelude::*;

verus! {

/// A literal written after `default =`.
pub enum Literal {
    /// A string literal, by its value.
    Str(String),
    /// Any other literal (number, bool, char, ..), by its source text.
    Other(String),
}

/// The mathematical value of a [`Literal`].
pub ghost enum LiteralModel {
    Str(Seq<char>),
    Other(Seq<char>),
}

impl Literal {
    pub open spec fn model(&self) -> LiteralModel {
        match self {
            Literal::Str(s) => LiteralModel::Str(s@),
            Literal::Other(s) => LiteralModel::Other(s@),
        }
    }

    /// A copy of the literal.
    pub fn duplicate(&self) -> (copy: Literal)
        ensures
            copy.model() == self.model(),
    {
        match self {
            Literal::Str(s) => Literal::Str(s.clone()),
            Literal::Other(s) => Literal::Other(s.clone()),
        }
    }
}

/// What follows an item's name: nothing, `= literal`, or `= ["a", ..]`.
pub enum MetaValue {
    Bare,
    Lit(Literal),
    List(Vec<String>),
}

/// The mathematical value of a [`MetaValue`].
pub ghost enum ValueModel {
    Bare,
    Lit(LiteralModel),
    List(Seq<Seq<char>>),
}

impl MetaValue {
    pub open spec fn model(&self) -> ValueModel {
        match self {
            MetaValue::Bare => ValueModel::Bare,
            MetaValue::Lit(l) => ValueModel::Lit(l.model()),
            MetaValue::List(v) => ValueModel::List(texts(v@)),
        }
    }
}

/// One item of an attribute list, such as `nested` or `envs = "KEY"`.
pub struct MetaItem {
    /// The item's path as written, e.g. `default` or `r#override`.
    pub name: String,
    pub value: MetaValue,
}

impl MetaItem {
    pub open spec fn model(&self) -> (Seq<char>, ValueModel) {
        (self.name@, self.value.model())
    }
}

/// The models of a sequence of items.
pub open spec fn item_models(items: Seq<MetaItem>) -> Seq<(Seq<char>, ValueModel)> {
    items.map_values(|item: MetaItem| item.model())
}

/// A trait a declaration is made into.
#[derive(Clone, Copy, PartialEq, Eq, Structural, Debug)]
pub enum TraitKind {
    Settings,
    Validate,
    ConfigDisplay,
    ConfigCodegen,
}

/// Why a declaration was refused.
#[derive(Clone, Copy, PartialEq, Eq, Structural, Debug)]
pub enum AttrError {
    /// The trait was asked of an enum or a union.
    NotAStruct(TraitKind),
    /// The struct's fields have no names (a tuple or unit struct).
    UnnamedFields,
    /// An item of `#[settings(..)]` that is not `prefix` or `resolve_with`.
    UnknownStructAttribute,
    /// An item of `#[setting(..)]` that is not one of the field attributes.
    UnknownFieldAttribute,
    /// An item that needs `= value` was written bare.
    ExpectedValue,
    /// An item that needs a string literal was given something else.
    ExpectedString,
    /// `default =` was given something that is not a literal.
    ExpectedLiteral,
    /// A flag was given a value.
    UnexpectedValue,
    /// `resolve_with` names something that is not a path.
    InvalidPath,
    /// More than one of `default`, `default = value`, `default_str`.
    MultipleDefaults,
    /// Both `nested` and `flatten`.
    NestedAndFlatten,
    /// Both `prefix` and `override_prefix`.
    PrefixAndOverridePrefix,
    /// `prefix` or `override_prefix` without `nested`.
    PrefixWithoutNested,
    /// `skip` together with anything else.
    SkipCombined,
    /// `nested` or `flatten` together with a scalar attribute.
    SubSettingsWithScalar,
    /// A build-time constants module cannot hold a sub-struct.
    CodegenSubSettings,
}

/// The text a refusal is reported with.
pub open spec fn spec_error_text(e: AttrError) -> Seq<char> {
    match e {
        AttrError::NotAStruct(TraitKind::Settings) => "Settings can only be derived on structs"@,
        AttrError::NotAStruct(TraitKind::Validate) => "Validate can only be derived on structs"@,
        AttrError::NotAStruct(TraitKind::ConfigDisplay) => "ConfigDisplay can only be derived on structs"@,
        AttrError::NotAStruct(TraitKind::ConfigCodegen) => "ConfigCodegen can only be derived on structs"@,
        AttrError::UnnamedFields => "only named struct fields supported"@,
        AttrError::UnknownStructAttribute => "unknown settings attribute"@,
        AttrError::UnknownFieldAttribute => "unknown setting attribute"@,
        AttrError::ExpectedValue => "expected `=`"@,
        AttrError::ExpectedString => "expected string literal"@,
        AttrError::ExpectedLiteral => "expected literal"@,
        AttrError::UnexpectedValue => "expected `,`"@,
        AttrError::InvalidPath => "resolve_with must name a function path"@,
        AttrError::MultipleDefaults => "only one of default, default = value, or default_str allowed"@,
        AttrError::NestedAndFlatten => "nested and flatten are mutually exclusive"@,
        AttrError::PrefixAndOverridePrefix => "only one of prefix or override_prefix allowed"@,
        AttrError::PrefixWithoutNested => "prefix and override_prefix require nested"@,
        AttrError::SkipCombined => "skip cannot be combined with other setting attributes"@,
        AttrError::SubSettingsWithScalar => "nested and flatten cannot be combined with default, default_str, resolve_with, envs, override, or sensitive"@,
        AttrError::CodegenSubSettings => "ConfigCodegen does not support nested or flatten fields"@,
    }
}

impl AttrError {
    /// The text the refusal is reported with.
    pub fn message(&self) -> (text: &'static str)
        ensures
            text@ == spec_error_text(*self),
    {
        match self {
            AttrError::NotAStruct(TraitKind::Settings) => "Settings can only be derived on structs",
            AttrError::NotAStruct(TraitKind::Validate) => "Validate can only be derived on structs",
            AttrError::NotAStruct(TraitKind::ConfigDisplay) => "ConfigDisplay can only be derived on structs",
            AttrError::NotAStruct(TraitKind::ConfigCodegen) => "ConfigCodegen can only be derived on structs",
            AttrError::UnnamedFields => "only named struct fields supported",
            AttrError::UnknownStructAttribute => "unknown settings attribute",
            AttrError::UnknownFieldAttribute => "unknown setting attribute",
            AttrError::ExpectedValue => "expected `=`",
            AttrError::ExpectedString => "expected string literal",
            AttrError::ExpectedLiteral => "expected literal",
            AttrError::UnexpectedValue => "expected `,`",
            AttrError::InvalidPath => "resolve_with must name a function path",
            AttrError::MultipleDefaults => "only one of default, default = value, or default_str allowed",
            AttrError::NestedAndFlatten => "nested and flatten are mutually exclusive",
            AttrError::PrefixAndOverridePrefix => "only one of prefix or override_prefix allowed",
            AttrError::PrefixWithoutNested => "prefix and override_prefix require nested",
            AttrError::SkipCombined => "skip cannot be combined with other setting attributes",
            AttrError::SubSettingsWithScalar => "nested and flatten cannot be combined with default, default_str, resolve_with, envs, override, or sensitive",
            AttrError::CodegenSubSettings => "ConfigCodegen does not support nested or flatten fields",
        }
    }
}


/// The text of an optional string.
pub open spec fn opt_text(o: Option<String>) -> Option<Seq<char>> {
    match o {
        Some(s) => Some(s@),
        None => None,
    }
}

/// A copy of an optional string.
pub fn copy_opt_text(o: &Option<String>) -> (copy: Option<String>)
    ensures
        opt_text(copy) == opt_text(*o),
{
    match o {
        Some(s) => Some(s.clone()),
        None => None,
    }
}

/// The attributes of one field, as `#[setting(..)]` items set them.
pub struct FieldAttrs {
    /// `envs`: the key segments to read, in cascade order, in place of the
    /// uppercased field name.
    pub envs: Vec<String>,
    /// `override`: the `envs` keys are exact, not joined to the prefix.
    pub envs_override: bool,
    /// `default = literal`.
    pub default: Option<Literal>,
    /// `default_str = "text"`: parsed like an env value when no key is set.
    pub default_str: Option<String>,
    /// Bare `default`: `Default::default()` when no key is set.
    pub use_default: bool,
    /// `resolve_with = "path"`: a custom parser.
    pub resolve_with: Option<String>,
    /// `nested`: a sub-struct under its own segment.
    pub nested: bool,
    /// `flatten`: a sub-struct sharing the parent's prefix.
    pub flatten: bool,
    /// `prefix = "X"`: the nested segment in place of the field name.
    pub prefix: Option<String>,
    /// `override_prefix = "X"`: an absolute prefix for the nested struct.
    pub override_prefix: Option<String>,
    /// Bare `override_prefix`: the nested struct is resolved under the parent
    /// prefix joined with the nested struct's own `PREFIX`.
    pub inherit_prefix: bool,
    /// `skip`: `Default::default()`, the environment is not read.
    pub skip: bool,
    /// `sensitive`: the value is masked when displayed.
    pub sensitive: bool,
}

/// The mathematical value of [`FieldAttrs`].
pub ghost struct FieldModel {
    pub envs: Seq<Seq<char>>,
    pub envs_override: bool,
    pub default: Option<LiteralModel>,
    pub default_str: Option<Seq<char>>,
    pub use_default: bool,
    pub resolve_with: Option<Seq<char>>,
    pub nested: bool,
    pub flatten: bool,
    pub prefix: Option<Seq<char>>,
    pub override_prefix: Option<Seq<char>>,
    pub inherit_prefix: bool,
    pub skip: bool,
    pub sensitive: bool,
}

/// A field with no attributes.
pub open spec fn empty_field() -> FieldModel {
    FieldModel {
        envs: seq![],
        envs_override: false,
        default: None,
        default_str: None,
        use_default: false,
        resolve_with: None,
        nested: false,
        flatten: false,
        prefix: None,
        override_prefix: None,
        inherit_prefix: false,
        skip: false,
        sensitive: false,
    }
}

impl FieldAttrs {
    pub open spec fn model(&self) -> FieldModel {
        FieldModel {
            envs: texts(self.envs@),
            envs_override: self.envs_override,
            default: match self.default {
                Some(l) => Some(l.model()),
                None => None,
            },
            default_str: opt_text(self.default_str),
            use_default: self.use_default,
            resolve_with: opt_text(self.resolve_with),
            nested: self.nested,
            flatten: self.flatten,
            prefix: opt_text(self.prefix),
            override_prefix: opt_text(self.override_prefix),
            inherit_prefix: self.inherit_prefix,
            skip: self.skip,
            sensitive: self.sensitive,
        }
    }

    /// A field with no attributes.
    pub fn none() -> (attrs: Self)
        ensures
            attrs.model() == empty_field(),
    {
        let attrs = FieldAttrs {
            envs: Vec::new(),
            envs_override: false,
            default: None,
            default_str: None,
            use_default: false,
            resolve_with: None,
            nested: false,
            flatten: false,
            prefix: None,
            override_prefix: None,
            inherit_prefix: false,
            skip: false,
            sensitive: false,
        };
        assert(texts(attrs.envs@) =~= seq![]);
        attrs
    }

    /// A copy of the attributes.
    pub fn duplicate(&self) -> (copy: Self)
        ensures
            copy.model() == self.model(),
    {
        FieldAttrs {
            envs: copy_texts(&self.envs),
            envs_override: self.envs_override,
            default: match &self.default {
                Some(l) => Some(l.duplicate()),
                None => None,
            },
            default_str: copy_opt_text(&self.default_str),
            use_default: self.use_default,
            resolve_with: copy_opt_text(&self.resolve_with),
            nested: self.nested,
            flatten: self.flatten,
            prefix: copy_opt_text(&self.prefix),
            override_prefix: copy_opt_text(&self.override_prefix),
            inherit_prefix: self.inherit_prefix,
            skip: self.skip,
            sensitive: self.sensitive,
        }
    }
}

/// The string an item's value must be.
pub open spec fn string_value(v: ValueModel) -> Result<Seq<char>, AttrError> {
    match v {
        ValueModel::Bare => Err(AttrError::ExpectedValue),
        ValueModel::Lit(LiteralModel::Str(s)) => Ok(s),
        _ => Err(AttrError::ExpectedString),
    }
}

/// A flag takes no value.
pub open spec fn flag_value(v: ValueModel) -> Result<(), AttrError> {
    if v is Bare {
        Ok(())
    } else {
        Err(AttrError::UnexpectedValue)
    }
}

/// The field after one `#[setting(..)]` item.
pub open spec fn apply_field_item(m: FieldModel, name: Seq<char>, v: ValueModel) -> Result<
    FieldModel,
    AttrError,
> {
    if name == "envs"@ {
        match v {
            ValueModel::List(names) => Ok(FieldModel { envs: names, ..m }),
            _ => match string_value(v) {
                Ok(s) => Ok(FieldModel { envs: seq![s], ..m }),
                Err(e) => Err(e),
            },
        }
    } else if name == "override"@ || name == "r#override"@ {
        match flag_value(v) {
            Ok(_) => Ok(FieldModel { envs_override: true, ..m }),
            Err(e) => Err(e),
        }
    } else if name == "default"@ {
        match v {
            ValueModel::Bare => Ok(FieldModel { use_default: true, ..m }),
            ValueModel::Lit(l) => Ok(FieldModel { default: Some(l), ..m }),
            ValueModel::List(_) => Err(AttrError::ExpectedLiteral),
        }
    } else if name == "default_str"@ {
        match string_value(v) {
            Ok(s) => Ok(FieldModel { default_str: Some(s), ..m }),
            Err(e) => Err(e),
        }
    } else if name == "resolve_with"@ {
        match string_value(v) {
            Ok(s) => if spec_is_path(s) {
                Ok(FieldModel { resolve_with: Some(s), ..m })
            } else {
                Err(AttrError::InvalidPath)
            },
            Err(e) => Err(e),
        }
    } else if name == "nested"@ {
        match flag_value(v) {
            Ok(_) => Ok(FieldModel { nested: true, ..m }),
            Err(e) => Err(e),
        }
    } else if name == "flatten"@ {
        match flag_value(v) {
            Ok(_) => Ok(FieldModel { flatten: true, ..m }),
            Err(e) => Err(e),
        }
    } else if name == "prefix"@ {
        match string_value(v) {
            Ok(s) => Ok(FieldModel { prefix: Some(s), ..m }),
            Err(e) => Err(e),
        }
    } else if name == "override_prefix"@ {
        match v {
            ValueModel::Bare => Ok(FieldModel { override_prefix: None, inherit_prefix: true, ..m }),
            _ => match string_value(v) {
                Ok(s) => Ok(FieldModel { override_prefix: Some(s), inherit_prefix: false, ..m }),
                Err(e) => Err(e),
            },
        }
    } else if name == "skip"@ {
        match flag_value(v) {
            Ok(_) => Ok(FieldModel { skip: true, ..m }),
            Err(e) => Err(e),
        }
    } else if name == "sensitive"@ {
        match flag_value(v) {
            Ok(_) => Ok(FieldModel { sensitive: true, ..m }),
            Err(e) => Err(e),
        }
    } else {
        Err(AttrError::UnknownFieldAttribute)
    }
}

/// The field after its items, applied in order; the first refused item stops it.
pub open spec fn fold_field_items(items: Seq<(Seq<char>, ValueModel)>) -> Result<
    FieldModel,
    AttrError,
>
    decreases items.len(),
{
    if items.len() == 0 {
        Ok(empty_field())
    } else {
        match fold_field_items(items.drop_last()) {
            Err(e) => Err(e),
            Ok(m) => apply_field_item(m, items.last().0, items.last().1),
        }
    }
}

/// How many of `default`, `default = value` and `default_str` are set.
pub open spec fn default_count(m: FieldModel) -> int {
    (if m.default is Some {
        1int
    } else {
        0int
    }) + (if m.default_str is Some {
        1int
    } else {
        0int
    }) + (if m.use_default {
        1int
    } else {
        0int
    })
}

/// Any attribute that only makes sense on a scalar field.
pub open spec fn has_scalar_attr(m: FieldModel) -> bool {
    default_count(m) > 0 || m.resolve_with is Some || m.envs.len() > 0 || m.envs_override
        || m.sensitive
}

/// The first rule a field's attributes break, in the order they are checked.
pub open spec fn field_conflict(m: FieldModel) -> Option<AttrError> {
    let sub = m.nested || m.flatten;
    let absolute = m.override_prefix is Some || m.inherit_prefix;
    let prefixed = m.prefix is Some || absolute;
    if default_count(m) > 1 {
        Some(AttrError::MultipleDefaults)
    } else if m.nested && m.flatten {
        Some(AttrError::NestedAndFlatten)
    } else if m.prefix is Some && absolute {
        Some(AttrError::PrefixAndOverridePrefix)
    } else if prefixed && !m.nested {
        Some(AttrError::PrefixWithoutNested)
    } else if m.skip && (sub || has_scalar_attr(m) || prefixed) {
        Some(AttrError::SkipCombined)
    } else if sub && has_scalar_attr(m) {
        Some(AttrError::SubSettingsWithScalar)
    } else {
        None
    }
}

/// A field's attributes from its items: applied in order, then checked.
pub open spec fn spec_parse_field(items: Seq<(Seq<char>, ValueModel)>) -> Result<
    FieldModel,
    AttrError,
> {
    match fold_field_items(items) {
        Err(e) => Err(e),
        Ok(m) => match field_conflict(m) {
            Some(e) => Err(e),
            None => Ok(m),
        },
    }
}


/// The string an item's value must be.
fn string_of(v: &MetaValue) -> (r: Result<String, AttrError>)
    ensures
        match r {
            Ok(s) => string_value(v.model()) == Ok::<Seq<char>, AttrError>(s@),
            Err(e) => string_value(v.model()) == Err::<Seq<char>, AttrError>(e),
        },
{
    match v {
        MetaValue::Bare => Err(AttrError::ExpectedValue),
        MetaValue::Lit(Literal::Str(s)) => Ok(s.clone()),
        _ => Err(AttrError::ExpectedString),
    }
}

/// A flag takes no value.
fn flag_of(v: &MetaValue) -> (r: Result<(), AttrError>)
    ensures
        r == flag_value(v.model()),
{
    match v {
        MetaValue::Bare => Ok(()),
        _ => Err(AttrError::UnexpectedValue),
    }
}

/// Apply one `#[setting(..)]` item to the field's attributes.
fn apply_item(attrs: &mut FieldAttrs, item: &MetaItem) -> (r: Result<(), AttrError>)
    ensures
        match r {
            Ok(()) => apply_field_item(old(attrs).model(), item.name@, item.value.model()) == Ok::<
                FieldModel,
                AttrError,
            >(final(attrs).model()),
            Err(e) => apply_field_item(old(attrs).model(), item.name@, item.value.model()) == Err::<
                FieldModel,
                AttrError,
            >(e),
        },
{
    let name = item.name.as_str();
    let v = &item.value;
    if same_text(name, "envs") {
        match v {
            MetaValue::List(names) => {
                attrs.envs = copy_texts(names);
            },
            _ => {
                let s = string_of(v)?;
                let mut one: Vec<String> = Vec::new();
                one.push(s);
                assert(texts(one@) =~= seq![s@]);
                attrs.envs = one;
            },
        }
        Ok(())
    } else if same_text(name, "override") || same_text(name, "r#override") {
        flag_of(v)?;
        attrs.envs_override = true;
        Ok(())
    } else if same_text(name, "default") {
        match v {
            MetaValue::Bare => {
                attrs.use_default = true;
                Ok(())
            },
            MetaValue::Lit(l) => {
                attrs.default = Some(l.duplicate());
                Ok(())
            },
            MetaValue::List(_) => Err(AttrError::ExpectedLiteral),
        }
    } else if same_text(name, "default_str") {
        let s = string_of(v)?;
        attrs.default_str = Some(s);
        Ok(())
    } else if same_text(name, "resolve_with") {
        let s = string_of(v)?;
        if parses_as_path(s.as_str()) {
            attrs.resolve_with = Some(s);
            Ok(())
        } else {
            Err(AttrError::InvalidPath)
        }
    } else if same_text(name, "nested") {
        flag_of(v)?;
        attrs.nested = true;
        Ok(())
    } else if same_text(name, "flatten") {
        flag_of(v)?;
        attrs.flatten = true;
        Ok(())
    } else if same_text(name, "prefix") {
        let s = string_of(v)?;
        attrs.prefix = Some(s);
        Ok(())
    } else if same_text(name, "override_prefix") {
        match v {
            MetaValue::Bare => {
                attrs.override_prefix = None;
                attrs.inherit_prefix = true;
            },
            _ => {
                let s = string_of(v)?;
                attrs.override_prefix = Some(s);
                attrs.inherit_prefix = false;
            },
        }
        Ok(())
    } else if same_text(name, "skip") {
        flag_of(v)?;
        attrs.skip = true;
        Ok(())
    } else if same_text(name, "sensitive") {
        flag_of(v)?;
        attrs.sensitive = true;
        Ok(())
    } else {
        Err(AttrError::UnknownFieldAttribute)
    }
}

/// Once a prefix of the items is refused, so is the whole list, with the same error.
proof fn lemma_field_error_sticks(items: Seq<(Seq<char>, ValueModel)>, k: int)
    requires
        0 <= k <= items.len(),
        fold_field_items(items.subrange(0, k)) is Err,
    ensures
        fold_field_items(items) == fold_field_items(items.subrange(0, k)),
    decreases items.len(),
{
    if k == items.len() {
        assert(items.subrange(0, k) =~= items);
    } else {
        assert(items.drop_last().subrange(0, k) =~= items.subrange(0, k));
        lemma_field_error_sticks(items.drop_last(), k);
    }
}

/// Check the combination rules on a field's attributes.
pub fn validate_field_attrs(attrs: &FieldAttrs) -> (r: Result<(), AttrError>)
    ensures
        match field_conflict(attrs.model()) {
            Some(e) => r == Err::<(), AttrError>(e),
            None => r is Ok,
        },
{
    let defaults: u8 = (if attrs.default.is_some() {
        1u8
    } else {
        0u8
    }) + (if attrs.default_str.is_some() {
        1u8
    } else {
        0u8
    }) + (if attrs.use_default {
        1u8
    } else {
        0u8
    });
    if defaults > 1 {
        return Err(AttrError::MultipleDefaults);
    }
    if attrs.nested && attrs.flatten {
        return Err(AttrError::NestedAndFlatten);
    }
    let absolute = attrs.override_prefix.is_some() || attrs.inherit_prefix;
    if attrs.prefix.is_some() && absolute {
        return Err(AttrError::PrefixAndOverridePrefix);
    }
    let prefixed = attrs.prefix.is_some() || absolute;
    if prefixed && !attrs.nested {
        return Err(AttrError::PrefixWithoutNested);
    }
    let sub = attrs.nested || attrs.flatten;
    let scalar = defaults > 0 || attrs.resolve_with.is_some() || attrs.envs.len() > 0
        || attrs.envs_override || attrs.sensitive;
    if attrs.skip && (sub || scalar || prefixed) {
        return Err(AttrError::SkipCombined);
    }
    if sub && scalar {
        return Err(AttrError::SubSettingsWithScalar);
    }
    Ok(())
}

/// The attributes of a field from the items of its `#[setting(..)]`
/// attributes, in order: each item sets one attribute (a later one wins), the
/// first refused item is the error, and the result is then checked with
/// [`validate_field_attrs`].
pub fn parse_field_attrs(items: &[MetaItem]) -> (r: Result<FieldAttrs, AttrError>)
    ensures
        match r {
            Ok(attrs) => spec_parse_field(item_models(items@)) == Ok::<FieldModel, AttrError>(
                attrs.model(),
            ),
            Err(e) => spec_parse_field(item_models(items@)) == Err::<FieldModel, AttrError>(e),
        },
{
    let ghost all = item_models(items@);
    let mut attrs = FieldAttrs::none();
    let mut i: usize = 0;
    proof {
        assert(all.subrange(0, 0) =~= Seq::<(Seq<char>, ValueModel)>::empty());
    }
    while i < items.len()
        invariant
            i <= items@.len(),
            all == item_models(items@),
            fold_field_items(all.subrange(0, i as int)) == Ok::<FieldModel, AttrError>(
                attrs.model(),
            ),
        decreases items@.len() - i,
    {
        let ghost before = attrs.model();
        let step = apply_item(&mut attrs, &items[i]);
        proof {
            let head = all.subrange(0, i as int + 1);
            assert(head.drop_last() =~= all.subrange(0, i as int));
            assert(head.last() == items@[i as int].model());
        }
        match step {
            Ok(()) => {},
            Err(e) => {
                proof {
                    lemma_field_error_sticks(all, i as int + 1);
                }
                return Err(e);
            },
        }
        i = i + 1;
    }
    proof {
        assert(all.subrange(0, items@.len() as int) =~= all);
    }
    validate_field_attrs(&attrs)?;
    Ok(attrs)
}


/// The attributes of a struct, as `#[settings(..)]` items set them.
pub struct StructAttrs {
    /// `prefix = "APP"`: the root prefix of every key.
    pub prefix: Option<String>,
    /// `resolve_with = "path"`: the parser for fields with no typed default.
    pub resolve_with: Option<String>,
}

/// The mathematical value of [`StructAttrs`].
pub ghost struct StructModel {
    pub prefix: Option<Seq<char>>,
    pub resolve_with: Option<Seq<char>>,
}

impl StructAttrs {
    pub open spec fn model(&self) -> StructModel {
        StructModel { prefix: opt_text(self.prefix), resolve_with: opt_text(self.resolve_with) }
    }
}

/// The struct after one `#[settings(..)]` item.
pub open spec fn apply_struct_item(m: StructModel, name: Seq<char>, v: ValueModel) -> Result<
    StructModel,
    AttrError,
> {
    if name == "prefix"@ {
        match string_value(v) {
            Ok(s) => Ok(StructModel { prefix: Some(s), ..m }),
            Err(e) => Err(e),
        }
    } else if name == "resolve_with"@ {
        match string_value(v) {
            Ok(s) => if spec_is_path(s) {
                Ok(StructModel { resolve_with: Some(s), ..m })
            } else {
                Err(AttrError::InvalidPath)
            },
            Err(e) => Err(e),
        }
    } else {
        Err(AttrError::UnknownStructAttribute)
    }
}

/// The struct's attributes from its items, applied in order; the first refused
/// item stops it.
pub open spec fn spec_parse_struct(items: Seq<(Seq<char>, ValueModel)>) -> Result<
    StructModel,
    AttrError,
>
    decreases items.len(),
{
    if items.len() == 0 {
        Ok(StructModel { prefix: None, resolve_with: None })
    } else {
        match spec_parse_struct(items.drop_last()) {
            Err(e) => Err(e),
            Ok(m) => apply_struct_item(m, items.last().0, items.last().1),
        }
    }
}

proof fn lemma_struct_error_sticks(items: Seq<(Seq<char>, ValueModel)>, k: int)
    requires
        0 <= k <= items.len(),
        spec_parse_struct(items.subrange(0, k)) is Err,
    ensures
        spec_parse_struct(items) == spec_parse_struct(items.subrange(0, k)),
    decreases items.len(),
{
    if k == items.len() {
        assert(items.subrange(0, k) =~= items);
    } else {
        assert(items.drop_last().subrange(0, k) =~= items.subrange(0, k));
        lemma_struct_error_sticks(items.drop_last(), k);
    }
}

/// The attributes of a struct from the items of its `#[settings(..)]`
/// attributes, in order; a later item wins and the first refused item is the
/// error.
pub fn parse_struct_attrs(items: &[MetaItem]) -> (r: Result<StructAttrs, AttrError>)
    ensures
        match r {
            Ok(attrs) => spec_parse_struct(item_models(items@)) == Ok::<StructModel, AttrError>(
                attrs.model(),
            ),
            Err(e) => spec_parse_struct(item_models(items@)) == Err::<StructModel, AttrError>(e),
        },
{
    let ghost all = item_models(items@);
    let mut attrs = StructAttrs { prefix: None, resolve_with: None };
    let mut i: usize = 0;
    proof {
        assert(all.subrange(0, 0) =~= Seq::<(Seq<char>, ValueModel)>::empty());
    }
    while i < items.len()
        invariant
            i <= items@.len(),
            all == item_models(items@),
            spec_parse_struct(all.subrange(0, i as int)) == Ok::<StructModel, AttrError>(
                attrs.model(),
            ),
        decreases items@.len() - i,
    {
        let item = &items[i];
        proof {
            let head = all.subrange(0, i as int + 1);
            assert(head.drop_last() =~= all.subrange(0, i as int));
            assert(head.last() == items@[i as int].model());
        }
        let step: Result<(), AttrError> = if same_text(item.name.as_str(), "prefix") {
            match string_of(&item.value) {
                Ok(s) => {
                    attrs.prefix = Some(s);
                    Ok(())
                },
                Err(e) => Err(e),
            }
        } else if same_text(item.name.as_str(), "resolve_with") {
            match string_of(&item.value) {
                Ok(s) => if parses_as_path(s.as_str()) {
                    attrs.resolve_with = Some(s);
                    Ok(())
                } else {
                    Err(AttrError::InvalidPath)
                },
                Err(e) => Err(e),
            }
        } else {
            Err(AttrError::UnknownStructAttribute)
        };
        match step {
            Ok(()) => {},
            Err(e) => {
                proof {
                    lemma_struct_error_sticks(all, i as int + 1);
                }
                return Err(e);
            },
        }
        i = i + 1;
    }
    proof {
        assert(all.subrange(0, items@.len() as int) =~= all);
    }
    Ok(attrs)
}

/// A field takes the struct's parser when it names none and has no typed
/// default (`default = value` or bare `default`).
pub open spec fn spec_inherit(m: FieldModel, s: StructModel) -> FieldModel {
    if m.resolve_with is None && m.default is None && !m.use_default {
        FieldModel { resolve_with: s.resolve_with, ..m }
    } else {
        m
    }
}

/// Give the field the struct's parser when it names none and has no typed
/// default.
pub fn inherit_struct_resolve_with(attrs: &mut FieldAttrs, struct_attrs: &StructAttrs)
    ensures
        final(attrs).model() == spec_inherit(old(attrs).model(), struct_attrs.model()),
{
    if attrs.resolve_with.is_none() && attrs.default.is_none() && !attrs.use_default {
        attrs.resolve_with = copy_opt_text(&struct_attrs.resolve_with);
    }
}


/// An accepted field is consistent: at most one default; `nested` and
/// `flatten` exclude each other and every scalar attribute; `prefix` and
/// `override_prefix` exclude each other and need `nested`; and `skip` stands
/// alone.
pub proof fn law_accepted_fields_are_consistent(items: Seq<(Seq<char>, ValueModel)>)
    requires
        spec_parse_field(items) is Ok,
    ensures
        ({
            let m = spec_parse_field(items)->Ok_0;
            &&& default_count(m) <= 1
            &&& !(m.nested && m.flatten)
            &&& (m.nested || m.flatten) ==> !has_scalar_attr(m)
            &&& !(m.prefix is Some && (m.override_prefix is Some || m.inherit_prefix))
            &&& (m.prefix is Some || m.override_prefix is Some || m.inherit_prefix) ==> m.nested
            &&& m.skip ==> !m.nested && !m.flatten && !has_scalar_attr(m) && m.prefix is None
                && m.override_prefix is None && !m.inherit_prefix
        }),
{
}

} // verus!
