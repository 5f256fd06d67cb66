//! A struct declaration as a whole: its fields read in order, with the first
//! refused attribute stopping the declaration, and what each trait made from
//! the declaration needs to know of it.

use super::attrs::item_models;
use super::attrs::parse_field_attrs;
use super::attrs::parse_struct_attrs;
use super::attrs::spec_parse_field;
use super::attrs::spec_parse_struct;
use super::attrs::AttrError;
use super::attrs::FieldAttrs;
use super::attrs::FieldModel;
use super::attrs::MetaItem;
use super::attrs::StructAttrs;
use super::attrs::StructModel;
use super::attrs::TraitKind;
use super::attrs::ValueModel;
use super::fields::field_name_to_env_key;
use super::fields::field_segment_names;
use super::fields::spec_segment_names;
use super::text::concat;
use super::text::spec_uppercase;
use super::text::texts;
use vstd::prelude::*;

verus! {

/// The shape of a field's type, as far as the rules look at it.
pub enum TypeShape {
    /// A path type, by the names of its segments (`std::string::String`).
    Path(Vec<String>),
    /// A reference to a type (`&str`, `&'static str`).
    Reference(Box<TypeShape>),
    /// Any other type.
    Other,
}

/// The mathematical value of a [`TypeShape`].
pub ghost enum ShapeModel {
    Path(Seq<Seq<char>>),
    Reference(Box<ShapeModel>),
    Other,
}

impl TypeShape {
    pub open spec fn model(&self) -> ShapeModel
        decreases self,
    {
        match self {
            TypeShape::Path(segments) => ShapeModel::Path(texts(segments@)),
            TypeShape::Reference(inner) => ShapeModel::Reference(Box::new((**inner).model())),
            TypeShape::Other => ShapeModel::Other,
        }
    }
}

/// The type is a path whose last segment is `name`.
pub open spec fn spec_last_ident_is(shape: ShapeModel, name: Seq<char>) -> bool {
    match shape {
        ShapeModel::Path(segments) => segments.len() > 0 && segments.last() == name,
        _ => false,
    }
}

/// The type is a path whose last segment is `name`.
pub fn type_last_ident_is(shape: &TypeShape, name: &str) -> (is: bool)
    ensures
        is == spec_last_ident_is(shape.model(), name@),
{
    match shape {
        TypeShape::Path(segments) => {
            let n = segments.len();
            if n == 0 {
                false
            } else {
                proof {
                    assert(texts(segments@).last() == segments@[n - 1]@);
                }
                super::text::same_text(segments[n - 1].as_str(), name)
            }
        },
        _ => false,
    }
}

/// The type holds text: `String`, or a reference to `str`.
pub open spec fn spec_is_stringish(shape: ShapeModel) -> bool {
    spec_last_ident_is(shape, "String"@) || match shape {
        ShapeModel::Reference(inner) => spec_last_ident_is(*inner, "str"@),
        _ => false,
    }
}

/// The type holds text: `String`, or a reference to `str`.
pub fn is_stringish(shape: &TypeShape) -> (is: bool)
    ensures
        is == spec_is_stringish(shape.model()),
{
    if type_last_ident_is(shape, "String") {
        return true;
    }
    match shape {
        TypeShape::Reference(inner) => type_last_ident_is(&**inner, "str"),
        _ => false,
    }
}

/// A named field of a config struct, as declared.
pub struct FieldDecl {
    /// The field's name.
    pub name: String,
    /// The items of its `#[setting(..)]` attributes, in order.
    pub items: Vec<MetaItem>,
    /// The shape of its type.
    pub shape: TypeShape,
    /// Its type as written.
    pub type_text: String,
}

/// The body of a declaration, as far as the rules look at it.
pub enum DeclShape {
    /// A struct with named fields.
    Named(Vec<FieldDecl>),
    /// A tuple or unit struct.
    Unnamed,
    /// An enum or a union.
    Enum,
}

/// The fields a trait is made from: those of a struct with named fields.
pub open spec fn spec_shape_fields(shape: DeclShape, which: TraitKind) -> Result<
    Seq<FieldDecl>,
    AttrError,
> {
    match shape {
        DeclShape::Named(fields) => Ok(fields@),
        DeclShape::Unnamed => Err(AttrError::UnnamedFields),
        DeclShape::Enum => Err(AttrError::NotAStruct(which)),
    }
}

/// The fields a trait is made from: only a struct with named fields has them.
pub fn named_fields(shape: &DeclShape, which: TraitKind) -> (r: Result<&Vec<FieldDecl>, AttrError>)
    ensures
        match r {
            Ok(fields) => spec_shape_fields(*shape, which) == Ok::<Seq<FieldDecl>, AttrError>(
                fields@,
            ),
            Err(e) => spec_shape_fields(*shape, which) == Err::<Seq<FieldDecl>, AttrError>(e),
        },
{
    match shape {
        DeclShape::Named(fields) => Ok(fields),
        DeclShape::Unnamed => Err(AttrError::UnnamedFields),
        DeclShape::Enum => Err(AttrError::NotAStruct(which)),
    }
}

/// The attribute items of each field.
pub open spec fn decl_items(fields: Seq<FieldDecl>) -> Seq<Seq<(Seq<char>, ValueModel)>> {
    fields.map_values(|f: FieldDecl| item_models(f.items@))
}

/// The models of a sequence of field attributes.
pub open spec fn attr_models(v: Seq<FieldAttrs>) -> Seq<FieldModel> {
    v.map_values(|a: FieldAttrs| a.model())
}

/// Each field's attributes, in order; the first field refused stops it.
pub open spec fn spec_parse_fields(decls: Seq<Seq<(Seq<char>, ValueModel)>>) -> Result<
    Seq<FieldModel>,
    AttrError,
>
    decreases decls.len(),
{
    if decls.len() == 0 {
        Ok(seq![])
    } else {
        match spec_parse_fields(decls.drop_last()) {
            Err(e) => Err(e),
            Ok(ms) => match spec_parse_field(decls.last()) {
                Err(e) => Err(e),
                Ok(m) => Ok(ms.push(m)),
            },
        }
    }
}

proof fn lemma_fields_error_sticks(decls: Seq<Seq<(Seq<char>, ValueModel)>>, k: int)
    requires
        0 <= k <= decls.len(),
        spec_parse_fields(decls.subrange(0, k)) is Err,
    ensures
        spec_parse_fields(decls) == spec_parse_fields(decls.subrange(0, k)),
    decreases decls.len(),
{
    if k == decls.len() {
        assert(decls.subrange(0, k) =~= decls);
    } else {
        assert(decls.drop_last().subrange(0, k) =~= decls.subrange(0, k));
        lemma_fields_error_sticks(decls.drop_last(), k);
    }
}

/// Each field's attributes, in declaration order; the first field whose
/// attributes are refused is the error.
pub fn parse_fields(fields: &[FieldDecl]) -> (r: Result<Vec<FieldAttrs>, AttrError>)
    ensures
        match r {
            Ok(v) => spec_parse_fields(decl_items(fields@)) == Ok::<Seq<FieldModel>, AttrError>(
                attr_models(v@),
            ),
            Err(e) => spec_parse_fields(decl_items(fields@)) == Err::<Seq<FieldModel>, AttrError>(
                e,
            ),
        },
{
    let ghost all = decl_items(fields@);
    let mut out: Vec<FieldAttrs> = Vec::new();
    let mut i: usize = 0;
    proof {
        assert(all.subrange(0, 0) =~= Seq::<Seq<(Seq<char>, ValueModel)>>::empty());
        assert(attr_models(out@) =~= Seq::<FieldModel>::empty());
    }
    while i < fields.len()
        invariant
            i <= fields@.len(),
            all == decl_items(fields@),
            spec_parse_fields(all.subrange(0, i as int)) == Ok::<Seq<FieldModel>, AttrError>(
                attr_models(out@),
            ),
        decreases fields@.len() - i,
    {
        proof {
            let head = all.subrange(0, i as int + 1);
            assert(head.drop_last() =~= all.subrange(0, i as int));
            assert(head.last() == item_models(fields@[i as int].items@));
        }
        match parse_field_attrs(fields[i].items.as_slice()) {
            Ok(attrs) => {
                let ghost before = out@;
                out.push(attrs);
                proof {
                    assert(attr_models(out@) =~= attr_models(before).push(attrs.model()));
                }
            },
            Err(e) => {
                proof {
                    lemma_fields_error_sticks(all, i as int + 1);
                }
                return Err(e);
            },
        }
        i = i + 1;
    }
    proof {
        assert(all.subrange(0, fields@.len() as int) =~= all);
    }
    Ok(out)
}

/// What a struct's `Settings` or `ConfigDisplay` needs of its declaration:
/// the struct's attributes, read first, then its named fields' attributes.
pub fn settings_attrs(struct_items: &[MetaItem], shape: &DeclShape, which: TraitKind) -> (r: Result<
    (StructAttrs, Vec<FieldAttrs>),
    AttrError,
>)
    ensures
        match spec_parse_struct(item_models(struct_items@)) {
            Err(e) => r == Err::<(StructAttrs, Vec<FieldAttrs>), AttrError>(e),
            Ok(sm) => match spec_shape_fields(*shape, which) {
                Err(e) => r == Err::<(StructAttrs, Vec<FieldAttrs>), AttrError>(e),
                Ok(fields) => match spec_parse_fields(decl_items(fields)) {
                    Err(e) => r == Err::<(StructAttrs, Vec<FieldAttrs>), AttrError>(e),
                    Ok(ms) => r matches Ok((s, v)) && s.model() == sm && attr_models(v@) == ms,
                },
            },
        },
{
    let struct_attrs = parse_struct_attrs(struct_items)?;
    let fields = named_fields(shape, which)?;
    let field_attrs = parse_fields(fields.as_slice())?;
    Ok((struct_attrs, field_attrs))
}

/// The names of the sub-struct fields (`nested` or `flatten`), in order.
pub open spec fn spec_cascaded(names: Seq<Seq<char>>, ms: Seq<FieldModel>) -> Seq<Seq<char>>
    decreases ms.len(),
{
    if ms.len() == 0 {
        seq![]
    } else {
        let rest = spec_cascaded(names.subrange(0, ms.len() - 1), ms.drop_last());
        if ms.last().nested || ms.last().flatten {
            rest.push(names[ms.len() - 1])
        } else {
            rest
        }
    }
}

/// The field names of the declaration.
pub open spec fn decl_names(fields: Seq<FieldDecl>) -> Seq<Seq<char>> {
    fields.map_values(|f: FieldDecl| f.name@)
}

/// What a struct's `Validate` needs of its declaration: the names of the
/// sub-struct fields whose own validation it cascades into, in order.
pub fn cascaded_fields(shape: &DeclShape) -> (r: Result<Vec<String>, AttrError>)
    ensures
        match spec_shape_fields(*shape, TraitKind::Validate) {
            Err(e) => r == Err::<Vec<String>, AttrError>(e),
            Ok(fields) => match spec_parse_fields(decl_items(fields)) {
                Err(e) => r == Err::<Vec<String>, AttrError>(e),
                Ok(ms) => r matches Ok(names) && texts(names@) == spec_cascaded(decl_names(fields), ms),
            },
        },
{
    let fields = named_fields(shape, TraitKind::Validate)?;
    let attrs = parse_fields(fields.as_slice())?;
    let ghost ms = attr_models(attrs@);
    let ghost all_names = decl_names(fields@);
    proof {
        assert(ms.len() == fields@.len()) by {
            lemma_parse_fields_len(decl_items(fields@));
        }
    }
    let mut names: Vec<String> = Vec::new();
    let mut i: usize = 0;
    proof {
        assert(texts(names@) =~= spec_cascaded(all_names.subrange(0, 0), ms.subrange(0, 0)));
    }
    while i < attrs.len()
        invariant
            i <= attrs@.len(),
            attrs@.len() == fields@.len(),
            ms == attr_models(attrs@),
            all_names == decl_names(fields@),
            texts(names@) == spec_cascaded(all_names.subrange(0, i as int), ms.subrange(0, i as int)),
        decreases attrs@.len() - i,
    {
        proof {
            let mh = ms.subrange(0, i as int + 1);
            let nh = all_names.subrange(0, i as int + 1);
            assert(mh.drop_last() =~= ms.subrange(0, i as int));
            assert(nh.subrange(0, mh.len() - 1) =~= all_names.subrange(0, i as int));
            assert(mh.last() == attrs@[i as int].model());
            assert(nh[mh.len() - 1] == fields@[i as int].name@);
        }
        if attrs[i].nested || attrs[i].flatten {
            let ghost before = names@;
            names.push(fields[i].name.clone());
            proof {
                assert(texts(names@) =~= texts(before).push(fields@[i as int].name@));
            }
        }
        i = i + 1;
    }
    proof {
        assert(ms.subrange(0, attrs@.len() as int) =~= ms);
        assert(all_names.subrange(0, attrs@.len() as int) =~= all_names);
    }
    Ok(names)
}

/// A successful reading has one set of attributes per field.
proof fn lemma_parse_fields_len(decls: Seq<Seq<(Seq<char>, ValueModel)>>)
    ensures
        spec_parse_fields(decls) matches Ok(ms) ==> ms.len() == decls.len(),
    decreases decls.len(),
{
    if decls.len() > 0 {
        lemma_parse_fields_len(decls.drop_last());
    }
}


/// A constant of a build-time module: the field it holds and its name.
pub struct CodegenConst {
    pub field: String,
    pub const_name: String,
}

/// What a struct's `ConfigCodegen` needs of its declaration: one constant per
/// field that is not skipped, in order, and the env keys the struct reads,
/// each once, in the order first read.
pub struct CodegenPlan {
    pub consts: Vec<CodegenConst>,
    pub env_keys: Vec<String>,
}

/// The mathematical value of a [`CodegenPlan`].
pub ghost struct CodegenModel {
    pub consts: Seq<(Seq<char>, Seq<char>)>,
    pub keys: Seq<Seq<char>>,
}

impl CodegenPlan {
    pub open spec fn model(&self) -> CodegenModel {
        CodegenModel {
            consts: self.consts@.map_values(|c: CodegenConst| (c.field@, c.const_name@)),
            keys: texts(self.env_keys@),
        }
    }
}

/// The env key a build-time module lists for a segment: the segment itself
/// with `override`, else the struct prefix, an underscore and the segment.
pub open spec fn spec_codegen_key(prefix: Option<Seq<char>>, m: FieldModel, name: Seq<char>) -> Seq<
    char,
> {
    if m.envs_override {
        name
    } else {
        match prefix {
            Some(p) => p + seq!['_'] + name,
            None => name,
        }
    }
}

/// `keys` with `key` added at the end, unless it is there already.
pub open spec fn add_unique(keys: Seq<Seq<char>>, key: Seq<char>) -> Seq<Seq<char>> {
    if keys.contains(key) {
        keys
    } else {
        keys.push(key)
    }
}

/// `keys` with the key of each segment added, in order, each once.
pub open spec fn add_keys(
    keys: Seq<Seq<char>>,
    prefix: Option<Seq<char>>,
    m: FieldModel,
    names: Seq<Seq<char>>,
) -> Seq<Seq<char>>
    decreases names.len(),
{
    if names.len() == 0 {
        keys
    } else {
        add_unique(add_keys(keys, prefix, m, names.drop_last()), spec_codegen_key(prefix, m, names.last()))
    }
}

/// The name and attribute items of each field.
pub open spec fn decl_entries(fields: Seq<FieldDecl>) -> Seq<(Seq<char>, Seq<(Seq<char>, ValueModel)>)> {
    fields.map_values(|f: FieldDecl| (f.name@, item_models(f.items@)))
}

/// The build-time module of the fields, in order: a sub-struct field refuses
/// the declaration, a skipped field is left out, any other adds its constant
/// and its keys.
pub open spec fn spec_codegen_fields(
    prefix: Option<Seq<char>>,
    decls: Seq<(Seq<char>, Seq<(Seq<char>, ValueModel)>)>,
) -> Result<CodegenModel, AttrError>
    decreases decls.len(),
{
    if decls.len() == 0 {
        Ok(CodegenModel { consts: seq![], keys: seq![] })
    } else {
        match spec_codegen_fields(prefix, decls.drop_last()) {
            Err(e) => Err(e),
            Ok(c) => {
                let name = decls.last().0;
                match spec_parse_field(decls.last().1) {
                    Err(e) => Err(e),
                    Ok(m) => if m.nested || m.flatten {
                        Err(AttrError::CodegenSubSettings)
                    } else if m.skip {
                        Ok(c)
                    } else {
                        Ok(
                            CodegenModel {
                                consts: c.consts.push((name, spec_uppercase(name))),
                                keys: add_keys(c.keys, prefix, m, spec_segment_names(name, m)),
                            },
                        )
                    },
                }
            },
        }
    }
}

/// The build-time module of a declaration: the struct's attributes, then its
/// shape, then its named fields.
pub open spec fn spec_codegen(struct_items: Seq<(Seq<char>, ValueModel)>, shape: DeclShape) -> Result<
    CodegenModel,
    AttrError,
> {
    match spec_parse_struct(struct_items) {
        Err(e) => Err(e),
        Ok(s) => match spec_shape_fields(shape, TraitKind::ConfigCodegen) {
            Err(e) => Err(e),
            Ok(fields) => spec_codegen_fields(s.prefix, decl_entries(fields)),
        },
    }
}

proof fn lemma_codegen_error_sticks(
    prefix: Option<Seq<char>>,
    decls: Seq<(Seq<char>, Seq<(Seq<char>, ValueModel)>)>,
    k: int,
)
    requires
        0 <= k <= decls.len(),
        spec_codegen_fields(prefix, decls.subrange(0, k)) is Err,
    ensures
        spec_codegen_fields(prefix, decls) == spec_codegen_fields(prefix, decls.subrange(0, k)),
    decreases decls.len(),
{
    if k == decls.len() {
        assert(decls.subrange(0, k) =~= decls);
    } else {
        assert(decls.drop_last().subrange(0, k) =~= decls.subrange(0, k));
        lemma_codegen_error_sticks(prefix, decls.drop_last(), k);
    }
}

/// Whether `key` is among `keys`.
fn contains_text(keys: &Vec<String>, key: &String) -> (found: bool)
    ensures
        found == texts(keys@).contains(key@),
{
    let mut i: usize = 0;
    while i < keys.len()
        invariant
            i <= keys@.len(),
            forall|j: int| 0 <= j < i ==> #[trigger] keys@[j]@ != key@,
        decreases keys@.len() - i,
    {
        if keys[i] == *key {
            proof {
                assert(texts(keys@)[i as int] == key@);
            }
            return true;
        }
        i = i + 1;
    }
    proof {
        if texts(keys@).contains(key@) {
            let j = choose|j: int| 0 <= j < texts(keys@).len() && texts(keys@)[j] == key@;
            assert(keys@[j]@ == key@);
        }
    }
    false
}

/// Add `key` at the end unless it is there already.
fn push_unique(keys: &mut Vec<String>, key: String)
    ensures
        texts(final(keys)@) == add_unique(texts(old(keys)@), key@),
{
    if !contains_text(keys, &key) {
        let ghost before = keys@;
        keys.push(key);
        proof {
            assert(texts(keys@) =~= texts(before).push(key@));
        }
    }
}

/// The env key a build-time module lists for a segment.
fn codegen_key(prefix: &Option<String>, envs_override: bool, name: &str) -> (key: String)
    ensures
        forall|m: FieldModel|
            m.envs_override == envs_override ==> key@ == #[trigger] spec_codegen_key(
                super::attrs::opt_text(*prefix),
                m,
                name@,
            ),
{
    if envs_override {
        return name.to_owned();
    }
    match prefix {
        Some(p) => {
            let mut key = concat(p.as_str(), "_");
            key.append(name);
            proof {
                reveal_strlit("_");
            }
            key
        },
        None => name.to_owned(),
    }
}

/// What a struct's `ConfigCodegen` needs of its declaration (see
/// [`spec_codegen`]): a constant per field that is not skipped, named by the
/// uppercased field name, and the env keys, each once. A `nested` or
/// `flatten` field refuses the declaration.
pub fn codegen_plan(struct_items: &[MetaItem], shape: &DeclShape) -> (r: Result<
    CodegenPlan,
    AttrError,
>)
    ensures
        match r {
            Ok(plan) => spec_codegen(item_models(struct_items@), *shape) == Ok::<
                CodegenModel,
                AttrError,
            >(plan.model()),
            Err(e) => spec_codegen(item_models(struct_items@), *shape) == Err::<CodegenModel, AttrError>(
                e,
            ),
        },
{
    let struct_attrs = parse_struct_attrs(struct_items)?;
    let fields = named_fields(shape, TraitKind::ConfigCodegen)?;
    let ghost prefix = super::attrs::opt_text(struct_attrs.prefix);
    let ghost all = decl_entries(fields@);
    let mut plan = CodegenPlan { consts: Vec::new(), env_keys: Vec::new() };
    let mut i: usize = 0;
    proof {
        assert(all.subrange(0, 0) =~= Seq::<(Seq<char>, Seq<(Seq<char>, ValueModel)>)>::empty());
        assert(plan.model().consts =~= Seq::<(Seq<char>, Seq<char>)>::empty());
        assert(plan.model().keys =~= Seq::<Seq<char>>::empty());
    }
    while i < fields.len()
        invariant
            i <= fields@.len(),
            all == decl_entries(fields@),
            prefix == super::attrs::opt_text(struct_attrs.prefix),
            spec_parse_struct(item_models(struct_items@)) == Ok::<StructModel, AttrError>(
                struct_attrs.model(),
            ),
            spec_shape_fields(*shape, TraitKind::ConfigCodegen) == Ok::<Seq<FieldDecl>, AttrError>(
                fields@,
            ),
            spec_codegen_fields(prefix, all.subrange(0, i as int)) == Ok::<CodegenModel, AttrError>(
                plan.model(),
            ),
        decreases fields@.len() - i,
    {
        let field = &fields[i];
        proof {
            let head = all.subrange(0, i as int + 1);
            assert(head.drop_last() =~= all.subrange(0, i as int));
            assert(head.last() == (field.name@, item_models(field.items@)));
        }
        let attrs = match parse_field_attrs(field.items.as_slice()) {
            Ok(attrs) => attrs,
            Err(e) => {
                proof {
                    lemma_codegen_error_sticks(prefix, all, i as int + 1);
                }
                return Err(e);
            },
        };
        if attrs.nested || attrs.flatten {
            proof {
                lemma_codegen_error_sticks(prefix, all, i as int + 1);
            }
            return Err(AttrError::CodegenSubSettings);
        }
        if !attrs.skip {
            let ghost before = plan.model();
            let const_name = field_name_to_env_key(field.name.as_str());
            plan.consts.push(CodegenConst { field: field.name.clone(), const_name });
            proof {
                assert(plan.model().consts =~= before.consts.push(
                    (field.name@, spec_uppercase(field.name@)),
                ));
            }
            let names = field_segment_names(field.name.as_str(), &attrs);
            let ghost segs = texts(names@);
            let mut j: usize = 0;
            proof {
                assert(segs.subrange(0, 0) =~= Seq::<Seq<char>>::empty());
            }
            while j < names.len()
                invariant
                    j <= names@.len(),
                    segs == texts(names@),
                    segs == spec_segment_names(field.name@, attrs.model()),
                    plan.model().consts == before.consts.push(
                        (field.name@, spec_uppercase(field.name@)),
                    ),
                    plan.model().keys == add_keys(
                        before.keys,
                        prefix,
                        attrs.model(),
                        segs.subrange(0, j as int),
                    ),
                    prefix == super::attrs::opt_text(struct_attrs.prefix),
                decreases names@.len() - j,
            {
                let key = codegen_key(&struct_attrs.prefix, attrs.envs_override, names[j].as_str());
                proof {
                    let head = segs.subrange(0, j as int + 1);
                    assert(head.drop_last() =~= segs.subrange(0, j as int));
                    assert(head.last() == names@[j as int]@);
                    assert(key@ == spec_codegen_key(prefix, attrs.model(), names@[j as int]@));
                }
                push_unique(&mut plan.env_keys, key);
                j = j + 1;
            }
            proof {
                assert(segs.subrange(0, names@.len() as int) =~= segs);
            }
        }
        i = i + 1;
    }
    proof {
        assert(all.subrange(0, fields@.len() as int) =~= all);
    }
    Ok(plan)
}


/// No key occurs twice.
pub open spec fn no_duplicates(keys: Seq<Seq<char>>) -> bool {
    forall|i: int, j: int| 0 <= i < j < keys.len() ==> keys[i] != keys[j]
}

proof fn lemma_add_keys_unique(
    keys: Seq<Seq<char>>,
    prefix: Option<Seq<char>>,
    m: FieldModel,
    names: Seq<Seq<char>>,
)
    requires
        no_duplicates(keys),
    ensures
        no_duplicates(add_keys(keys, prefix, m, names)),
    decreases names.len(),
{
    if names.len() > 0 {
        lemma_add_keys_unique(keys, prefix, m, names.drop_last());
        let before = add_keys(keys, prefix, m, names.drop_last());
        let key = spec_codegen_key(prefix, m, names.last());
        if !before.contains(key) {
            let after = before.push(key);
            assert forall|i: int, j: int| 0 <= i < j < after.len() implies after[i] != after[j] by {
                if j == after.len() - 1 {
                    assert(before[i] == after[i]);
                }
            }
        }
    }
}

proof fn lemma_codegen_fields_unique(
    prefix: Option<Seq<char>>,
    decls: Seq<(Seq<char>, Seq<(Seq<char>, ValueModel)>)>,
)
    ensures
        spec_codegen_fields(prefix, decls) matches Ok(c) ==> no_duplicates(c.keys),
    decreases decls.len(),
{
    if decls.len() > 0 {
        lemma_codegen_fields_unique(prefix, decls.drop_last());
        if let Ok(c) = spec_codegen_fields(prefix, decls.drop_last()) {
            if let Ok(m) = spec_parse_field(decls.last().1) {
                lemma_add_keys_unique(c.keys, prefix, m, spec_segment_names(decls.last().0, m));
            }
        }
    }
}

/// The env keys a build-time module lists are each listed once.
pub proof fn law_codegen_keys_unique(struct_items: Seq<(Seq<char>, ValueModel)>, shape: DeclShape)
    ensures
        spec_codegen(struct_items, shape) matches Ok(c) ==> no_duplicates(c.keys),
{
    if let Ok(s) = spec_parse_struct(struct_items) {
        if let Ok(fields) = spec_shape_fields(shape, TraitKind::ConfigCodegen) {
            lemma_codegen_fields_unique(s.prefix, decl_entries(fields));
        }
    }
}


/// The keys a constants module lists are the keys the struct reads at its
/// root: a segment is listed as the field reads it under the struct's own
/// prefix (or under none), provided that prefix is not empty. An empty
/// prefix is the exception: the module lists `_SEGMENT` where `SEGMENT` is read.
pub proof fn law_codegen_keys_are_read_keys(prefix: Option<Seq<char>>, m: FieldModel, segment: Seq<char>)
    requires
        prefix matches Some(p) ==> p.len() > 0,
    ensures
        m.envs_override ==> spec_codegen_key(prefix, m, segment) == segment,
        !m.envs_override ==> spec_codegen_key(prefix, m, segment) == crate::spec_join_key(
            match prefix {
                Some(p) => p,
                None => seq![],
            },
            segment,
        ),
{
}

} // verus!
