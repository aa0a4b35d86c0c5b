//! The schema node builder: from a type descriptor to a schema node.
//!
//! A type descriptor is plain data carrying what a type exposes to the
//! builder: its name, its requiredness, its primitive kind, and its fields
//! or variants with their per-site annotations.  How descriptors are
//! produced is outside this library.

use vstd::prelude::*;
use vstd::string::StrSliceExecFns;
use vstd::string::StringExecFns;
use crate::rename::{renamed, apply_rename, RenameRule};
use crate::schema::{
    assoc_insert, assoc_inserted, clone_opt_literal, clone_opt_string, empty_schema_v,
    find_key_v, insert_key_v, insert_str_v, lemma_ext_v_insert, lemma_props_v,
    lemma_props_v_insert, lemma_schemas_v, lemma_strings_v_insert, lit_v, opt_lit_v, opt_str_v, props_v, ext_pairs_v,
    schema_v, schemas_v, str_set_insert, str_set_inserted, strings_v, DataType, DataTypeFormat,
    Literal, Schema, SchemaV,
};
use crate::text::{dec_seq, decimal_of};

verus! {

broadcast use crate::schema::lemma_schema_v_unfold;

/// Descriptive annotations attached to a type, a field or a variant:
/// documentation, a preview gate, display hints and an example.
#[derive(Debug)]
pub struct Metadata {
    pub description: Option<String>,
    pub gated: Option<String>,
    pub collapsed: bool,
    pub priority: Option<u32>,
    pub example: Option<Literal>,
}

/// Whether `m` carries nothing.
pub open spec fn metadata_empty(m: Metadata) -> bool {
    &&& m.description is None
    &&& m.gated is None
    &&& !m.collapsed
    &&& m.priority is None
    &&& m.example is None
}

impl Metadata {
    /// Annotations that carry nothing.
    pub fn none() -> (r: Metadata)
        ensures
            metadata_empty(r),
    {
        Metadata { description: None, gated: None, collapsed: false, priority: None, example: None }
    }

    /// Whether these annotations carry nothing.
    pub fn is_empty(&self) -> (r: bool)
        ensures
            r == metadata_empty(*self),
    {
        self.description.is_none() && self.gated.is_none() && !self.collapsed
            && self.priority.is_none() && self.example.is_none()
    }
}

/// The extension key carrying a preview gate.
pub open spec fn gate_key_v() -> Seq<char> {
    "x_fp_preview_gate"@
}

/// The extension key marking a collapsed display.
pub open spec fn collapsed_key_v() -> Seq<char> {
    "x_fp_collapsed"@
}

/// The extension key carrying a display priority.
pub open spec fn priority_key_v() -> Seq<char> {
    "x_fp_priority"@
}

/// `sv` with the annotations of `m` merged in place: description and
/// example are overwritten when given; gate, collapsed mark and priority
/// are written into the vendor extensions.
pub open spec fn md_applied_v(sv: SchemaV, m: Metadata) -> SchemaV {
    let s1 = match m.description {
        Some(d) => SchemaV { description: Some(d@), ..sv },
        None => sv,
    };
    let s2 = match m.gated {
        Some(g) => SchemaV {
            extensions: insert_key_v(s1.extensions, gate_key_v(), lit_v(Literal::Str(g))),
            ..s1
        },
        None => s1,
    };
    let s3 = if m.collapsed {
        SchemaV {
            extensions: insert_key_v(
                s2.extensions,
                collapsed_key_v(),
                crate::schema::LiteralV::Bool(true),
            ),
            ..s2
        }
    } else {
        s2
    };
    let s4 = match m.priority {
        Some(p) => SchemaV {
            extensions: insert_key_v(
                s3.extensions,
                priority_key_v(),
                crate::schema::LiteralV::Int(p as int),
            ),
            ..s3
        },
        None => s3,
    };
    match m.example {
        Some(e) => SchemaV { example: Some(lit_v(e)), ..s4 },
        None => s4,
    }
}

/// Merges the annotations of `m` into `s` in place.
pub fn apply_metadata(s: Schema, m: &Metadata) -> (r: Schema)
    ensures
        r@ == md_applied_v(s@, *m),
{
    let mut s = s;
    let ghost s0 = s@;
    if let Some(d) = &m.description {
        s.description = Some(d.clone());
        proof {
            assert(s@ =~~= (SchemaV { description: Some(m.description->0@), ..s0 }));
        }
    }
    let ghost s1 = s@;
    if let Some(g) = &m.gated {
        let key = String::from_str("x_fp_preview_gate");
        let ghost ext0 = s.extensions@;
        assoc_insert(&mut s.extensions, key, Literal::Str(g.clone()));
        proof {
            lemma_ext_v_insert(ext0, key, Literal::Str(m.gated->0));
            assert(s@ =~~= (SchemaV {
                extensions: insert_key_v(s1.extensions, gate_key_v(), lit_v(
                    Literal::Str(m.gated->0),
                )),
                ..s1
            }));
        }
    }
    let ghost s2 = s@;
    if m.collapsed {
        let key = String::from_str("x_fp_collapsed");
        let ghost ext0 = s.extensions@;
        assoc_insert(&mut s.extensions, key, Literal::Bool(true));
        proof {
            lemma_ext_v_insert(ext0, key, Literal::Bool(true));
            assert(s@ =~~= (SchemaV {
                extensions: insert_key_v(
                s2.extensions,
                collapsed_key_v(),
                crate::schema::LiteralV::Bool(true),
            ),
                ..s2
            }));
        }
    }
    let ghost s3 = s@;
    if let Some(p) = &m.priority {
        let key = String::from_str("x_fp_priority");
        let ghost ext0 = s.extensions@;
        assoc_insert(&mut s.extensions, key, Literal::Int(*p as i64));
        proof {
            lemma_ext_v_insert(ext0, key, Literal::Int(m.priority->0 as i64));
            assert(s@ =~~= (SchemaV {
                extensions: insert_key_v(
                    s3.extensions,
                    priority_key_v(),
                    crate::schema::LiteralV::Int(m.priority->0 as int),
                ),
                ..s3
            }));
        }
    }
    let ghost s4 = s@;
    if let Some(e) = &m.example {
        s.example = Some(e.clone());
        proof {
            assert(s@ =~~= (SchemaV { example: Some(lit_v(m.example->0)), ..s4 }));
        }
    }
    s
}

/// The annotations of `m` laid over the already-resolved schema `sv`.
///
/// When the schema is a named reference, the annotations cannot be merged
/// into it without corrupting the shared definition, so the result is a
/// composition `all_of: [sv, fresh node carrying only the annotations and
/// the matching data kind]`.  An anonymous schema takes the annotations in
/// place.  Empty annotations change nothing.
pub open spec fn overlaid_v(sv: SchemaV, m: Metadata) -> SchemaV {
    if metadata_empty(m) {
        sv
    } else if sv.name is Some {
        SchemaV {
            all_of: seq![
                sv,
                md_applied_v(SchemaV { data_type: sv.data_type, ..empty_schema_v() }, m),
            ],
            ..empty_schema_v()
        }
    } else {
        md_applied_v(sv, m)
    }
}

/// Lays the annotations of `m` over the already-resolved schema `s`.
pub fn overlay_metadata(s: Schema, m: &Metadata) -> (r: Schema)
    ensures
        r@ == overlaid_v(s@, *m),
{
    if m.is_empty() {
        return s;
    }
    if s.name.is_some() {
        let mut fresh = Schema::empty();
        fresh.data_type = s.data_type;
        proof {
            assert(fresh@ =~~= (SchemaV { data_type: s@.data_type, ..empty_schema_v() }));
        }
        let fresh = apply_metadata(fresh, m);
        let mut wrapper = Schema::empty();
        let ghost sv = s@;
        let ghost fv = fresh@;
        let ghost gs = s;
        let ghost gf = fresh;
        proof {
            lemma_schemas_v(wrapper.all_of@);
            assert(wrapper.all_of@ =~= Seq::<Schema>::empty());
        }
        wrapper.all_of.push(s);
        wrapper.all_of.push(fresh);
        proof {
            assert(wrapper.all_of@ =~= seq![gs, gf]);
            lemma_schemas_v(wrapper.all_of@);
            assert(schemas_v(wrapper.all_of@) =~= seq![sv, fv]);
            assert(!metadata_empty(*m));
            assert(sv.name is Some);
            assert(wrapper@.all_of == seq![sv, fv]);
            assert(fv == md_applied_v(
                SchemaV { data_type: sv.data_type, ..empty_schema_v() },
                *m,
            ));
            broadcast use crate::schema::lemma_schema_v_unfold;

            assert(wrapper@.all_of == overlaid_v(sv, *m).all_of);
            assert(wrapper@ =~~= overlaid_v(sv, *m));
        }
        wrapper
    } else {
        apply_metadata(s, m)
    }
}

/// The reference path pointing at the named definition `n`.
pub open spec fn ref_path_v(n: Seq<char>) -> Seq<char> {
    crate::text::v2_ref_prefix() + n
}

/// The reference path pointing at the named definition `n`.
pub fn ref_path(n: &str) -> (r: String)
    ensures
        r@ == ref_path_v(n@),
{
    let mut r = String::from_str("#/definitions/");
    r.append(n);
    r
}

/// `sv` resolved for one use site.
///
/// Inlining clears the name, so the inlined copy cannot be pointed at.
/// Resolving by reference yields a pure pointer node: the canonical name,
/// the reference path to it, and the data kind, with no inline shape.  A
/// schema with no name cannot be pointed at and is always inlined.
pub open spec fn resolved_v(sv: SchemaV, inline: bool) -> SchemaV {
    if inline || sv.name is None {
        SchemaV { name: None, ..sv }
    } else {
        SchemaV {
            name: sv.name,
            reference: Some(ref_path_v(sv.name->0)),
            data_type: sv.data_type,
            ..empty_schema_v()
        }
    }
}

/// Resolves the built schema `s` for one use site: inline, or by
/// reference to its canonical name.
pub fn resolve(s: Schema, inline: bool) -> (r: Schema)
    ensures
        r@ == resolved_v(s@, inline),
{
    let ghost sv = s@;
    if inline || s.name.is_none() {
        let mut s = s;
        s.name = None;
        proof {
            assert(s@ =~~= (SchemaV { name: None, ..sv }));
        }
        s
    } else {
        let name = match &s.name {
            Some(n) => n.clone(),
            None => String::new(),
        };
        let mut r = Schema::empty();
        r.reference = Some(ref_path(name.as_str()));
        r.name = Some(name);
        r.data_type = s.data_type;
        proof {
            assert(r@ =~~= resolved_v(sv, inline));
        }
        r
    }
}

/// The rendered names of the given type arguments, comma-separated;
/// arguments without a name contribute nothing.
pub open spec fn joined_args_v(args: Seq<Option<String>>) -> Seq<char>
    decreases args,
{
    if args.len() == 0 {
        Seq::empty()
    } else {
        let rest = joined_args_v(args.drop_last());
        match args.last() {
            None => rest,
            Some(a) => if rest.len() == 0 {
                a@
            } else {
                rest + ", "@ + a@
            },
        }
    }
}

/// The canonical name of the type `t` describes: absent for a type marked
/// inline or carrying no name; the base name alone for a plain type; for a
/// parameterized type, the base name followed by the rendered names of its
/// type arguments in declaration order, comma-separated, in angle
/// brackets.
pub open spec fn canonical_name_v(t: TypeDesc) -> Option<Seq<char>> {
    if t.inline {
        None
    } else {
        match t.base_name {
            None => None,
            Some(b) => if t.type_args.len() == 0 {
                Some(b@)
            } else {
                Some(b@ + "<"@ + joined_args_v(t.type_args@) + ">"@)
            },
        }
    }
}

/// Joins the rendered names of the type arguments, comma-separated.
fn join_args(args: &Vec<Option<String>>) -> (r: String)
    ensures
        r@ == joined_args_v(args@),
{
    let mut acc = String::new();
    let mut i: usize = 0;
    while i < args.len()
        invariant
            i <= args@.len(),
            acc@ == joined_args_v(args@.subrange(0, i as int)),
        decreases args.len() - i,
    {
        proof {
            assert(args@.subrange(0, i + 1).drop_last() =~= args@.subrange(0, i as int));
            assert(args@.subrange(0, i + 1).last() == args@[i as int]);
        }
        match &args[i] {
            None => (),
            Some(a) => {
                if acc.as_str().is_empty() {
                    acc = a.clone();
                } else {
                    acc.append(", ");
                    acc.append(a.as_str());
                }
            },
        }
        i += 1;
    }
    proof {
        assert(args@.subrange(0, args@.len() as int) =~= args@);
    }
    acc
}

/// The canonical name of the type `t` describes, if it has one.
pub fn canonical_name(t: &TypeDesc) -> (r: Option<String>)
    ensures
        opt_str_v(r) == canonical_name_v(*t),
{
    if t.inline {
        return None;
    }
    match &t.base_name {
        None => None,
        Some(b) => {
            if t.type_args.len() == 0 {
                Some(b.clone())
            } else {
                let mut n = b.clone();
                n.append("<");
                let joined = join_args(&t.type_args);
                n.append(joined.as_str());
                n.append(">");
                proof {
                    assert(n@ =~= t.base_name->0@ + "<"@ + joined_args_v(t.type_args@)
                        + ">"@);
                }
                Some(n)
            }
        },
    }
}

/// How a tagged union records which variant is active.
#[derive(Debug)]
pub enum Tagging {
    /// No discriminant configured: the variant name wraps or names the
    /// value.
    External,
    /// A tag property inside each variant's object.
    Internal { tag: String },
    /// A tag property beside a content property.
    Adjacent { tag: String, content: String },
    /// No record at all: the union is the bare choice of its variants.
    Untagged,
}

impl Default for Tagging {
    /// The default tagging: external, the variant name wrapping the value.
    fn default() -> (r: Self)
        ensures
            r is External,
    {
        Tagging::External
    }
}

/// The shape a type descriptor can take.
#[derive(Debug)]
pub enum TypeShape {
    /// A primitive kind with an optional refinement.
    Primitive { data_type: Option<DataType>, format: Option<DataTypeFormat> },
    /// An object with named fields.
    Object { fields: Vec<FieldDesc> },
    /// A tagged union of variants.
    Union { variants: Vec<VariantDesc> },
    /// Unnamed positional fields.
    Tuple { elems: Vec<FieldDesc> },
}

/// What a type exposes to the builder.
#[derive(Debug)]
pub struct TypeDesc {
    /// The declared identifier, or its explicit rename; absent for a type
    /// with no name of its own.
    pub base_name: Option<String>,
    /// Rendered names of the type arguments of a parameterized type, in
    /// declaration order; empty for a plain type.
    pub type_args: Vec<Option<String>>,
    /// Marked inline: the type never receives a name and cannot be pointed
    /// at.
    pub inline: bool,
    /// Whether values of the type are present by default.
    pub required: bool,
    /// The type's own annotations.
    pub metadata: Metadata,
    /// The container-wide renaming convention for fields and variants.
    pub rename_all: Option<RenameRule>,
    /// The tagging strategy of a union type.
    pub tagging: Tagging,
    /// The shape.
    pub shape: TypeShape,
}

/// One named or positional field.
#[derive(Debug)]
pub struct FieldDesc {
    /// The declared field name.
    pub name: String,
    /// An explicit rename, overriding any container-wide convention.
    pub rename: Option<String>,
    /// Left out of the schema entirely.
    pub skip: bool,
    /// Merged into the containing schema by composition instead of
    /// becoming a named property.
    pub flatten: bool,
    /// Forced required, whatever the field type says.
    pub required_override: bool,
    /// Forced optional, whatever the field type says.
    pub optional_override: bool,
    /// The field's schema is written in place instead of by reference.
    pub inline: bool,
    /// The field's annotations.
    pub metadata: Metadata,
    /// The field's type.
    pub ty: TypeDesc,
}

/// The shape of one union variant.
#[derive(Debug)]
pub enum VariantShape {
    /// No payload.
    Unit,
    /// Named fields.
    Named { fields: Vec<FieldDesc> },
    /// Positional fields.
    Unnamed { elems: Vec<FieldDesc> },
}

/// One union variant.
#[derive(Debug)]
pub struct VariantDesc {
    /// The declared variant identifier.
    pub name: String,
    /// An explicit rename, overriding any container-wide convention.
    pub rename: Option<String>,
    /// Left out of the schema entirely.
    pub skip: bool,
    /// The variant's annotations; its description is the variant's
    /// documentation.
    pub metadata: Metadata,
    /// The payload shape.
    pub shape: VariantShape,
}

/// The key under which a field appears: its explicit rename, else its name
/// under the container-wide convention, else its name as declared.
pub open spec fn field_key_v(f: FieldDesc, rule: Option<RenameRule>) -> Seq<char> {
    match f.rename {
        Some(r) => r@,
        None => match rule {
            Some(rl) => renamed(rl, f.name@),
            None => f.name@,
        },
    }
}

/// The key under which a field appears.
pub fn field_key(f: &FieldDesc, rule: &Option<RenameRule>) -> (r: String)
    ensures
        r@ == field_key_v(*f, *rule),
{
    match &f.rename {
        Some(r) => r.clone(),
        None => match rule {
            Some(rl) => apply_rename(*rl, f.name.as_str()),
            None => f.name.clone(),
        },
    }
}

/// Whether a field is required: its type's own requiredness or the
/// explicit required override, unless the explicit optional override.
pub open spec fn field_required(f: FieldDesc) -> bool {
    (f.ty.required || f.required_override) && !f.optional_override
}

/// One named field folded into the accumulated object schema.
///
/// A skipped field changes nothing.  A flattened field turns the whole
/// accumulated schema into the composition of itself and the field's
/// resolved schema.  Any other field becomes one property under its key,
/// with its annotations laid over its resolved schema, and enters the
/// required set when the requiredness rule says so.
pub open spec fn field_step_v(acc: SchemaV, f: FieldDesc, rule: Option<RenameRule>) -> SchemaV
    decreases f, 1nat,
{
    if f.skip {
        acc
    } else {
        let fs = resolved_v(spec_build(f.ty), f.inline);
        if f.flatten {
            SchemaV { all_of: seq![acc, fs], ..empty_schema_v() }
        } else {
            let s = overlaid_v(fs, f.metadata);
            let key = field_key_v(f, rule);
            SchemaV {
                properties: insert_key_v(acc.properties, key, s),
                required: if field_required(f) {
                    insert_str_v(acc.required, key)
                } else {
                    acc.required
                },
                ..acc
            }
        }
    }
}

/// The named fields folded into the accumulated object schema, in order.
pub open spec fn fields_fold_v(
    acc: SchemaV,
    fields: Seq<FieldDesc>,
    rule: Option<RenameRule>,
) -> SchemaV
    decreases fields, 0nat,
{
    if fields.len() == 0 {
        acc
    } else {
        field_step_v(fields_fold_v(acc, fields.drop_last(), rule), fields.last(), rule)
    }
}

/// One positional field folded into the accumulated schema; its key is its
/// position written in decimal.
pub open spec fn tuple_step_v(acc: SchemaV, f: FieldDesc, idx: nat) -> SchemaV
    decreases f, 1nat,
{
    if f.skip {
        acc
    } else {
        let fs = resolved_v(spec_build(f.ty), f.inline);
        if f.flatten {
            SchemaV { all_of: seq![acc, fs], ..empty_schema_v() }
        } else {
            let s = match f.metadata.description {
                Some(d) => SchemaV { description: Some(d@), ..fs },
                None => fs,
            };
            let key = dec_seq(idx);
            SchemaV {
                properties: insert_key_v(acc.properties, key, s),
                required: if field_required(f) {
                    insert_str_v(acc.required, key)
                } else {
                    acc.required
                },
                ..acc
            }
        }
    }
}

/// The positional fields folded into the accumulated schema; positions
/// count every field, skipped ones included.
pub open spec fn tuple_fold_v(acc: SchemaV, elems: Seq<FieldDesc>) -> SchemaV
    decreases elems, 0nat,
{
    if elems.len() == 0 {
        acc
    } else {
        tuple_step_v(tuple_fold_v(acc, elems.drop_last()), elems.last(), (elems.len() - 1) as nat)
    }
}

/// The key under which a variant appears: its explicit rename, else its
/// name under the container-wide convention, else its name as declared.
pub open spec fn variant_key_v(v: VariantDesc, rule: Option<RenameRule>) -> Seq<char> {
    match v.rename {
        Some(r) => r@,
        None => match rule {
            Some(rl) => renamed(rl, v.name@),
            None => v.name@,
        },
    }
}

/// Whether the tagging writes variant names as plain constants.
pub open spec fn simple_tagging(t: Tagging) -> bool {
    t is External || t is Untagged
}

/// Whether every variant that is not skipped carries no payload.
pub open spec fn all_units(vs: Seq<VariantDesc>) -> bool {
    forall|i: int| 0 <= i < vs.len() && !(#[trigger] vs[i]).skip ==> vs[i].shape is Unit
}

/// The variant's own schema, before the tagging strategy shapes it: an
/// empty object for a unit variant, an object of the named fields, or the
/// positional-field schema (transparent for a single element).
pub open spec fn variant_inner_v(v: VariantDesc, rule: Option<RenameRule>) -> SchemaV
    decreases v, 0nat,
{
    match v.shape {
        VariantShape::Unit => SchemaV {
            data_type: Some(DataType::Object),
            description: opt_str_v(v.metadata.description),
            ..empty_schema_v()
        },
        VariantShape::Named { fields } => {
            let start = md_applied_v(
                SchemaV {
                    data_type: Some(DataType::Object),
                    description: opt_str_v(v.metadata.description),
                    ..empty_schema_v()
                },
                v.metadata,
            );
            fields_fold_v(start, fields@, rule)
        },
        VariantShape::Unnamed { elems } => {
            if elems@.len() == 1 {
                let f = elems@[0];
                if f.skip {
                    md_applied_v(empty_schema_v(), v.metadata)
                } else {
                    overlaid_v(resolved_v(spec_build(f.ty), f.inline), v.metadata)
                }
            } else {
                tuple_fold_v(
                    SchemaV { data_type: Some(DataType::Object), ..empty_schema_v() },
                    elems@,
                )
            }
        },
    }
}

/// The synthesized name of a variant's own definition: the union's name
/// followed by the variant's declared identifier.
pub open spec fn variant_def_name_v(ename: Option<Seq<char>>, v: VariantDesc) -> Seq<char> {
    (match ename {
        Some(n) => n,
        None => Seq::empty(),
    }) + v.name@
}

/// The tag property of an internally tagged variant: the variant's
/// rendered name as a constant, at top display priority.
pub open spec fn internal_tag_schema_v(key: Seq<char>) -> SchemaV {
    SchemaV {
        const_: Some(crate::schema::LiteralV::Str(key)),
        extensions: seq![(priority_key_v(), crate::schema::LiteralV::Int(0))],
        ..empty_schema_v()
    }
}

/// One variant folded into the accumulated union schema under the chosen
/// tagging strategy.
pub open spec fn variant_step_v(
    acc: SchemaV,
    v: VariantDesc,
    tagging: Tagging,
    rule: Option<RenameRule>,
    ename: Option<Seq<char>>,
    only_simple: bool,
) -> SchemaV
    decreases v, 1nat,
{
    if v.skip {
        acc
    } else {
        let key = variant_key_v(v, rule);
        if only_simple {
            SchemaV { enum_: acc.enum_.push(crate::schema::LiteralV::Str(key)), ..acc }
        } else if tagging is Untagged && v.shape is Unit {
            SchemaV {
                any_of: acc.any_of.push(
                    SchemaV {
                        const_: Some(crate::schema::LiteralV::Str(key)),
                        description: opt_str_v(v.metadata.description),
                        ..empty_schema_v()
                    },
                ),
                ..acc
            }
        } else {
            let inner = variant_inner_v(v, rule);
            let vdn = variant_def_name_v(ename, v);
            let node = match tagging {
                Tagging::External => SchemaV {
                    data_type: Some(DataType::Object),
                    properties: seq![(key, inner)],
                    required: seq![key],
                    ..empty_schema_v()
                },
                Tagging::Untagged => inner,
                Tagging::Internal { tag } => SchemaV {
                    name: Some(vdn),
                    reference: Some(ref_path_v(vdn)),
                    properties: insert_key_v(inner.properties, tag@, internal_tag_schema_v(key)),
                    required: insert_str_v(inner.required, tag@),
                    ..inner
                },
                Tagging::Adjacent { tag, content } => {
                    let tag_schema = SchemaV {
                        const_: Some(crate::schema::LiteralV::Str(key)),
                        description: opt_str_v(v.metadata.description),
                        ..empty_schema_v()
                    };
                    if v.shape is Unit {
                        SchemaV {
                            data_type: Some(DataType::Object),
                            name: Some(vdn),
                            reference: Some(ref_path_v(vdn)),
                            properties: seq![(tag@, tag_schema)],
                            required: seq![tag@],
                            ..empty_schema_v()
                        }
                    } else {
                        SchemaV {
                            data_type: Some(DataType::Object),
                            name: Some(vdn),
                            reference: Some(ref_path_v(vdn)),
                            properties: insert_key_v(seq![(tag@, tag_schema)], content@, inner),
                            required: insert_str_v(seq![tag@], content@),
                            ..empty_schema_v()
                        }
                    }
                },
            };
            SchemaV { any_of: acc.any_of.push(node), ..acc }
        }
    }
}

/// The variants folded into the accumulated union schema, in order.
pub open spec fn variants_fold_v(
    acc: SchemaV,
    vs: Seq<VariantDesc>,
    tagging: Tagging,
    rule: Option<RenameRule>,
    ename: Option<Seq<char>>,
    only_simple: bool,
) -> SchemaV
    decreases vs, 0nat,
{
    if vs.len() == 0 {
        acc
    } else {
        variant_step_v(
            variants_fold_v(acc, vs.drop_last(), tagging, rule, ename, only_simple),
            vs.last(),
            tagging,
            rule,
            ename,
            only_simple,
        )
    }
}

/// The schema node built for the type `t` describes.
///
/// The node carries the type's canonical name and example.  A primitive
/// contributes its data kind and refinement.  An object carries its
/// documentation and one property per field under the field rules.  A
/// union is encoded by its tagging strategy: all-unit unions under a
/// simple tagging become a plain string enum; any other union is the
/// choice (`any_of`) of its per-variant schemas.  A single positional
/// field is transparent: the node is the field's resolved schema under the
/// type's annotations.  Several positional fields become properties keyed
/// by position.  The canonical name always stands on the finished node.
pub open spec fn spec_build(t: TypeDesc) -> SchemaV
    decreases t, 0nat,
{
    let name = canonical_name_v(t);
    let base = SchemaV { name, example: opt_lit_v(t.metadata.example), ..empty_schema_v() };
    match t.shape {
        TypeShape::Primitive { data_type, format } => SchemaV { data_type, format, ..base },
        TypeShape::Object { fields } => {
            let start = SchemaV {
                data_type: Some(DataType::Object),
                description: opt_str_v(t.metadata.description),
                ..base
            };
            SchemaV { name, ..fields_fold_v(start, fields@, t.rename_all) }
        },
        TypeShape::Tuple { elems } => {
            if elems@.len() == 1 {
                let f = elems@[0];
                if f.skip {
                    SchemaV { name, ..md_applied_v(empty_schema_v(), t.metadata) }
                } else {
                    SchemaV {
                        name,
                        ..overlaid_v(resolved_v(spec_build(f.ty), f.inline), t.metadata)
                    }
                }
            } else {
                let start = SchemaV { data_type: Some(DataType::Object), ..base };
                SchemaV { name, ..tuple_fold_v(start, elems@) }
            }
        },
        TypeShape::Union { variants } => {
            let only_simple = simple_tagging(t.tagging) && all_units(variants@);
            let with_kind = if only_simple {
                SchemaV { data_type: Some(DataType::Text), ..base }
            } else {
                base
            };
            let start = match t.metadata.description {
                Some(d) => SchemaV { description: Some(d@), ..with_kind },
                None => with_kind,
            };
            SchemaV {
                name,
                ..variants_fold_v(start, variants@, t.tagging, t.rename_all, name, only_simple)
            }
        },
    }
}

/// The composition of an accumulated schema and a flattened-in schema.
fn flatten_pair(a: Schema, b: Schema) -> (r: Schema)
    ensures
        r@ == (SchemaV { all_of: seq![a@, b@], ..empty_schema_v() }),
{
    let ghost av = a@;
    let ghost bv = b@;
    let ghost ga = a;
    let ghost gb = b;
    let mut wrapper = Schema::empty();
    proof {
        lemma_schemas_v(wrapper.all_of@);
        assert(wrapper.all_of@ =~= Seq::<Schema>::empty());
    }
    wrapper.all_of.push(a);
    wrapper.all_of.push(b);
    proof {
        assert(wrapper.all_of@ =~= seq![ga, gb]);
        lemma_schemas_v(wrapper.all_of@);
        assert(schemas_v(wrapper.all_of@) =~= seq![av, bv]);
        assert(wrapper@ =~~= (SchemaV { all_of: seq![av, bv], ..empty_schema_v() }));
    }
    wrapper
}

/// Folds the named fields into the accumulated object schema.
fn build_fields(acc: Schema, fields: &Vec<FieldDesc>, rule: &Option<RenameRule>) -> (r: Schema)
    ensures
        r@ == fields_fold_v(acc@, fields@, *rule),
    decreases fields@, 2nat,
{
    let ghost acc0 = acc@;
    let mut acc = acc;
    let mut i: usize = 0;
    while i < fields.len()
        invariant
            i <= fields@.len(),
            acc@ == fields_fold_v(acc0, fields@.subrange(0, i as int), *rule),
        decreases fields@.len() - i,
    {
        let ghost accv = acc@;
        proof {
            assert(fields@.subrange(0, i + 1).drop_last() =~= fields@.subrange(0, i as int));
            assert(fields@.subrange(0, i + 1).last() == fields@[i as int]);
        }
        let f = &fields[i];
        if !f.skip {
            proof {
                assert(decreases_to!(fields@ => fields@[i as int]));
                assert(decreases_to!(fields@[i as int] => fields@[i as int].ty));
            }
            let built = build_schema(&f.ty);
            let resolved = resolve(built, f.inline);
            if f.flatten {
                acc = flatten_pair(acc, resolved);
            } else {
                let overlaid = overlay_metadata(resolved, &f.metadata);
                let key = field_key(f, rule);
                let key_set = key.clone();
                let req = (f.ty.required || f.required_override) && !f.optional_override;
                let ghost p0 = acc.properties@;
                let ghost r0 = acc.required@;
                let ghost gkey = key;
                let ghost gval = overlaid;
                assoc_insert(&mut acc.properties, key, overlaid);
                proof {
                    lemma_props_v_insert(p0, gkey, gval);
                }
                if req {
                    let ghost gkey2 = key_set;
                    str_set_insert(&mut acc.required, key_set);
                    proof {
                        lemma_strings_v_insert(r0, gkey2);
                    }
                }
                proof {
                    assert(acc@ =~~= field_step_v(accv, fields@[i as int], *rule));
                }
            }
        }
        i += 1;
    }
    proof {
        assert(fields@.subrange(0, fields@.len() as int) =~= fields@);
    }
    acc
}

/// Folds the positional fields into the accumulated schema, keyed by
/// position.
fn build_tuple_elems(acc: Schema, elems: &Vec<FieldDesc>) -> (r: Schema)
    ensures
        r@ == tuple_fold_v(acc@, elems@),
    decreases elems@, 2nat,
{
    let ghost acc0 = acc@;
    let mut acc = acc;
    let mut i: usize = 0;
    while i < elems.len()
        invariant
            i <= elems@.len(),
            acc@ == tuple_fold_v(acc0, elems@.subrange(0, i as int)),
        decreases elems@.len() - i,
    {
        let ghost accv = acc@;
        proof {
            assert(elems@.subrange(0, i + 1).drop_last() =~= elems@.subrange(0, i as int));
            assert(elems@.subrange(0, i + 1).last() == elems@[i as int]);
        }
        let f = &elems[i];
        if !f.skip {
            proof {
                assert(decreases_to!(elems@ => elems@[i as int]));
                assert(decreases_to!(elems@[i as int] => elems@[i as int].ty));
            }
            let built = build_schema(&f.ty);
            let mut resolved = resolve(built, f.inline);
            if f.flatten {
                acc = flatten_pair(acc, resolved);
            } else {
                let ghost rv = resolved@;
                if let Some(d) = &f.metadata.description {
                    resolved.description = Some(d.clone());
                    proof {
                        assert(resolved@ =~~= (SchemaV {
                            description: Some(f.metadata.description->0@),
                            ..rv
                        }));
                    }
                }
                let key = decimal_of(i as u64);
                let key_set = key.clone();
                let req = (f.ty.required || f.required_override) && !f.optional_override;
                let ghost p0 = acc.properties@;
                let ghost r0 = acc.required@;
                let ghost gkey = key;
                let ghost gval = resolved;
                assoc_insert(&mut acc.properties, key, resolved);
                proof {
                    lemma_props_v_insert(p0, gkey, gval);
                }
                if req {
                    let ghost gkey2 = key_set;
                    str_set_insert(&mut acc.required, key_set);
                    proof {
                        lemma_strings_v_insert(r0, gkey2);
                    }
                }
                proof {
                    assert(acc@ =~~= tuple_step_v(accv, elems@[i as int], i as nat));
                }
            }
        }
        i += 1;
    }
    proof {
        assert(elems@.subrange(0, elems@.len() as int) =~= elems@);
    }
    acc
}

/// Whether the variant carries no payload.
fn is_unit(v: &VariantDesc) -> (r: bool)
    ensures
        r == (v.shape is Unit),
{
    match &v.shape {
        VariantShape::Unit => true,
        _ => false,
    }
}

/// The key under which a variant appears.
pub fn variant_key(v: &VariantDesc, rule: &Option<RenameRule>) -> (r: String)
    ensures
        r@ == variant_key_v(*v, *rule),
{
    match &v.rename {
        Some(r) => r.clone(),
        None => match rule {
            Some(rl) => apply_rename(*rl, v.name.as_str()),
            None => v.name.clone(),
        },
    }
}

/// The variant's own schema, before the tagging strategy shapes it.
fn build_variant_inner(v: &VariantDesc, rule: &Option<RenameRule>) -> (r: Schema)
    ensures
        r@ == variant_inner_v(*v, *rule),
    decreases *v, 1nat,
{
    let mut start = Schema::empty();
    start.data_type = Some(DataType::Object);
    match &v.shape {
        VariantShape::Unit => {
            start.description = clone_opt_string(&v.metadata.description);
            proof {
                assert(start@ =~~= variant_inner_v(*v, *rule));
            }
            start
        },
        VariantShape::Named { fields } => {
            start.description = clone_opt_string(&v.metadata.description);
            proof {
                assert(start@ =~~= (SchemaV {
                    data_type: Some(DataType::Object),
                    description: opt_str_v(v.metadata.description),
                    ..empty_schema_v()
                }));
            }
            let start = apply_metadata(start, &v.metadata);
            proof {
                assert(decreases_to!(*v => v.shape));
                assert(v.shape == (VariantShape::Named { fields: *fields }));
                assert(decreases_to!(v.shape => v.shape->fields));
                assert(decreases_to!(v.shape->fields => fields@));
            }
            build_fields(start, fields, rule)
        },
        VariantShape::Unnamed { elems } => {
            proof {
                assert(decreases_to!(*v => v.shape));
                assert(v.shape == (VariantShape::Unnamed { elems: *elems }));
                assert(decreases_to!(v.shape => v.shape->elems));
                assert(decreases_to!(v.shape->elems => elems@));
            }
            if elems.len() == 1 {
                let f = &elems[0];
                if f.skip {
                    apply_metadata(Schema::empty(), &v.metadata)
                } else {
                    proof {
                        assert(decreases_to!(elems@ => elems@[0]));
                        assert(decreases_to!(elems@[0] => elems@[0].ty));
                    }
                    let built = build_schema(&f.ty);
                    let resolved = resolve(built, f.inline);
                    overlay_metadata(resolved, &v.metadata)
                }
            } else {
                build_tuple_elems(start, elems)
            }
        },
    }
}

/// Folds the variants into the accumulated union schema under the chosen
/// tagging strategy.
#[verifier::rlimit(30)]
fn build_variants(
    acc: Schema,
    variants: &Vec<VariantDesc>,
    tagging: &Tagging,
    rule: &Option<RenameRule>,
    ename: &Option<String>,
    only_simple: bool,
) -> (r: Schema)
    ensures
        r@ == variants_fold_v(acc@, variants@, *tagging, *rule, opt_str_v(*ename), only_simple),
    decreases variants@, 2nat,
{
    let ghost acc0 = acc@;
    let mut acc = acc;
    let mut i: usize = 0;
    while i < variants.len()
        invariant
            i <= variants@.len(),
            acc@ == variants_fold_v(
                acc0,
                variants@.subrange(0, i as int),
                *tagging,
                *rule,
                opt_str_v(*ename),
                only_simple,
            ),
        decreases variants@.len() - i,
    {
        let ghost accv = acc@;
        proof {
            assert(variants@.subrange(0, i + 1).drop_last() =~= variants@.subrange(
                0,
                i as int,
            ));
            assert(variants@.subrange(0, i + 1).last() == variants@[i as int]);
        }
        let v = &variants[i];
        if !v.skip {
            let key = variant_key(v, rule);
            if only_simple {
                let ghost e0 = acc.enum_@;
                let ghost gkey = key;
                acc.enum_.push(Literal::Str(key));
                proof {
                    assert(acc.enum_@ =~= e0.push(Literal::Str(gkey)));
                    assert(acc@.enum_ =~= accv.enum_.push(crate::schema::LiteralV::Str(gkey@)));
                    assert(acc@ =~~= variant_step_v(
                        accv,
                        variants@[i as int],
                        *tagging,
                        *rule,
                        opt_str_v(*ename),
                        only_simple,
                    ));
                }
            } else {
                let untagged_unit = match tagging {
                    Tagging::Untagged => is_unit(v),
                    _ => false,
                };
                if untagged_unit {
                    let mut node = Schema::empty();
                    node.const_ = Some(Literal::Str(key));
                    node.description = clone_opt_string(&v.metadata.description);
                    let ghost nv = node@;
                    let ghost gnode = node;
                    let ghost a0 = acc.any_of@;
                    acc.any_of.push(node);
                    proof {
                        assert(acc.any_of@ =~= a0.push(gnode));
                        lemma_schemas_v(acc.any_of@);
                        lemma_schemas_v(a0);
                        assert(acc@.any_of =~= accv.any_of.push(nv));
                        assert(acc@ =~~= variant_step_v(
                            accv,
                            variants@[i as int],
                            *tagging,
                            *rule,
                            opt_str_v(*ename),
                            only_simple,
                        ));
                    }
                } else {
                    proof {
                        assert(decreases_to!(variants@ => variants@[i as int]));
                    }
                    let inner = build_variant_inner(v, rule);
                    let mut vdn = match ename {
                        Some(n) => n.clone(),
                        None => String::new(),
                    };
                    vdn.append(v.name.as_str());
                    proof {
                        assert(vdn@ =~= variant_def_name_v(opt_str_v(*ename), variants@[i as int]));
                    }
                    let node: Schema = match tagging {
                        Tagging::External => {
                            let mut node = Schema::empty();
                            node.data_type = Some(DataType::Object);
                            let ghost p0 = node.properties@;
                            let ghost r0 = node.required@;
                            let ghost gkey = key;
                            let ghost ginner = inner;
                            let key_set = key.clone();
                            assoc_insert(&mut node.properties, key, inner);
                            proof {
                                lemma_props_v_insert(p0, gkey, ginner);
                                assert(find_key_v(
                                    props_v(p0),
                                    gkey@,
                                ) < 0);
                                assert(props_v(node.properties@) =~= seq![
                                    (gkey@, schema_v(ginner)),
                                ]);
                            }
                            let ghost r0b = node.required@;
                            let ghost gkey2 = key_set;
                            str_set_insert(&mut node.required, key_set);
                            proof {
                                lemma_strings_v_insert(r0b, gkey2);
                                assert(strings_v(node.required@) =~= seq![gkey2@]);
                            }
                            node
                        },
                        Tagging::Untagged => inner,
                        Tagging::Internal { tag } => {
                            let mut node = inner;
                            node.name = Some(vdn.clone());
                            node.reference = Some(ref_path(vdn.as_str()));
                            let mut tag_schema = Schema::empty();
                            tag_schema.const_ = Some(Literal::Str(key.clone()));
                            let ghost e0 = tag_schema.extensions@;
                            let pkey = String::from_str("x_fp_priority");
                            let ghost gpkey = pkey;
                            assoc_insert(&mut tag_schema.extensions, pkey, Literal::Int(0));
                            proof {
                                lemma_ext_v_insert(e0, gpkey, Literal::Int(0));
                                assert(ext_pairs_v(tag_schema.extensions@) =~= seq![
                                    (priority_key_v(), crate::schema::LiteralV::Int(0)),
                                ]);
                                assert(tag_schema@ =~~= internal_tag_schema_v(key@));
                            }
                            let ghost p0 = node.properties@;
                            let ghost r0 = node.required@;
                            let tag_key = tag.clone();
                            let ghost gtag = tag_key;
                            let ghost gts = tag_schema;
                            assoc_insert(&mut node.properties, tag_key, tag_schema);
                            proof {
                                lemma_props_v_insert(p0, gtag, gts);
                            }
                            let ghost r0b = node.required@;
                            let tag_set = tag.clone();
                            let ghost gtag2 = tag_set;
                            str_set_insert(&mut node.required, tag_set);
                            proof {
                                lemma_strings_v_insert(r0b, gtag2);
                            }
                            node
                        },
                        Tagging::Adjacent { tag, content } => {
                            let mut node = Schema::empty();
                            node.data_type = Some(DataType::Object);
                            node.name = Some(vdn.clone());
                            node.reference = Some(ref_path(vdn.as_str()));
                            let mut tag_schema = Schema::empty();
                            tag_schema.const_ = Some(Literal::Str(key.clone()));
                            tag_schema.description = clone_opt_string(&v.metadata.description);
                            let ghost p0 = node.properties@;
                            let tag_key = tag.clone();
                            let ghost gtag = tag_key;
                            let ghost gts = tag_schema;
                            assoc_insert(&mut node.properties, tag_key, tag_schema);
                            proof {
                                lemma_props_v_insert(p0, gtag, gts);
                                assert(props_v(node.properties@) =~= seq![
                                    (gtag@, schema_v(gts)),
                                ]);
                            }
                            let ghost r0 = node.required@;
                            let tag_set = tag.clone();
                            let ghost gtag2 = tag_set;
                            str_set_insert(&mut node.required, tag_set);
                            proof {
                                lemma_strings_v_insert(r0, gtag2);
                                assert(strings_v(node.required@) =~= seq![gtag2@]);
                            }
                            if !is_unit(v) {
                                let ghost p1 = node.properties@;
                                let content_key = content.clone();
                                let ghost gcontent = content_key;
                                let ghost ginner = inner;
                                assoc_insert(&mut node.properties, content_key, inner);
                                proof {
                                    lemma_props_v_insert(p1, gcontent, ginner);
                                }
                                let ghost r1 = node.required@;
                                let content_set = content.clone();
                                let ghost gcontent2 = content_set;
                                str_set_insert(&mut node.required, content_set);
                                proof {
                                    lemma_strings_v_insert(r1, gcontent2);
                                }
                            }
                            node
                        },
                    };
                    let ghost nv = node@;
                    let ghost gnode = node;
                    let ghost a0 = acc.any_of@;
                    acc.any_of.push(node);
                    proof {
                        assert(acc.any_of@ =~= a0.push(gnode));
                        lemma_schemas_v(acc.any_of@);
                        lemma_schemas_v(a0);
                        assert(acc@.any_of =~= accv.any_of.push(nv));
                        assert(acc@ =~~= variant_step_v(
                            accv,
                            variants@[i as int],
                            *tagging,
                            *rule,
                            opt_str_v(*ename),
                            only_simple,
                        ));
                    }
                }
            }
        }
        i += 1;
    }
    proof {
        assert(variants@.subrange(0, variants@.len() as int) =~= variants@);
    }
    acc
}

/// Whether the tagging writes variant names as plain constants.
fn is_simple_tagging(t: &Tagging) -> (r: bool)
    ensures
        r == simple_tagging(*t),
{
    match t {
        Tagging::External => true,
        Tagging::Untagged => true,
        _ => false,
    }
}

/// Whether every variant that is not skipped carries no payload.
fn variants_all_units(vs: &Vec<VariantDesc>) -> (r: bool)
    ensures
        r == all_units(vs@),
{
    let mut i: usize = 0;
    while i < vs.len()
        invariant
            i <= vs@.len(),
            forall|j: int| 0 <= j < i && !(#[trigger] vs@[j]).skip ==> vs@[j].shape is Unit,
        decreases vs.len() - i,
    {
        if !vs[i].skip && !is_unit(&vs[i]) {
            return false;
        }
        i += 1;
    }
    true
}

/// Builds the schema node for the type `t` describes.
pub fn build_schema(t: &TypeDesc) -> (r: Schema)
    ensures
        r@ == spec_build(*t),
    decreases *t, 0nat,
{
    let name = canonical_name(t);
    let name_keep = clone_opt_string(&name);
    let mut schema = Schema::empty();
    schema.name = name;
    schema.example = clone_opt_literal(&t.metadata.example);
    match &t.shape {
        TypeShape::Primitive { data_type, format } => {
            schema.data_type = *data_type;
            schema.format = *format;
            proof {
                assert(schema@ =~~= spec_build(*t));
            }
            schema
        },
        TypeShape::Object { fields } => {
            schema.data_type = Some(DataType::Object);
            schema.description = clone_opt_string(&t.metadata.description);
            proof {
                assert(decreases_to!(*t => t.shape));
                assert(t.shape == (TypeShape::Object { fields: *fields }));
                assert(decreases_to!(t.shape => t.shape->fields));
                assert(decreases_to!(t.shape->fields => fields@));
            }
            let mut folded = build_fields(schema, fields, &t.rename_all);
            folded.name = name_keep;
            proof {
                assert(folded@ =~~= spec_build(*t));
            }
            folded
        },
        TypeShape::Tuple { elems } => {
            proof {
                assert(decreases_to!(*t => t.shape));
                assert(t.shape == (TypeShape::Tuple { elems: *elems }));
                assert(decreases_to!(t.shape => t.shape->elems));
                assert(decreases_to!(t.shape->elems => elems@));
            }
            if elems.len() == 1 {
                let f = &elems[0];
                if f.skip {
                    let mut s = apply_metadata(Schema::empty(), &t.metadata);
                    s.name = name_keep;
                    proof {
                        assert(s@ =~~= spec_build(*t));
                    }
                    s
                } else {
                    proof {
                        assert(decreases_to!(elems@ => elems@[0]));
                        assert(decreases_to!(elems@[0] => elems@[0].ty));
                    }
                    let built = build_schema(&f.ty);
                    let resolved = resolve(built, f.inline);
                    let mut s = overlay_metadata(resolved, &t.metadata);
                    s.name = name_keep;
                    proof {
                        assert(s@ =~~= spec_build(*t));
                    }
                    s
                }
            } else {
                schema.data_type = Some(DataType::Object);
                let mut folded = build_tuple_elems(schema, elems);
                folded.name = name_keep;
                proof {
                    assert(folded@ =~~= spec_build(*t));
                }
                folded
            }
        },
        TypeShape::Union { variants } => {
            proof {
                assert(decreases_to!(*t => t.shape));
                assert(t.shape == (TypeShape::Union { variants: *variants }));
                assert(decreases_to!(t.shape => t.shape->variants));
                assert(decreases_to!(t.shape->variants => variants@));
            }
            let only_simple = is_simple_tagging(&t.tagging) && variants_all_units(variants);
            if only_simple {
                schema.data_type = Some(DataType::Text);
            }
            if let Some(d) = &t.metadata.description {
                schema.description = Some(d.clone());
            }
            let mut folded = build_variants(
                schema,
                variants,
                &t.tagging,
                &t.rename_all,
                &name_keep,
                only_simple,
            );
            let name_again = clone_opt_string(&name_keep);
            folded.name = name_again;
            proof {
                assert(folded@ =~~= spec_build(*t));
            }
            folded
        },
    }
}

/// Law: annotations laid over a named reference always compose.  The
/// result is exactly the pair of the untouched reference schema and a
/// fresh node carrying only the annotations and the matching data kind;
/// the referenced schema itself appears unchanged as the first member.
pub proof fn lemma_overlay_never_mutates_reference(sv: SchemaV, m: Metadata)
    requires
        sv.name is Some,
        !metadata_empty(m),
    ensures
        overlaid_v(sv, m).all_of.len() == 2,
        overlaid_v(sv, m).all_of[0] == sv,
        overlaid_v(sv, m).all_of[1].data_type == sv.data_type,
        m.description is Some ==> overlaid_v(sv, m).all_of[1].description == Some(
            m.description->0@,
        ),
        overlaid_v(sv, m).all_of[1].properties.len() == 0,
        overlaid_v(sv, m).all_of[1].reference is None,
        overlaid_v(sv, m).properties.len() == 0,
        overlaid_v(sv, m).description is None,
{
}

/// The views of the names a descriptor carries; two descriptors that agree
/// on them agree on their canonical name.
pub open spec fn name_identity_v(t: TypeDesc) -> (bool, Option<Seq<char>>, Seq<Option<Seq<char>>>) {
    (t.inline, opt_str_v(t.base_name), t.type_args@.map_values(|a: Option<String>| opt_str_v(a)))
}

/// The joined type-argument names depend only on the argument names.
proof fn lemma_joined_args_by_view(a: Seq<Option<String>>, b: Seq<Option<String>>)
    requires
        a.map_values(|x: Option<String>| opt_str_v(x)) == b.map_values(
            |x: Option<String>| opt_str_v(x),
        ),
    ensures
        joined_args_v(a) == joined_args_v(b),
    decreases a,
{
    assert(a.map_values(|x: Option<String>| opt_str_v(x)).len() == a.len());
    assert(b.map_values(|x: Option<String>| opt_str_v(x)).len() == b.len());
    assert(a.len() == b.len());
    if a.len() > 0 {
        assert(forall|i: int|
            0 <= i < a.len() ==> opt_str_v(#[trigger] a[i]) == a.map_values(
                |x: Option<String>| opt_str_v(x),
            )[i]);
        assert(forall|i: int|
            0 <= i < b.len() ==> opt_str_v(#[trigger] b[i]) == b.map_values(
                |x: Option<String>| opt_str_v(x),
            )[i]);
        assert(a.drop_last().map_values(|x: Option<String>| opt_str_v(x)) =~= b.drop_last()
            .map_values(|x: Option<String>| opt_str_v(x)));
        lemma_joined_args_by_view(a.drop_last(), b.drop_last());
        assert(opt_str_v(a.last()) == opt_str_v(b.last()));
        match a.last() {
            None => {
                assert(b.last() is None);
            },
            Some(x) => {
                assert(b.last() is Some);
            },
        }
    }
}

/// Law: naming is deterministic.  Two descriptors with the same identity
/// (inline mark, base name, type-argument names) receive the same
/// canonical name, so two builds of the same parameterized type yield
/// identical reference names.
pub proof fn lemma_naming_deterministic(a: TypeDesc, b: TypeDesc)
    requires
        name_identity_v(a) == name_identity_v(b),
    ensures
        canonical_name_v(a) == canonical_name_v(b),
{
    lemma_joined_args_by_view(a.type_args@, b.type_args@);
    assert(a.type_args@.len() == a.type_args@.map_values(
        |x: Option<String>| opt_str_v(x),
    ).len());
    assert(b.type_args@.len() == b.type_args@.map_values(
        |x: Option<String>| opt_str_v(x),
    ).len());
    match a.base_name {
        None => {
            assert(b.base_name is None);
        },
        Some(x) => {
            assert(b.base_name is Some);
        },
    }
}

/// The built schema's name is the canonical name.
pub proof fn lemma_build_name(t: TypeDesc)
    ensures
        spec_build(t).name == canonical_name_v(t),
{
}

/// Law: a type marked inline is always written in place.  Whatever the
/// use site asks, resolving its built schema returns that schema itself
/// with no name, never a pointer node to the type.
pub proof fn lemma_inline_type_never_referenced(t: TypeDesc, by_reference_site: bool)
    requires
        t.inline,
    ensures
        resolved_v(spec_build(t), by_reference_site) == (SchemaV {
            name: None,
            ..spec_build(t)
        }),
{
    lemma_build_name(t);
}

/// What one variant step does to the fields the union laws speak of: the
/// data kind, name and description never change; a plain string enum
/// grows its constant list by one per active variant; any other union
/// grows its choice list by one per active variant.
pub broadcast proof fn lemma_variant_step_fields(
    acc: SchemaV,
    v: VariantDesc,
    tagging: Tagging,
    rule: Option<RenameRule>,
    ename: Option<Seq<char>>,
    only_simple: bool,
)
    ensures
        (#[trigger] variant_step_v(acc, v, tagging, rule, ename, only_simple)).data_type
            == acc.data_type,
        variant_step_v(acc, v, tagging, rule, ename, only_simple).name == acc.name,
        variant_step_v(acc, v, tagging, rule, ename, only_simple).description
            == acc.description,
        variant_step_v(acc, v, tagging, rule, ename, only_simple).enum_ == if !v.skip
            && only_simple {
            acc.enum_.push(crate::schema::LiteralV::Str(variant_key_v(v, rule)))
        } else {
            acc.enum_
        },
        variant_step_v(acc, v, tagging, rule, ename, only_simple).any_of.len()
            == acc.any_of.len() + if !v.skip && !only_simple {
            1nat
        } else {
            0nat
        },
{
}

/// The variant fold leaves the enum-constant list alone unless the union
/// is a plain string enum.
proof fn lemma_variants_fold_enum(
    acc: SchemaV,
    vs: Seq<VariantDesc>,
    tagging: Tagging,
    rule: Option<RenameRule>,
    ename: Option<Seq<char>>,
)
    ensures
        variants_fold_v(acc, vs, tagging, rule, ename, false).enum_ == acc.enum_,
    decreases vs,
{
    broadcast use lemma_variant_step_fields;

    if vs.len() > 0 {
        lemma_variants_fold_enum(acc, vs.drop_last(), tagging, rule, ename);
        let prev = variants_fold_v(acc, vs.drop_last(), tagging, rule, ename, false);
        assert(prev.enum_ == acc.enum_);
        assert(variants_fold_v(acc, vs, tagging, rule, ename, false) == variant_step_v(
            prev,
            vs.last(),
            tagging,
            rule,
            ename,
            false,
        ));
        assert(variant_step_v(prev, vs.last(), tagging, rule, ename, false).enum_
            == prev.enum_);
    } else {
        assert(variants_fold_v(acc, vs, tagging, rule, ename, false) == acc);
    }
}

/// The number of variants that are not skipped.
pub open spec fn count_active_variants(vs: Seq<VariantDesc>) -> nat
    decreases vs,
{
    if vs.len() == 0 {
        0
    } else {
        count_active_variants(vs.drop_last()) + if vs.last().skip {
            0nat
        } else {
            1nat
        }
    }
}

/// The variant fold of a plain string enum pushes one constant per active
/// variant.
proof fn lemma_variants_fold_simple_enum(
    acc: SchemaV,
    vs: Seq<VariantDesc>,
    tagging: Tagging,
    rule: Option<RenameRule>,
    ename: Option<Seq<char>>,
)
    ensures
        variants_fold_v(acc, vs, tagging, rule, ename, true).enum_.len() == acc.enum_.len()
            + count_active_variants(vs),
    decreases vs,
{
    broadcast use lemma_variant_step_fields;

    if vs.len() > 0 {
        lemma_variants_fold_simple_enum(acc, vs.drop_last(), tagging, rule, ename);
        let prev = variants_fold_v(acc, vs.drop_last(), tagging, rule, ename, true);
        assert(variants_fold_v(acc, vs, tagging, rule, ename, true) == variant_step_v(
            prev,
            vs.last(),
            tagging,
            rule,
            ename,
            true,
        ));
    } else {
        assert(variants_fold_v(acc, vs, tagging, rule, ename, true) == acc);
    }
}

/// The variant fold pushes one choice member per active variant when the
/// union is not a plain string enum.
proof fn lemma_variants_fold_any_of(
    acc: SchemaV,
    vs: Seq<VariantDesc>,
    tagging: Tagging,
    rule: Option<RenameRule>,
    ename: Option<Seq<char>>,
)
    ensures
        variants_fold_v(acc, vs, tagging, rule, ename, false).any_of.len() == acc.any_of.len()
            + count_active_variants(vs),
    decreases vs,
{
    broadcast use lemma_variant_step_fields;

    if vs.len() > 0 {
        lemma_variants_fold_any_of(acc, vs.drop_last(), tagging, rule, ename);
        let prev = variants_fold_v(acc, vs.drop_last(), tagging, rule, ename, false);
        assert(variants_fold_v(acc, vs, tagging, rule, ename, false) == variant_step_v(
            prev,
            vs.last(),
            tagging,
            rule,
            ename,
            false,
        ));
    } else {
        assert(variants_fold_v(acc, vs, tagging, rule, ename, false) == acc);
    }
}

/// Law: a union with any data-carrying active variant never becomes the
/// plain string enum shape, whatever the tagging strategy: its constant
/// list stays empty and it is the choice of one schema per active
/// variant.  Only an all-unit union under a simple tagging may become the
/// string enum, and then it carries one constant per active variant.
pub proof fn lemma_mixed_union_never_string_enum(t: TypeDesc, witness: int)
    requires
        t.shape is Union,
        0 <= witness < t.shape->variants@.len(),
        !t.shape->variants@[witness].skip,
        !(t.shape->variants@[witness].shape is Unit),
    ensures
        spec_build(t).enum_.len() == 0,
        spec_build(t).any_of.len() == count_active_variants(t.shape->variants@),
{
    let vs = t.shape->variants@;
    assert(!all_units(vs));
    let name = canonical_name_v(t);
    let base = SchemaV { name, example: opt_lit_v(t.metadata.example), ..empty_schema_v() };
    let start = match t.metadata.description {
        Some(d) => SchemaV { description: Some(d@), ..base },
        None => base,
    };
    lemma_variants_fold_enum(start, vs, t.tagging, t.rename_all, name);
    lemma_variants_fold_any_of(start, vs, t.tagging, t.rename_all, name);
}

/// Law: an all-unit union under a simple tagging is the plain string
/// enum: its kind is string and it carries one constant per active
/// variant, with no choice members.
pub proof fn lemma_all_unit_simple_union_is_string_enum(t: TypeDesc)
    requires
        t.shape is Union,
        simple_tagging(t.tagging),
        all_units(t.shape->variants@),
    ensures
        spec_build(t).data_type == Some(DataType::Text),
        spec_build(t).enum_.len() == count_active_variants(t.shape->variants@),
{
    let vs = t.shape->variants@;
    let name = canonical_name_v(t);
    let base = SchemaV { name, example: opt_lit_v(t.metadata.example), ..empty_schema_v() };
    let with_kind = SchemaV { data_type: Some(DataType::Text), ..base };
    let start = match t.metadata.description {
        Some(d) => SchemaV { description: Some(d@), ..with_kind },
        None => with_kind,
    };
    lemma_variants_fold_simple_enum(start, vs, t.tagging, t.rename_all, name);
    lemma_variants_fold_data_type(start, vs, t.tagging, t.rename_all, name, true);
}

/// Whether some pair of `ps` bears the key `k`.
pub open spec fn props_has_key<T>(ps: Seq<(Seq<char>, T)>, k: Seq<char>) -> bool {
    exists|i: int| 0 <= i < ps.len() && ps[i].0 == k
}

/// `find_key_v` lands on a pair bearing the key exactly when one exists.
pub proof fn lemma_find_key_v<T>(ps: Seq<(Seq<char>, T)>, k: Seq<char>)
    ensures
        find_key_v(ps, k) < 0 ==> !props_has_key(ps, k),
        find_key_v(ps, k) >= 0 ==> 0 <= find_key_v(ps, k) < ps.len() && ps[find_key_v(ps, k)].0
            == k,
    decreases ps,
{
    if ps.len() > 0 && ps[0].0 != k {
        lemma_find_key_v(ps.drop_first(), k);
        if find_key_v(ps.drop_first(), k) < 0 {
            assert forall|i: int| 0 <= i < ps.len() implies ps[i].0 != k by {
                if i > 0 {
                    assert(ps.drop_first()[i - 1] == ps[i]);
                }
            }
        }
    }
}

/// The number of fields that are not skipped.
pub open spec fn count_active_fields(fs: Seq<FieldDesc>) -> nat
    decreases fs,
{
    if fs.len() == 0 {
        0
    } else {
        count_active_fields(fs.drop_last()) + if fs.last().skip {
            0nat
        } else {
            1nat
        }
    }
}

/// Whether the keys of the fields that are not skipped are pairwise
/// distinct under `rule`.
pub open spec fn distinct_field_keys(fs: Seq<FieldDesc>, rule: Option<RenameRule>) -> bool {
    forall|i: int, j: int|
        0 <= i < j < fs.len() && !fs[i].skip && !fs[j].skip ==> #[trigger] field_key_v(fs[i], rule)
            != #[trigger] field_key_v(fs[j], rule)
}

/// Folding fields without flattening grows the property list by exactly
/// one property per active field and the required set by exactly the
/// active fields the requiredness rule selects, provided the keys are
/// fresh and distinct.
proof fn lemma_fields_fold_exact(acc: SchemaV, fs: Seq<FieldDesc>, rule: Option<RenameRule>)
    requires
        forall|i: int| 0 <= i < fs.len() ==> !(#[trigger] fs[i]).flatten,
        distinct_field_keys(fs, rule),
        forall|i: int|
            0 <= i < fs.len() && !(#[trigger] fs[i]).skip ==> !props_has_key(
                acc.properties,
                field_key_v(fs[i], rule),
            ),
        forall|i: int|
            0 <= i < fs.len() && !(#[trigger] fs[i]).skip ==> !acc.required.contains(
                field_key_v(fs[i], rule),
            ),
    ensures
        fields_fold_v(acc, fs, rule).properties.len() == acc.properties.len()
            + count_active_fields(fs),
        forall|k: Seq<char>|
            #[trigger] props_has_key(fields_fold_v(acc, fs, rule).properties, k) <==> (
            props_has_key(acc.properties, k) || exists|i: int|
                0 <= i < fs.len() && !fs[i].skip && #[trigger] field_key_v(fs[i], rule) == k),
        forall|k: Seq<char>|
            #[trigger] fields_fold_v(acc, fs, rule).required.contains(k) <==> (
            acc.required.contains(k) || exists|i: int|
                0 <= i < fs.len() && !fs[i].skip && field_required(fs[i])
                    && #[trigger] field_key_v(fs[i], rule) == k),
    decreases fs,
{
    if fs.len() == 0 {
        assert(fields_fold_v(acc, fs, rule) == acc);
    } else {
        let pre = fs.drop_last();
        assert(forall|i: int| 0 <= i < pre.len() ==> pre[i] == fs[i]);
        lemma_fields_fold_exact(acc, pre, rule);
        let prev = fields_fold_v(acc, pre, rule);
        assert(fields_fold_v(acc, fs, rule) == field_step_v(prev, fs.last(), rule));
        let f = fs.last();
        let last = fs.len() - 1;
        assert(fs[last] == f);
        if f.skip {
            assert(field_step_v(prev, f, rule) == prev);
            assert forall|k: Seq<char>|
                #[trigger] props_has_key(fields_fold_v(acc, fs, rule).properties, k) <==> (
                props_has_key(acc.properties, k) || exists|i: int|
                    0 <= i < fs.len() && !fs[i].skip && #[trigger] field_key_v(fs[i], rule)
                        == k) by {
                if exists|i: int|
                    0 <= i < fs.len() && !fs[i].skip && #[trigger] field_key_v(fs[i], rule)
                        == k {
                    let w = choose|i: int|
                        0 <= i < fs.len() && !fs[i].skip && #[trigger] field_key_v(fs[i], rule)
                            == k;
                    assert(w < pre.len() && pre[w] == fs[w]);
                }
            }
            assert forall|k: Seq<char>|
                #[trigger] fields_fold_v(acc, fs, rule).required.contains(k) <==> (
                acc.required.contains(k) || exists|i: int|
                    0 <= i < fs.len() && !fs[i].skip && field_required(fs[i])
                        && #[trigger] field_key_v(fs[i], rule) == k) by {
                if exists|i: int|
                    0 <= i < fs.len() && !fs[i].skip && field_required(fs[i])
                        && #[trigger] field_key_v(fs[i], rule) == k {
                    let w = choose|i: int|
                        0 <= i < fs.len() && !fs[i].skip && field_required(fs[i])
                            && #[trigger] field_key_v(fs[i], rule) == k;
                    assert(w < pre.len() && pre[w] == fs[w]);
                }
            }
        } else {
            let key = field_key_v(f, rule);
            let sval = overlaid_v(resolved_v(spec_build(f.ty), f.inline), f.metadata);
            if props_has_key(prev.properties, key) {
                if exists|j: int|
                    0 <= j < pre.len() && !pre[j].skip && #[trigger] field_key_v(pre[j], rule)
                        == key {
                    let w = choose|j: int|
                        0 <= j < pre.len() && !pre[j].skip && #[trigger] field_key_v(
                            pre[j],
                            rule,
                        ) == key;
                    assert(field_key_v(fs[w], rule) == field_key_v(fs[last], rule));
                    assert(false);
                } else {
                    assert(props_has_key(acc.properties, key));
                    assert(false);
                }
            }
            lemma_find_key_v(prev.properties, key);
            if find_key_v(prev.properties, key) >= 0 {
                assert(props_has_key(prev.properties, key));
            }
            assert(find_key_v(prev.properties, key) < 0);
            let newps = prev.properties.push((key, sval));
            assert(field_step_v(prev, f, rule).properties == newps);
            assert forall|k: Seq<char>|
                #[trigger] props_has_key(newps, k) <==> (props_has_key(prev.properties, k) || k
                    == key) by {
                if props_has_key(newps, k) {
                    let w = choose|i: int| 0 <= i < newps.len() && newps[i].0 == k;
                    if w < prev.properties.len() {
                        assert(newps[w] == prev.properties[w]);
                    }
                }
                if props_has_key(prev.properties, k) {
                    let w = choose|i: int|
                        0 <= i < prev.properties.len() && prev.properties[i].0 == k;
                    assert(newps[w].0 == k);
                }
                if k == key {
                    assert(newps[prev.properties.len() as int].0 == k);
                }
            }
            if field_required(f) {
                if prev.required.contains(key) {
                    if exists|j: int|
                        0 <= j < pre.len() && !pre[j].skip && field_required(pre[j])
                            && #[trigger] field_key_v(pre[j], rule) == key {
                        let w = choose|j: int|
                            0 <= j < pre.len() && !pre[j].skip && field_required(pre[j])
                                && #[trigger] field_key_v(pre[j], rule) == key;
                        assert(field_key_v(fs[w], rule) == field_key_v(fs[last], rule));
                        assert(false);
                    } else {
                        assert(acc.required.contains(key));
                        assert(false);
                    }
                }
                assert(field_step_v(prev, f, rule).required == prev.required.push(key));
                assert forall|k: Seq<char>|
                    #[trigger] prev.required.push(key).contains(k) <==> (prev.required.contains(
                        k,
                    ) || k == key) by {
                    let pushed = prev.required.push(key);
                    if pushed.contains(k) {
                        let w = choose|i: int| 0 <= i < pushed.len() && pushed[i] == k;
                        if w < prev.required.len() {
                            assert(prev.required[w] == k);
                        }
                    }
                    if prev.required.contains(k) {
                        let w = choose|i: int|
                            0 <= i < prev.required.len() && prev.required[i] == k;
                        assert(pushed[w] == k);
                    }
                    if k == key {
                        assert(pushed[prev.required.len() as int] == k);
                    }
                }
            } else {
                assert(field_step_v(prev, f, rule).required == prev.required);
            }
            assert forall|k: Seq<char>|
                #[trigger] fields_fold_v(acc, fs, rule).required.contains(k) <==> (
                acc.required.contains(k) || exists|i: int|
                    0 <= i < fs.len() && !fs[i].skip && field_required(fs[i])
                        && #[trigger] field_key_v(fs[i], rule) == k) by {
                if fields_fold_v(acc, fs, rule).required.contains(k) {
                    if !acc.required.contains(k) {
                        if prev.required.contains(k) {
                            let w = choose|i: int|
                                0 <= i < pre.len() && !pre[i].skip && field_required(pre[i])
                                    && #[trigger] field_key_v(pre[i], rule) == k;
                            assert(0 <= w < fs.len() && !fs[w].skip && field_required(fs[w])
                                && field_key_v(fs[w], rule) == k);
                        } else {
                            assert(k == key && field_required(f));
                            assert(field_key_v(fs[last], rule) == k);
                        }
                    }
                } else {
                    if exists|i: int|
                        0 <= i < fs.len() && !fs[i].skip && field_required(fs[i])
                            && #[trigger] field_key_v(fs[i], rule) == k {
                        let w = choose|i: int|
                            0 <= i < fs.len() && !fs[i].skip && field_required(fs[i])
                                && #[trigger] field_key_v(fs[i], rule) == k;
                        if w < pre.len() {
                            assert(pre[w] == fs[w]);
                            assert(prev.required.contains(k));
                        } else {
                            assert(w == last);
                        }
                        assert(false);
                    }
                }
            }
            assert forall|k: Seq<char>|
                #[trigger] props_has_key(fields_fold_v(acc, fs, rule).properties, k) <==> (
                props_has_key(acc.properties, k) || exists|i: int|
                    0 <= i < fs.len() && !fs[i].skip && #[trigger] field_key_v(fs[i], rule)
                        == k) by {
                if props_has_key(fields_fold_v(acc, fs, rule).properties, k) {
                    if !props_has_key(acc.properties, k) {
                        if props_has_key(prev.properties, k) {
                            let w = choose|i: int|
                                0 <= i < pre.len() && !pre[i].skip && #[trigger] field_key_v(
                                    pre[i],
                                    rule,
                                ) == k;
                            assert(0 <= w < fs.len() && !fs[w].skip && field_key_v(fs[w], rule)
                                == k);
                        } else {
                            assert(k == key);
                            assert(field_key_v(fs[last], rule) == k);
                        }
                    }
                } else {
                    if exists|i: int|
                        0 <= i < fs.len() && !fs[i].skip && #[trigger] field_key_v(fs[i], rule)
                            == k {
                        let w = choose|i: int|
                            0 <= i < fs.len() && !fs[i].skip && #[trigger] field_key_v(
                                fs[i],
                                rule,
                            ) == k;
                        if w < pre.len() {
                            assert(pre[w] == fs[w]);
                            assert(props_has_key(prev.properties, k));
                        } else {
                            assert(w == last);
                        }
                        assert(false);
                    }
                }
            }
        }
    }
}

/// Law: an object type with named fields builds a schema with exactly one
/// property per field that is not skipped, and a required set holding
/// exactly the keys of those fields that the requiredness rule selects —
/// provided no field is flattened and the keys are distinct.
pub proof fn lemma_object_schema_exact(t: TypeDesc)
    requires
        t.shape is Object,
        forall|i: int|
            0 <= i < t.shape->fields@.len() ==> !(#[trigger] t.shape->fields@[i]).flatten,
        distinct_field_keys(t.shape->fields@, t.rename_all),
    ensures
        spec_build(t).properties.len() == count_active_fields(t.shape->fields@),
        forall|k: Seq<char>|
            #[trigger] props_has_key(spec_build(t).properties, k) <==> exists|i: int|
                0 <= i < t.shape->fields@.len() && !t.shape->fields@[i].skip
                    && #[trigger] field_key_v(t.shape->fields@[i], t.rename_all) == k,
        forall|k: Seq<char>|
            #[trigger] spec_build(t).required.contains(k) <==> exists|i: int|
                0 <= i < t.shape->fields@.len() && !t.shape->fields@[i].skip && field_required(
                    t.shape->fields@[i],
                ) && #[trigger] field_key_v(t.shape->fields@[i], t.rename_all) == k,
{
    let fields = t.shape->fields@;
    let name = canonical_name_v(t);
    let base = SchemaV { name, example: opt_lit_v(t.metadata.example), ..empty_schema_v() };
    let start = SchemaV {
        data_type: Some(DataType::Object),
        description: opt_str_v(t.metadata.description),
        ..base
    };
    assert(start.properties.len() == 0);
    assert(start.required.len() == 0);
    assert(forall|i: int|
        0 <= i < fields.len() && !(#[trigger] fields[i]).skip ==> !props_has_key(
            start.properties,
            field_key_v(fields[i], t.rename_all),
        ));
    lemma_fields_fold_exact(start, fields, t.rename_all);
    assert(spec_build(t).properties == fields_fold_v(start, fields, t.rename_all).properties);
    assert(spec_build(t).required == fields_fold_v(start, fields, t.rename_all).required);
}

/// Whether no node of the schema tree is a reference.
pub open spec fn reference_free(sv: SchemaV) -> bool
    decreases sv,
{
    &&& sv.reference is None
    &&& forall|i: int|
        0 <= i < sv.properties.len() ==> reference_free((#[trigger] sv.properties[i]).1)
    &&& (sv.items matches Some(b) ==> reference_free(*b))
    &&& forall|i: int| 0 <= i < sv.any_of.len() ==> reference_free(#[trigger] sv.any_of[i])
    &&& forall|i: int| 0 <= i < sv.all_of.len() ==> reference_free(#[trigger] sv.all_of[i])
}

/// Whether the fields reach only inline types.
pub open spec fn fields_deeply_inline(fs: Seq<FieldDesc>) -> bool
    decreases fs, 2nat,
{
    fs.len() == 0 || (deeply_inline(fs.last().ty) && fields_deeply_inline(fs.drop_last()))
}

/// Whether the variant reaches only inline types.
pub open spec fn variant_deeply_inline(v: VariantDesc) -> bool
    decreases v, 1nat,
{
    match v.shape {
        VariantShape::Unit => true,
        VariantShape::Named { fields } => fields_deeply_inline(fields@),
        VariantShape::Unnamed { elems } => fields_deeply_inline(elems@),
    }
}

/// Whether the variants reach only inline types.
pub open spec fn variants_deeply_inline(vs: Seq<VariantDesc>) -> bool
    decreases vs, 2nat,
{
    vs.len() == 0 || (variant_deeply_inline(vs.last()) && variants_deeply_inline(vs.drop_last()))
}

/// Whether the descriptor and every type it reaches is marked inline, and
/// every union among them is simply tagged.  An internally or adjacently
/// tagged union synthesizes named variant definitions of its own and
/// references them even when the union itself is inline, so those stay
/// out.
pub open spec fn deeply_inline(t: TypeDesc) -> bool
    decreases t, 1nat,
{
    t.inline && match t.shape {
        TypeShape::Primitive { .. } => true,
        TypeShape::Object { fields } => fields_deeply_inline(fields@),
        TypeShape::Tuple { elems } => fields_deeply_inline(elems@),
        TypeShape::Union { variants } => simple_tagging(t.tagging) && variants_deeply_inline(
            variants@,
        ),
    }
}

/// Merging annotations in place never introduces a reference.
proof fn lemma_md_applied_reference_free(sv: SchemaV, m: Metadata)
    requires
        reference_free(sv),
    ensures
        reference_free(md_applied_v(sv, m)),
{
    let out = md_applied_v(sv, m);
    assert(out.reference == sv.reference);
    assert(out.properties == sv.properties);
    assert(out.items == sv.items);
    assert(out.any_of == sv.any_of);
    assert(out.all_of == sv.all_of);
}

/// Clearing the name keeps a schema reference-free.
proof fn lemma_name_cleared_reference_free(sv: SchemaV)
    requires
        reference_free(sv),
    ensures
        reference_free(SchemaV { name: None, ..sv }),
{
    let out = SchemaV { name: None, ..sv };
    assert(out.reference == sv.reference);
    assert(out.properties == sv.properties);
    assert(out.items == sv.items);
    assert(out.any_of == sv.any_of);
    assert(out.all_of == sv.all_of);
}

/// Laying annotations over a nameless reference-free schema yields a
/// reference-free schema.
proof fn lemma_overlaid_reference_free(sv: SchemaV, m: Metadata)
    requires
        reference_free(sv),
        sv.name is None,
    ensures
        reference_free(overlaid_v(sv, m)),
{
    if !metadata_empty(m) {
        lemma_md_applied_reference_free(sv, m);
    }
}

/// A reference-free schema stays reference-free when a reference-free
/// property is inserted.
proof fn lemma_insert_reference_free(acc: SchemaV, key: Seq<char>, s: SchemaV, req: Seq<Seq<char>>)
    requires
        reference_free(acc),
        reference_free(s),
    ensures
        reference_free(
            SchemaV { properties: insert_key_v(acc.properties, key, s), required: req, ..acc },
        ),
{
    let out = SchemaV { properties: insert_key_v(acc.properties, key, s), required: req, ..acc };
    lemma_find_key_v(acc.properties, key);
    let i = find_key_v(acc.properties, key);
    assert forall|j: int| 0 <= j < out.properties.len() implies reference_free(
        (#[trigger] out.properties[j]).1,
    ) by {
        if i < 0 {
            if j < acc.properties.len() {
                assert(out.properties[j] == acc.properties[j]);
            } else {
                assert(out.properties[j] == (key, s));
            }
        } else {
            if j == i {
                assert(out.properties[j] == (key, s));
            } else {
                assert(out.properties[j] == acc.properties[j]);
            }
        }
    }
}

/// The field fold over inline fields keeps the schema reference-free.
proof fn lemma_fields_fold_reference_free(
    acc: SchemaV,
    fs: Seq<FieldDesc>,
    rule: Option<RenameRule>,
)
    requires
        reference_free(acc),
        fields_deeply_inline(fs),
    ensures
        reference_free(fields_fold_v(acc, fs, rule)),
    decreases fs, 3nat,
{
    if fs.len() > 0 {
        lemma_fields_fold_reference_free(acc, fs.drop_last(), rule);
        let prev = fields_fold_v(acc, fs.drop_last(), rule);
        let f = fs.last();
        if !f.skip {
            lemma_deeply_inline_reference_free(f.ty);
            lemma_build_name(f.ty);
            let built = spec_build(f.ty);
            let resolved = resolved_v(built, f.inline);
            lemma_name_cleared_reference_free(built);
            assert(resolved == (SchemaV { name: None, ..built }));
            if f.flatten {
                let out = field_step_v(prev, f, rule);
                assert(out.all_of == seq![prev, resolved]);
                assert(forall|i: int|
                    0 <= i < out.all_of.len() ==> reference_free(#[trigger] out.all_of[i]));
                assert(out.properties.len() == 0);
                assert(out.any_of.len() == 0);
            } else {
                lemma_overlaid_reference_free(resolved, f.metadata);
                lemma_insert_reference_free(
                    prev,
                    field_key_v(f, rule),
                    overlaid_v(resolved, f.metadata),
                    if field_required(f) {
                        insert_str_v(prev.required, field_key_v(f, rule))
                    } else {
                        prev.required
                    },
                );
            }
        }
    }
}

/// The positional fold over inline fields keeps the schema
/// reference-free.
proof fn lemma_tuple_fold_reference_free(acc: SchemaV, fs: Seq<FieldDesc>)
    requires
        reference_free(acc),
        fields_deeply_inline(fs),
    ensures
        reference_free(tuple_fold_v(acc, fs)),
    decreases fs, 3nat,
{
    if fs.len() > 0 {
        lemma_tuple_fold_reference_free(acc, fs.drop_last());
        let prev = tuple_fold_v(acc, fs.drop_last());
        let f = fs.last();
        let idx = (fs.len() - 1) as nat;
        if !f.skip {
            lemma_deeply_inline_reference_free(f.ty);
            lemma_build_name(f.ty);
            let built = spec_build(f.ty);
            let resolved = resolved_v(built, f.inline);
            lemma_name_cleared_reference_free(built);
            assert(resolved == (SchemaV { name: None, ..built }));
            if f.flatten {
                let out = tuple_step_v(prev, f, idx);
                assert(out.all_of == seq![prev, resolved]);
                assert(forall|i: int|
                    0 <= i < out.all_of.len() ==> reference_free(#[trigger] out.all_of[i]));
                assert(out.properties.len() == 0);
                assert(out.any_of.len() == 0);
            } else {
                let s = match f.metadata.description {
                    Some(d) => SchemaV { description: Some(d@), ..resolved },
                    None => resolved,
                };
                assert(reference_free(s)) by {
                    assert(s.reference == resolved.reference);
                    assert(s.properties == resolved.properties);
                    assert(s.items == resolved.items);
                    assert(s.any_of == resolved.any_of);
                    assert(s.all_of == resolved.all_of);
                }
                lemma_insert_reference_free(
                    prev,
                    dec_seq(idx),
                    s,
                    if field_required(f) {
                        insert_str_v(prev.required, dec_seq(idx))
                    } else {
                        prev.required
                    },
                );
            }
        }
    }
}

/// The variant's own schema of an inline variant is reference-free.
proof fn lemma_variant_inner_reference_free(v: VariantDesc, rule: Option<RenameRule>)
    requires
        variant_deeply_inline(v),
    ensures
        reference_free(variant_inner_v(v, rule)),
    decreases v, 2nat,
{
    match v.shape {
        VariantShape::Unit => {
            assert(reference_free(variant_inner_v(v, rule)));
        },
        VariantShape::Named { fields } => {
            let start0 = SchemaV {
                data_type: Some(DataType::Object),
                description: opt_str_v(v.metadata.description),
                ..empty_schema_v()
            };
            assert(reference_free(start0));
            lemma_md_applied_reference_free(start0, v.metadata);
            lemma_fields_fold_reference_free(md_applied_v(start0, v.metadata), fields@, rule);
        },
        VariantShape::Unnamed { elems } => {
            if elems@.len() == 1 {
                let f = elems@[0];
                assert(fields_deeply_inline(elems@.drop_last()));
                assert(elems@.last() == f);
                if f.skip {
                    assert(reference_free(empty_schema_v()));
                    lemma_md_applied_reference_free(empty_schema_v(), v.metadata);
                } else {
                    lemma_deeply_inline_reference_free(f.ty);
                    lemma_build_name(f.ty);
                    let built = spec_build(f.ty);
                    lemma_name_cleared_reference_free(built);
                    assert(resolved_v(built, f.inline) == (SchemaV { name: None, ..built }));
                    lemma_overlaid_reference_free(resolved_v(built, f.inline), v.metadata);
                }
            } else {
                let start = SchemaV { data_type: Some(DataType::Object), ..empty_schema_v() };
                assert(reference_free(start));
                lemma_tuple_fold_reference_free(start, elems@);
            }
        },
    }
}

/// The variant fold of a simply tagged, deeply inline union keeps the
/// schema reference-free.
proof fn lemma_variants_fold_reference_free(
    acc: SchemaV,
    vs: Seq<VariantDesc>,
    tagging: Tagging,
    rule: Option<RenameRule>,
    ename: Option<Seq<char>>,
    only_simple: bool,
)
    requires
        reference_free(acc),
        simple_tagging(tagging),
        variants_deeply_inline(vs),
    ensures
        reference_free(variants_fold_v(acc, vs, tagging, rule, ename, only_simple)),
    decreases vs, 3nat,
{
    if vs.len() > 0 {
        lemma_variants_fold_reference_free(acc, vs.drop_last(), tagging, rule, ename, only_simple);
        let prev = variants_fold_v(acc, vs.drop_last(), tagging, rule, ename, only_simple);
        let v = vs.last();
        let out = variant_step_v(prev, v, tagging, rule, ename, only_simple);
        if !v.skip {
            let key = variant_key_v(v, rule);
            if only_simple {
                assert(out.reference == prev.reference);
                assert(out.properties == prev.properties);
                assert(out.items == prev.items);
                assert(out.any_of == prev.any_of);
                assert(out.all_of == prev.all_of);
            } else {
                lemma_variant_inner_reference_free(v, rule);
                let inner = variant_inner_v(v, rule);
                let node = if tagging is Untagged && v.shape is Unit {
                    SchemaV {
                        const_: Some(crate::schema::LiteralV::Str(key)),
                        description: opt_str_v(v.metadata.description),
                        ..empty_schema_v()
                    }
                } else {
                    match tagging {
                        Tagging::External => SchemaV {
                            data_type: Some(DataType::Object),
                            properties: seq![(key, inner)],
                            required: seq![key],
                            ..empty_schema_v()
                        },
                        _ => inner,
                    }
                };
                assert(reference_free(node)) by {
                    if tagging is Untagged && v.shape is Unit {
                    } else {
                        match tagging {
                            Tagging::External => {
                                assert(node.properties == seq![(key, inner)]);
                                assert(forall|i: int|
                                    0 <= i < node.properties.len() ==> reference_free(
                                        (#[trigger] node.properties[i]).1,
                                    ));
                            },
                            _ => {},
                        }
                    }
                }
                assert(out.any_of == prev.any_of.push(node));
                assert(forall|i: int|
                    0 <= i < out.any_of.len() ==> reference_free(#[trigger] out.any_of[i]));
                assert(out.reference == prev.reference);
                assert(out.properties == prev.properties);
                assert(out.items == prev.items);
                assert(out.all_of == prev.all_of);
            }
        }
    }
}

/// Law: a deeply inline type yields a schema with no reference node
/// anywhere — however deep the nesting, nothing in its output can point
/// at it or at anything below it.  One input stays out by design: a union
/// under internal or adjacent tagging synthesizes named variant
/// definitions and references those even when marked inline.
pub proof fn lemma_deeply_inline_reference_free(t: TypeDesc)
    requires
        deeply_inline(t),
    ensures
        reference_free(spec_build(t)),
    decreases t, 4nat,
{
    let name = canonical_name_v(t);
    assert(name is None);
    let base = SchemaV { name, example: opt_lit_v(t.metadata.example), ..empty_schema_v() };
    assert(reference_free(base));
    match t.shape {
        TypeShape::Primitive { data_type, format } => {
            assert(reference_free(spec_build(t)));
        },
        TypeShape::Object { fields } => {
            let start = SchemaV {
                data_type: Some(DataType::Object),
                description: opt_str_v(t.metadata.description),
                ..base
            };
            assert(reference_free(start));
            lemma_fields_fold_reference_free(start, fields@, t.rename_all);
            let folded = fields_fold_v(start, fields@, t.rename_all);
            lemma_name_cleared_reference_free(folded);
            assert(spec_build(t) == (SchemaV { name, ..folded }));
        },
        TypeShape::Tuple { elems } => {
            if elems@.len() == 1 {
                let f = elems@[0];
                assert(fields_deeply_inline(elems@.drop_last()));
                assert(elems@.last() == f);
                if f.skip {
                    lemma_md_applied_reference_free(empty_schema_v(), t.metadata);
                    let s = md_applied_v(empty_schema_v(), t.metadata);
                    lemma_name_cleared_reference_free(s);
                    assert(spec_build(t) == (SchemaV { name, ..s }));
                } else {
                    lemma_deeply_inline_reference_free(f.ty);
                    lemma_build_name(f.ty);
                    let built = spec_build(f.ty);
                    lemma_name_cleared_reference_free(built);
                    assert(resolved_v(built, f.inline) == (SchemaV { name: None, ..built }));
                    lemma_overlaid_reference_free(resolved_v(built, f.inline), t.metadata);
                    let s = overlaid_v(resolved_v(built, f.inline), t.metadata);
                    lemma_name_cleared_reference_free(s);
                    assert(spec_build(t) == (SchemaV { name, ..s }));
                }
            } else {
                let start = SchemaV { data_type: Some(DataType::Object), ..base };
                assert(reference_free(start));
                lemma_tuple_fold_reference_free(start, elems@);
                let folded = tuple_fold_v(start, elems@);
                lemma_name_cleared_reference_free(folded);
                assert(spec_build(t) == (SchemaV { name, ..folded }));
            }
        },
        TypeShape::Union { variants } => {
            let only_simple = simple_tagging(t.tagging) && all_units(variants@);
            let with_kind = if only_simple {
                SchemaV { data_type: Some(DataType::Text), ..base }
            } else {
                base
            };
            let start = match t.metadata.description {
                Some(d) => SchemaV { description: Some(d@), ..with_kind },
                None => with_kind,
            };
            assert(reference_free(start));
            lemma_variants_fold_reference_free(
                start,
                variants@,
                t.tagging,
                t.rename_all,
                name,
                only_simple,
            );
            let folded = variants_fold_v(
                start,
                variants@,
                t.tagging,
                t.rename_all,
                name,
                only_simple,
            );
            lemma_name_cleared_reference_free(folded);
            assert(spec_build(t) == (SchemaV { name, ..folded }));
        },
    }
}

/// Whether every node of the schema tree is well formed: its required
/// entries are a subset of its property keys.
pub open spec fn wf_schema(sv: SchemaV) -> bool
    decreases sv,
{
    &&& forall|i: int|
        0 <= i < sv.required.len() ==> props_has_key(sv.properties, #[trigger] sv.required[i])
    &&& forall|i: int|
        0 <= i < sv.properties.len() ==> wf_schema((#[trigger] sv.properties[i]).1)
    &&& (sv.items matches Some(b) ==> wf_schema(*b))
    &&& forall|i: int| 0 <= i < sv.any_of.len() ==> wf_schema(#[trigger] sv.any_of[i])
    &&& forall|i: int| 0 <= i < sv.all_of.len() ==> wf_schema(#[trigger] sv.all_of[i])
}

/// Map-style insertion bears the inserted key and keeps every key it had.
proof fn lemma_insert_key_has<T>(ps: Seq<(Seq<char>, T)>, k: Seq<char>, v: T)
    ensures
        forall|k2: Seq<char>|
            #[trigger] props_has_key(insert_key_v(ps, k, v), k2) <==> (props_has_key(ps, k2) || k2
                == k),
{
    lemma_find_key_v(ps, k);
    let i = find_key_v(ps, k);
    let out = insert_key_v(ps, k, v);
    assert forall|k2: Seq<char>|
        #[trigger] props_has_key(out, k2) <==> (props_has_key(ps, k2) || k2 == k) by {
        if props_has_key(out, k2) {
            let w = choose|j: int| 0 <= j < out.len() && out[j].0 == k2;
            if i < 0 {
                if w < ps.len() {
                    assert(out[w] == ps[w]);
                } else {
                    assert(out[w] == (k, v));
                }
            } else {
                if w == i {
                    assert(out[w] == (k, v));
                } else {
                    assert(out[w] == ps[w]);
                }
            }
        }
        if props_has_key(ps, k2) {
            let w = choose|j: int| 0 <= j < ps.len() && ps[j].0 == k2;
            if i < 0 {
                assert(out[w].0 == k2 || out[ps.len() as int].0 == k);
                if w == i {
                } else {
                    assert(out[w] == ps[w]);
                }
                assert(props_has_key(out, k2) || k2 == k);
            } else {
                if w == i {
                    assert(ps[w].0 == k);
                    assert(out[w] == (k, v));
                    assert(props_has_key(out, k2));
                } else {
                    assert(out[w] == ps[w]);
                    assert(props_has_key(out, k2));
                }
            }
        }
        if k2 == k {
            if i < 0 {
                assert(out[ps.len() as int] == (k, v));
            } else {
                assert(out[i] == (k, v));
            }
            assert(props_has_key(out, k2));
        }
    }
}

/// The values of a map-style insertion are the old values and the
/// inserted one.
proof fn lemma_insert_key_values<T>(ps: Seq<(Seq<char>, T)>, k: Seq<char>, v: T, pred: spec_fn(
    T,
) -> bool)
    requires
        forall|i: int| 0 <= i < ps.len() ==> pred(#[trigger] ps[i].1),
        pred(v),
    ensures
        forall|i: int|
            0 <= i < insert_key_v(ps, k, v).len() ==> pred(
                (#[trigger] insert_key_v(ps, k, v)[i]).1,
            ),
{
    lemma_find_key_v(ps, k);
    let i = find_key_v(ps, k);
    let out = insert_key_v(ps, k, v);
    assert forall|j: int| 0 <= j < out.len() implies pred((#[trigger] out[j]).1) by {
        if i < 0 {
            if j < ps.len() {
                assert(out[j] == ps[j]);
            } else {
                assert(out[j] == (k, v));
            }
        } else {
            if j == i {
                assert(out[j] == (k, v));
            } else {
                assert(out[j] == ps[j]);
            }
        }
    }
}

/// The members of a set-style insertion are the old members and the
/// inserted one.
proof fn lemma_insert_str_members(ss: Seq<Seq<char>>, k: Seq<char>)
    ensures
        forall|i: int|
            0 <= i < insert_str_v(ss, k).len() ==> (ss.contains(
                #[trigger] insert_str_v(ss, k)[i],
            ) || insert_str_v(ss, k)[i] == k),
{
    let out = insert_str_v(ss, k);
    assert forall|i: int| 0 <= i < out.len() implies (ss.contains(#[trigger] out[i]) || out[i]
        == k) by {
        if ss.contains(k) {
        } else {
            if i < ss.len() {
                assert(out[i] == ss[i]);
                assert(ss.contains(ss[i]));
            } else {
                assert(out[i] == k);
            }
        }
    }
}

/// Merging annotations in place keeps a schema well formed.
proof fn lemma_md_applied_wf(sv: SchemaV, m: Metadata)
    requires
        wf_schema(sv),
    ensures
        wf_schema(md_applied_v(sv, m)),
{
    let out = md_applied_v(sv, m);
    assert(out.required == sv.required);
    assert(out.properties == sv.properties);
    assert(out.items == sv.items);
    assert(out.any_of == sv.any_of);
    assert(out.all_of == sv.all_of);
}

/// Clearing the name keeps a schema well formed.
proof fn lemma_name_cleared_wf(sv: SchemaV)
    requires
        wf_schema(sv),
    ensures
        wf_schema(SchemaV { name: None, ..sv }),
{
    let out = SchemaV { name: None, ..sv };
    assert(out.required == sv.required);
    assert(out.properties == sv.properties);
    assert(out.items == sv.items);
    assert(out.any_of == sv.any_of);
    assert(out.all_of == sv.all_of);
}

/// Resolving a schema for a use site keeps it well formed: the inline
/// copy inherits well-formedness, and a pointer node has no properties
/// and no required entries at all.
proof fn lemma_resolved_wf(sv: SchemaV, inline: bool)
    requires
        wf_schema(sv),
    ensures
        wf_schema(resolved_v(sv, inline)),
{
    if inline || sv.name is None {
        lemma_name_cleared_wf(sv);
    }
}

/// Laying annotations over a well-formed schema yields a well-formed
/// schema: either the annotations merge in place, or the result is a
/// composition of two well-formed nodes.
proof fn lemma_overlaid_wf(sv: SchemaV, m: Metadata)
    requires
        wf_schema(sv),
    ensures
        wf_schema(overlaid_v(sv, m)),
{
    if !metadata_empty(m) {
        if sv.name is Some {
            let fresh = SchemaV { data_type: sv.data_type, ..empty_schema_v() };
            assert(wf_schema(fresh));
            lemma_md_applied_wf(fresh, m);
            let out = overlaid_v(sv, m);
            assert(out.all_of == seq![sv, md_applied_v(fresh, m)]);
            assert(forall|i: int|
                0 <= i < out.all_of.len() ==> wf_schema(#[trigger] out.all_of[i]));
            assert(out.required.len() == 0);
            assert(out.properties.len() == 0);
            assert(out.any_of.len() == 0);
        } else {
            lemma_md_applied_wf(sv, m);
        }
    }
}

/// Inserting a well-formed property, and its key into the required set
/// when asked, keeps the schema well formed.
proof fn lemma_insert_wf(acc: SchemaV, key: Seq<char>, s: SchemaV, with_required: bool)
    requires
        wf_schema(acc),
        wf_schema(s),
    ensures
        wf_schema(
            SchemaV {
                properties: insert_key_v(acc.properties, key, s),
                required: if with_required {
                    insert_str_v(acc.required, key)
                } else {
                    acc.required
                },
                ..acc
            },
        ),
{
    let props = insert_key_v(acc.properties, key, s);
    let req = if with_required {
        insert_str_v(acc.required, key)
    } else {
        acc.required
    };
    let out = SchemaV { properties: props, required: req, ..acc };
    lemma_insert_key_has(acc.properties, key, s);
    lemma_insert_key_values(acc.properties, key, s, |x: SchemaV| wf_schema(x));
    if with_required {
        lemma_insert_str_members(acc.required, key);
        assert forall|i: int| 0 <= i < req.len() implies props_has_key(
            props,
            #[trigger] req[i],
        ) by {
            if acc.required.contains(req[i]) {
                let w = choose|j: int| 0 <= j < acc.required.len() && acc.required[j] == req[i];
                assert(props_has_key(acc.properties, acc.required[w]));
            }
        }
    } else {
        assert forall|i: int| 0 <= i < req.len() implies props_has_key(
            props,
            #[trigger] req[i],
        ) by {
            assert(props_has_key(acc.properties, acc.required[i]));
        }
    }
}

/// The field fold keeps the schema well formed.
proof fn lemma_fields_fold_wf(acc: SchemaV, fs: Seq<FieldDesc>, rule: Option<RenameRule>)
    requires
        wf_schema(acc),
    ensures
        wf_schema(fields_fold_v(acc, fs, rule)),
    decreases fs, 3nat,
{
    if fs.len() > 0 {
        lemma_fields_fold_wf(acc, fs.drop_last(), rule);
        let prev = fields_fold_v(acc, fs.drop_last(), rule);
        let f = fs.last();
        if !f.skip {
            lemma_build_wf(f.ty);
            lemma_resolved_wf(spec_build(f.ty), f.inline);
            let resolved = resolved_v(spec_build(f.ty), f.inline);
            if f.flatten {
                let out = field_step_v(prev, f, rule);
                assert(out.all_of == seq![prev, resolved]);
                assert(forall|i: int|
                    0 <= i < out.all_of.len() ==> wf_schema(#[trigger] out.all_of[i]));
                assert(out.required.len() == 0);
                assert(out.properties.len() == 0);
                assert(out.any_of.len() == 0);
            } else {
                lemma_overlaid_wf(resolved, f.metadata);
                lemma_insert_wf(
                    prev,
                    field_key_v(f, rule),
                    overlaid_v(resolved, f.metadata),
                    field_required(f),
                );
            }
        }
    }
}

/// The positional fold keeps the schema well formed.
proof fn lemma_tuple_fold_wf(acc: SchemaV, fs: Seq<FieldDesc>)
    requires
        wf_schema(acc),
    ensures
        wf_schema(tuple_fold_v(acc, fs)),
    decreases fs, 3nat,
{
    if fs.len() > 0 {
        lemma_tuple_fold_wf(acc, fs.drop_last());
        let prev = tuple_fold_v(acc, fs.drop_last());
        let f = fs.last();
        let idx = (fs.len() - 1) as nat;
        if !f.skip {
            lemma_build_wf(f.ty);
            lemma_resolved_wf(spec_build(f.ty), f.inline);
            let resolved = resolved_v(spec_build(f.ty), f.inline);
            if f.flatten {
                let out = tuple_step_v(prev, f, idx);
                assert(out.all_of == seq![prev, resolved]);
                assert(forall|i: int|
                    0 <= i < out.all_of.len() ==> wf_schema(#[trigger] out.all_of[i]));
                assert(out.required.len() == 0);
                assert(out.properties.len() == 0);
                assert(out.any_of.len() == 0);
            } else {
                let s = match f.metadata.description {
                    Some(d) => SchemaV { description: Some(d@), ..resolved },
                    None => resolved,
                };
                assert(wf_schema(s)) by {
                    assert(s.required == resolved.required);
                    assert(s.properties == resolved.properties);
                    assert(s.items == resolved.items);
                    assert(s.any_of == resolved.any_of);
                    assert(s.all_of == resolved.all_of);
                }
                lemma_insert_wf(prev, dec_seq(idx), s, field_required(f));
            }
        }
    }
}

/// The variant's own schema is well formed.
proof fn lemma_variant_inner_wf(v: VariantDesc, rule: Option<RenameRule>)
    ensures
        wf_schema(variant_inner_v(v, rule)),
    decreases v, 2nat,
{
    match v.shape {
        VariantShape::Unit => {
            assert(wf_schema(variant_inner_v(v, rule)));
        },
        VariantShape::Named { fields } => {
            let start0 = SchemaV {
                data_type: Some(DataType::Object),
                description: opt_str_v(v.metadata.description),
                ..empty_schema_v()
            };
            assert(wf_schema(start0));
            lemma_md_applied_wf(start0, v.metadata);
            lemma_fields_fold_wf(md_applied_v(start0, v.metadata), fields@, rule);
        },
        VariantShape::Unnamed { elems } => {
            if elems@.len() == 1 {
                let f = elems@[0];
                assert(elems@.last() == f);
                if f.skip {
                    assert(wf_schema(empty_schema_v()));
                    lemma_md_applied_wf(empty_schema_v(), v.metadata);
                } else {
                    lemma_build_wf(f.ty);
                    lemma_resolved_wf(spec_build(f.ty), f.inline);
                    lemma_overlaid_wf(resolved_v(spec_build(f.ty), f.inline), v.metadata);
                }
            } else {
                let start = SchemaV { data_type: Some(DataType::Object), ..empty_schema_v() };
                assert(wf_schema(start));
                lemma_tuple_fold_wf(start, elems@);
            }
        },
    }
}

/// The variant fold keeps the union schema well formed, whatever the
/// tagging strategy.
proof fn lemma_variants_fold_wf(
    acc: SchemaV,
    vs: Seq<VariantDesc>,
    tagging: Tagging,
    rule: Option<RenameRule>,
    ename: Option<Seq<char>>,
    only_simple: bool,
)
    requires
        wf_schema(acc),
    ensures
        wf_schema(variants_fold_v(acc, vs, tagging, rule, ename, only_simple)),
    decreases vs, 3nat,
{
    if vs.len() > 0 {
        lemma_variants_fold_wf(acc, vs.drop_last(), tagging, rule, ename, only_simple);
        let prev = variants_fold_v(acc, vs.drop_last(), tagging, rule, ename, only_simple);
        let v = vs.last();
        let out = variant_step_v(prev, v, tagging, rule, ename, only_simple);
        if !v.skip {
            let key = variant_key_v(v, rule);
            if only_simple {
                assert(out.required == prev.required);
                assert(out.properties == prev.properties);
                assert(out.items == prev.items);
                assert(out.any_of == prev.any_of);
                assert(out.all_of == prev.all_of);
            } else if tagging is Untagged && v.shape is Unit {
                let node = SchemaV {
                    const_: Some(crate::schema::LiteralV::Str(key)),
                    description: opt_str_v(v.metadata.description),
                    ..empty_schema_v()
                };
                assert(wf_schema(node));
                assert(out.any_of == prev.any_of.push(node));
                assert(forall|i: int|
                    0 <= i < out.any_of.len() ==> wf_schema(#[trigger] out.any_of[i]));
            } else {
                lemma_variant_inner_wf(v, rule);
                let inner = variant_inner_v(v, rule);
                let vdn = variant_def_name_v(ename, v);
                let node = match tagging {
                    Tagging::External => SchemaV {
                        data_type: Some(DataType::Object),
                        properties: seq![(key, inner)],
                        required: seq![key],
                        ..empty_schema_v()
                    },
                    Tagging::Untagged => inner,
                    Tagging::Internal { tag } => SchemaV {
                        name: Some(vdn),
                        reference: Some(ref_path_v(vdn)),
                        properties: insert_key_v(
                            inner.properties,
                            tag@,
                            internal_tag_schema_v(key),
                        ),
                        required: insert_str_v(inner.required, tag@),
                        ..inner
                    },
                    Tagging::Adjacent { tag, content } => {
                        let tag_schema = SchemaV {
                            const_: Some(crate::schema::LiteralV::Str(key)),
                            description: opt_str_v(v.metadata.description),
                            ..empty_schema_v()
                        };
                        if v.shape is Unit {
                            SchemaV {
                                data_type: Some(DataType::Object),
                                name: Some(vdn),
                                reference: Some(ref_path_v(vdn)),
                                properties: seq![(tag@, tag_schema)],
                                required: seq![tag@],
                                ..empty_schema_v()
                            }
                        } else {
                            SchemaV {
                                data_type: Some(DataType::Object),
                                name: Some(vdn),
                                reference: Some(ref_path_v(vdn)),
                                properties: insert_key_v(seq![(tag@, tag_schema)], content@, inner),
                                required: insert_str_v(seq![tag@], content@),
                                ..empty_schema_v()
                            }
                        }
                    },
                };
                assert(wf_schema(node)) by {
                    match tagging {
                        Tagging::External => {
                            assert(node.properties == seq![(key, inner)]);
                            assert(node.properties[0].0 == key);
                            assert(props_has_key(node.properties, key));
                            assert(forall|i: int|
                                0 <= i < node.required.len() ==> props_has_key(
                                    node.properties,
                                    #[trigger] node.required[i],
                                ));
                            assert(forall|i: int|
                                0 <= i < node.properties.len() ==> wf_schema(
                                    (#[trigger] node.properties[i]).1,
                                ));
                        },
                        Tagging::Untagged => {},
                        Tagging::Internal { tag } => {
                            assert(wf_schema(internal_tag_schema_v(key)));
                            lemma_insert_wf(inner, tag@, internal_tag_schema_v(key), true);
                            let widened = SchemaV {
                                properties: insert_key_v(
                                    inner.properties,
                                    tag@,
                                    internal_tag_schema_v(key),
                                ),
                                required: insert_str_v(inner.required, tag@),
                                ..inner
                            };
                            assert(wf_schema(widened));
                            assert(node.required == widened.required);
                            assert(node.properties == widened.properties);
                            assert(node.items == widened.items);
                            assert(node.any_of == widened.any_of);
                            assert(node.all_of == widened.all_of);
                        },
                        Tagging::Adjacent { tag, content } => {
                            let tag_schema = SchemaV {
                                const_: Some(crate::schema::LiteralV::Str(key)),
                                description: opt_str_v(v.metadata.description),
                                ..empty_schema_v()
                            };
                            assert(wf_schema(tag_schema));
                            let base = SchemaV {
                                data_type: Some(DataType::Object),
                                name: Some(vdn),
                                reference: Some(ref_path_v(vdn)),
                                properties: seq![(tag@, tag_schema)],
                                required: seq![tag@],
                                ..empty_schema_v()
                            };
                            assert(wf_schema(base)) by {
                                assert(base.properties[0].0 == tag@);
                                assert(props_has_key(base.properties, tag@));
                                assert(forall|i: int|
                                    0 <= i < base.required.len() ==> props_has_key(
                                        base.properties,
                                        #[trigger] base.required[i],
                                    ));
                                assert(forall|i: int|
                                    0 <= i < base.properties.len() ==> wf_schema(
                                        (#[trigger] base.properties[i]).1,
                                    ));
                            }
                            if !(v.shape is Unit) {
                                lemma_insert_wf(base, content@, inner, true);
                                let widened = SchemaV {
                                    properties: insert_key_v(base.properties, content@, inner),
                                    required: insert_str_v(base.required, content@),
                                    ..base
                                };
                                assert(wf_schema(widened));
                                assert(node.required == widened.required);
                                assert(node.properties == widened.properties);
                                assert(node.items == widened.items);
                                assert(node.any_of == widened.any_of);
                                assert(node.all_of == widened.all_of);
                            }
                        },
                    }
                }
                assert(out.any_of == prev.any_of.push(node));
                assert(forall|i: int|
                    0 <= i < out.any_of.len() ==> wf_schema(#[trigger] out.any_of[i]));
                assert(out.required == prev.required);
                assert(out.properties == prev.properties);
                assert(out.items == prev.items);
                assert(out.all_of == prev.all_of);
            }
        }
    }
}

/// Law: every built schema is well formed — at every node of the tree,
/// whatever the descriptor, the required entries are a subset of the
/// property keys.
pub proof fn lemma_build_wf(t: TypeDesc)
    ensures
        wf_schema(spec_build(t)),
    decreases t, 4nat,
{
    let name = canonical_name_v(t);
    let base = SchemaV { name, example: opt_lit_v(t.metadata.example), ..empty_schema_v() };
    assert(wf_schema(base));
    match t.shape {
        TypeShape::Primitive { data_type, format } => {
            assert(wf_schema(spec_build(t)));
        },
        TypeShape::Object { fields } => {
            let start = SchemaV {
                data_type: Some(DataType::Object),
                description: opt_str_v(t.metadata.description),
                ..base
            };
            assert(wf_schema(start));
            lemma_fields_fold_wf(start, fields@, t.rename_all);
            let folded = fields_fold_v(start, fields@, t.rename_all);
            lemma_name_cleared_wf(folded);
            assert(wf_schema(SchemaV { name, ..folded })) by {
                let out = SchemaV { name, ..folded };
                assert(out.required == folded.required);
                assert(out.properties == folded.properties);
                assert(out.items == folded.items);
                assert(out.any_of == folded.any_of);
                assert(out.all_of == folded.all_of);
            }
            assert(spec_build(t) == (SchemaV { name, ..folded }));
        },
        TypeShape::Tuple { elems } => {
            if elems@.len() == 1 {
                let f = elems@[0];
                assert(elems@.last() == f);
                if f.skip {
                    lemma_md_applied_wf(empty_schema_v(), t.metadata);
                    let s = md_applied_v(empty_schema_v(), t.metadata);
                    assert(wf_schema(SchemaV { name, ..s })) by {
                        let out = SchemaV { name, ..s };
                        assert(out.required == s.required);
                        assert(out.properties == s.properties);
                        assert(out.items == s.items);
                        assert(out.any_of == s.any_of);
                        assert(out.all_of == s.all_of);
                    }
                    assert(spec_build(t) == (SchemaV { name, ..s }));
                } else {
                    lemma_build_wf(f.ty);
                    lemma_resolved_wf(spec_build(f.ty), f.inline);
                    lemma_overlaid_wf(resolved_v(spec_build(f.ty), f.inline), t.metadata);
                    let s = overlaid_v(resolved_v(spec_build(f.ty), f.inline), t.metadata);
                    assert(wf_schema(SchemaV { name, ..s })) by {
                        let out = SchemaV { name, ..s };
                        assert(out.required == s.required);
                        assert(out.properties == s.properties);
                        assert(out.items == s.items);
                        assert(out.any_of == s.any_of);
                        assert(out.all_of == s.all_of);
                    }
                    assert(spec_build(t) == (SchemaV { name, ..s }));
                }
            } else {
                let start = SchemaV { data_type: Some(DataType::Object), ..base };
                assert(wf_schema(start));
                lemma_tuple_fold_wf(start, elems@);
                let folded = tuple_fold_v(start, elems@);
                assert(wf_schema(SchemaV { name, ..folded })) by {
                    let out = SchemaV { name, ..folded };
                    assert(out.required == folded.required);
                    assert(out.properties == folded.properties);
                    assert(out.items == folded.items);
                    assert(out.any_of == folded.any_of);
                    assert(out.all_of == folded.all_of);
                }
                assert(spec_build(t) == (SchemaV { name, ..folded }));
            }
        },
        TypeShape::Union { variants } => {
            let only_simple = simple_tagging(t.tagging) && all_units(variants@);
            let with_kind = if only_simple {
                SchemaV { data_type: Some(DataType::Text), ..base }
            } else {
                base
            };
            let start = match t.metadata.description {
                Some(d) => SchemaV { description: Some(d@), ..with_kind },
                None => with_kind,
            };
            assert(wf_schema(start));
            lemma_variants_fold_wf(start, variants@, t.tagging, t.rename_all, name, only_simple);
            let folded = variants_fold_v(
                start,
                variants@,
                t.tagging,
                t.rename_all,
                name,
                only_simple,
            );
            assert(wf_schema(SchemaV { name, ..folded })) by {
                let out = SchemaV { name, ..folded };
                assert(out.required == folded.required);
                assert(out.properties == folded.properties);
                assert(out.items == folded.items);
                assert(out.any_of == folded.any_of);
                assert(out.all_of == folded.all_of);
            }
            assert(spec_build(t) == (SchemaV { name, ..folded }));
        },
    }
}

/// The variant fold never changes the schema's data kind.
proof fn lemma_variants_fold_data_type(
    acc: SchemaV,
    vs: Seq<VariantDesc>,
    tagging: Tagging,
    rule: Option<RenameRule>,
    ename: Option<Seq<char>>,
    only_simple: bool,
)
    ensures
        variants_fold_v(acc, vs, tagging, rule, ename, only_simple).data_type == acc.data_type,
    decreases vs,
{
    broadcast use lemma_variant_step_fields;

    if vs.len() > 0 {
        lemma_variants_fold_data_type(acc, vs.drop_last(), tagging, rule, ename, only_simple);
        let prev = variants_fold_v(acc, vs.drop_last(), tagging, rule, ename, only_simple);
        assert(variants_fold_v(acc, vs, tagging, rule, ename, only_simple) == variant_step_v(
            prev,
            vs.last(),
            tagging,
            rule,
            ename,
            only_simple,
        ));
    } else {
        assert(variants_fold_v(acc, vs, tagging, rule, ename, only_simple) == acc);
    }
}

} // verus!
