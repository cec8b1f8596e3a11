//! Lowering: from the syntax tree to the semantic model.
//!
//! The two renderers are the heart of this step: `type_to_hl` renders a type
//! expression as its canonical signature, and `type_to_hl_codec` renders it
//! as the codec descriptor that both the forward generation path and the
//! legacy extraction path must agree on byte for byte. Doc comments lose
//! their leading marker and surrounding whitespace here.

use vstd::prelude::*;
use vstd::string::StrSliceExecFns;
use vstd::string::StringExecFns;
use vstd::hash_set::StringHashSet;
use crate::ast::{CommentLit, CtorDeclV, EnumDeclaration, EnumDeclV, FieldDeclaration, FieldDeclV,
    MetaDeclaration, MetaDeclV, MethodDeclV, ModelDeclaration, ModelDeclV, ModelItemV,
    ParamDeclaration, ParamDeclV, TypeDeclaration, TypeDeclV, Type, TypeV, VariantDeclV,
    comments_view, metas_view, model_view, type_decl_view, enum_decl_view, type_view,
    types_view};
use crate::hl;
use crate::hl::{CtorV, EnumV, FieldV, MethodV, ModelV, ParamV, TypeHlV, VariantV,
    hl_client_method_view, hl_client_methods_view, hl_ctor_view, hl_enum_view, hl_field_view,
    hl_fields_view, hl_meta_view, hl_metas_view, hl_model_view, hl_param_view, hl_params_view,
    hl_server_method_view, hl_server_methods_view, hl_type_view, hl_variant_view,
    hl_variants_view, strings_view};
use crate::text::{is_whitespace_char, whitespace_char};
use crate::token::SyntaxError;

verus! {

broadcast use vstd::seq::axiom_seq_index_decreases, vstd::std_specs::vec::axiom_vec_index_decreases;

/// The canonical signature of a type expression: `Name`, `Name?`,
/// `Name<p1, …, pN>?`, or a dotted pair of signatures.
pub open spec fn sig_of(t: TypeV) -> Seq<char>
    decreases t, 0int,
{
    match t {
        TypeV::Ident { name, nullable } => name + if nullable {
            "?"@
        } else {
            Seq::empty()
        },
        TypeV::Generic { name, nullable, params } => name + "<"@ + sig_args(
            params,
            params.len() as int,
        ) + ">"@ + if nullable {
            "?"@
        } else {
            Seq::empty()
        },
        TypeV::Nested { ty, inner } => sig_of(*ty) + "."@ + sig_of(*inner),
    }
}

/// The first `k` generic arguments, rendered and joined with `", "`.
pub open spec fn sig_args(ps: Seq<TypeV>, k: int) -> Seq<char>
    decreases ps, k,
{
    if k <= 0 || k > ps.len() {
        Seq::empty()
    } else if k == 1 {
        sig_of(ps[0])
    } else {
        sig_args(ps, k - 1) + ", "@ + sig_of(ps[k - 1])
    }
}

/// The textual form of a nullability flag inside a codec descriptor.
pub open spec fn bool_lit(b: bool) -> Seq<char> {
    if b {
        "true"@
    } else {
        "false"@
    }
}

/// The type expressions whose codec descriptor is defined: bare and dotted
/// names, `List` of one encodable argument, and `Map` of two. A dotted
/// reference must join two bare names.
pub open spec fn codec_wf(t: TypeV) -> bool
    decreases t,
    via codec_wf_decreases
{
    match t {
        TypeV::Ident { .. } => true,
        TypeV::Generic { name, nullable, params } => {
            ||| (name == "List"@ && params.len() >= 1 && codec_wf(params[0]))
            ||| (name == "Map"@ && params.len() >= 2 && codec_wf(params[0]) && codec_wf(
                params[1],
            ))
        },
        TypeV::Nested { ty, inner } => *ty is Ident && *inner is Ident,
    }
}

#[via_fn]
proof fn codec_wf_decreases(t: TypeV) {
    lemma_generic_params_decrease(t);
}

/// The constituents of a type expression sit below it in the termination
/// order.
proof fn lemma_generic_params_decrease(t: TypeV)
    ensures
        t is Generic ==> (decreases_to!(t => t->Generic_params)),
        t is Nested ==> (decreases_to!(t => *t->Nested_ty)),
        t is Nested ==> (decreases_to!(t => *t->Nested_inner)),
{
    match t {
        TypeV::Generic { name, nullable, params } => {
            assert(decreases_to!(t => params));
            if params.len() >= 1 {
                assert(decreases_to!(params => params[0]));
                assert(decreases_to!(t => params[0]));
            }
            if params.len() >= 2 {
                assert(decreases_to!(params => params[1]));
                assert(decreases_to!(t => params[1]));
            }
        },
        TypeV::Nested { ty, inner } => {
            assert(decreases_to!(t => *ty));
            assert(decreases_to!(t => *inner));
        },
        _ => {},
    }
}

/// The codec-info constructor used for a bare name: enums registered in the
/// project-wide enum-name set get `EnumCodecInfo`, everything else
/// `TypeCodecInfo`.
pub open spec fn codec_info_head(name: Seq<char>, enums: Set<Seq<char>>) -> Seq<char> {
    if enums.contains(name) {
        "EnumCodecInfo("@
    } else {
        "TypeCodecInfo("@
    }
}

/// The codec descriptor of an encodable type expression: the structural
/// string that tells the wire layer how to encode and decode a value, and
/// that the legacy extraction path recognizes.
pub open spec fn codec_of(t: TypeV, enums: Set<Seq<char>>) -> Seq<char>
    decreases t,
    via codec_of_decreases
{
    match t {
        TypeV::Ident { name, nullable } => codec_info_head(name, enums) + name + ","@ + bool_lit(
            nullable,
        ) + ")"@,
        TypeV::Generic { name, nullable, params } => {
            if name == "List"@ && params.len() >= 1 {
                "CollectionCodecInfo("@ + codec_of(params[0], enums) + ","@ + bool_lit(nullable)
                    + ",1)"@
            } else if name == "Map"@ && params.len() >= 2 {
                "MapCodecInfo("@ + codec_of(params[0], enums) + ","@ + codec_of(params[1], enums)
                    + ","@ + bool_lit(nullable) + ")"@
            } else {
                Seq::empty()
            }
        },
        TypeV::Nested { ty, inner } => codec_info_head(inner->Ident_name, enums)
            + ty->Ident_name + "."@ + inner->Ident_name + ","@ + bool_lit(inner->Ident_nullable)
            + ")"@,
    }
}

#[via_fn]
proof fn codec_of_decreases(t: TypeV, enums: Set<Seq<char>>) {
    lemma_generic_params_decrease(t);
}

/// Leading whitespace removed.
pub open spec fn trim_start_of(s: Seq<char>) -> Seq<char>
    decreases s.len(),
{
    if s.len() == 0 {
        s
    } else if is_whitespace_char(s[0]) {
        trim_start_of(s.subrange(1, s.len() as int))
    } else {
        s
    }
}

/// Trailing whitespace removed.
pub open spec fn trim_end_of(s: Seq<char>) -> Seq<char>
    decreases s.len(),
{
    if s.len() == 0 {
        s
    } else if is_whitespace_char(s.last()) {
        trim_end_of(s.drop_last())
    } else {
        s
    }
}

/// Whitespace removed from both ends.
pub open spec fn trim_of(s: Seq<char>) -> Seq<char> {
    trim_end_of(trim_start_of(s))
}

/// A raw doc-comment payload long enough to carry its two-character marker.
pub open spec fn comment_wf(c: Seq<char>) -> bool {
    c.len() >= 2
}

pub open spec fn comments_wf(cs: Seq<Seq<char>>) -> bool {
    forall|k: int| 0 <= k < cs.len() ==> comment_wf(#[trigger] cs[k])
}

/// A doc-comment line as the semantic model keeps it: the two marker
/// characters dropped and the rest trimmed.
pub open spec fn stripped(c: Seq<char>) -> Seq<char> {
    trim_of(c.subrange(2, c.len() as int))
}

pub open spec fn stripped_all(cs: Seq<Seq<char>>) -> Seq<Seq<char>> {
    cs.map_values(|c: Seq<char>| stripped(c))
}

/// A lowered field: rendered signature, codec descriptor, wire position and
/// stripped comments.
pub open spec fn lower_field(f: FieldDeclV, enums: Set<Seq<char>>) -> FieldV {
    FieldV {
        name: f.name,
        kind: sig_of(f.kind),
        codec: codec_of(f.kind, enums),
        position: (f.position as usize) as int,
        comments: stripped_all(f.comments),
    }
}

pub open spec fn field_wf(f: FieldDeclV) -> bool {
    codec_wf(f.kind) && comments_wf(f.comments)
}

pub open spec fn fields_wf(fs: Seq<FieldDeclV>) -> bool {
    forall|k: int| 0 <= k < fs.len() ==> field_wf(#[trigger] fs[k])
}

pub open spec fn lower_fields(fs: Seq<FieldDeclV>, enums: Set<Seq<char>>) -> Seq<FieldV> {
    fs.map_values(|f: FieldDeclV| lower_field(f, enums))
}

pub open spec fn lower_param(p: ParamDeclV, enums: Set<Seq<char>>) -> ParamV {
    ParamV { name: p.name, kind: sig_of(p.kind), codec: codec_of(p.kind, enums) }
}

pub open spec fn params_wf(ps: Seq<ParamDeclV>) -> bool {
    forall|k: int| 0 <= k < ps.len() ==> codec_wf(#[trigger] ps[k].kind)
}

pub open spec fn lower_params(ps: Seq<ParamDeclV>, enums: Set<Seq<char>>) -> Seq<ParamV> {
    ps.map_values(|p: ParamDeclV| lower_param(p, enums))
}

pub open spec fn method_wf(m: MethodDeclV) -> bool {
    params_wf(m.params) && comments_wf(m.comments)
}

pub open spec fn lower_method(m: MethodDeclV, enums: Set<Seq<char>>) -> MethodV {
    MethodV {
        name: m.name,
        id: m.id,
        params: lower_params(m.params, enums),
        comments: stripped_all(m.comments),
    }
}

pub open spec fn ctor_wf(c: CtorDeclV) -> bool {
    fields_wf(c.fields) && comments_wf(c.comments)
}

pub open spec fn lower_ctor(c: CtorDeclV, enums: Set<Seq<char>>) -> CtorV {
    CtorV {
        fields: lower_fields(c.fields, enums),
        meta: c.meta,
        comments: stripped_all(c.comments),
    }
}

/// The first constructor among the first `k` items of a model body.
pub open spec fn first_ctor_upto(body: Seq<ModelItemV>, k: int) -> Option<CtorDeclV>
    decreases k,
{
    if k <= 0 || k > body.len() {
        None
    } else {
        match first_ctor_upto(body, k - 1) {
            Some(c) => Some(c),
            None => match body[k - 1] {
                ModelItemV::Constructor(c) => Some(c),
                _ => None,
            },
        }
    }
}

/// The client methods among the first `k` items of a model body, in order.
pub open spec fn client_methods_upto(body: Seq<ModelItemV>, k: int) -> Seq<MethodDeclV>
    decreases k,
{
    if k <= 0 || k > body.len() {
        Seq::empty()
    } else {
        let rest = client_methods_upto(body, k - 1);
        match body[k - 1] {
            ModelItemV::ClientMethod(m) => rest.push(m),
            _ => rest,
        }
    }
}

/// The server methods among the first `k` items of a model body, in order.
pub open spec fn server_methods_upto(body: Seq<ModelItemV>, k: int) -> Seq<MethodDeclV>
    decreases k,
{
    if k <= 0 || k > body.len() {
        Seq::empty()
    } else {
        let rest = server_methods_upto(body, k - 1);
        match body[k - 1] {
            ModelItemV::ServerMethod(m) => rest.push(m),
            _ => rest,
        }
    }
}

/// A model lowers cleanly when its own comments, its first constructor (the
/// only one the semantic model keeps) and all of its methods do.
pub open spec fn model_wf(m: ModelDeclV) -> bool {
    &&& comments_wf(m.comments)
    &&& match first_ctor_upto(m.body, m.body.len() as int) {
        Some(c) => ctor_wf(c),
        None => true,
    }
    &&& forall|k: int|
        0 <= k < m.body.len() ==> match #[trigger] m.body[k] {
            ModelItemV::ClientMethod(mm) => method_wf(mm),
            ModelItemV::ServerMethod(mm) => method_wf(mm),
            _ => true,
        }
}

/// The semantic model of a model declaration: its first constructor, its
/// client and server methods in declaration order, its annotations and its
/// stripped comments. Entities are not part of the semantic model.
pub open spec fn lower_model(m: ModelDeclV, enums: Set<Seq<char>>) -> ModelV {
    ModelV {
        name: m.name,
        id: m.id,
        constructor: match first_ctor_upto(m.body, m.body.len() as int) {
            Some(c) => Some(lower_ctor(c, enums)),
            None => None,
        },
        client_methods: client_methods_upto(m.body, m.body.len() as int).map_values(
            |mm: MethodDeclV| lower_method(mm, enums),
        ),
        server_methods: server_methods_upto(m.body, m.body.len() as int).map_values(
            |mm: MethodDeclV| lower_method(mm, enums),
        ),
        meta: m.meta,
        comments: stripped_all(m.comments),
    }
}

pub open spec fn type_decl_wf(t: TypeDeclV) -> bool {
    fields_wf(t.fields) && comments_wf(t.comments)
}

pub open spec fn lower_type_decl(t: TypeDeclV, enums: Set<Seq<char>>) -> TypeHlV {
    TypeHlV {
        name: t.name,
        fields: lower_fields(t.fields, enums),
        meta: t.meta,
        comments: stripped_all(t.comments),
    }
}

pub open spec fn enum_wf(e: EnumDeclV) -> bool {
    &&& comments_wf(e.comments)
    &&& forall|k: int| 0 <= k < e.variants.len() ==> comments_wf(#[trigger] e.variants[k].comments)
}

pub open spec fn lower_variant(v: VariantDeclV) -> VariantV {
    VariantV { name: v.name, value: v.value, comments: stripped_all(v.comments) }
}

pub open spec fn lower_enum(e: EnumDeclV) -> EnumV {
    EnumV {
        name: e.name,
        repr: e.repr,
        variants: e.variants.map_values(|v: VariantDeclV| lower_variant(v)),
        meta: e.meta,
        comments: stripped_all(e.comments),
    }
}

// Laws of the signature renderer.

/// A generic type renders as its name, an angle-bracketed `", "`-joined list
/// of its rendered arguments, and its own nullable marker; an empty
/// parameter list renders as `<>`.
pub proof fn lemma_generic_signature(name: Seq<char>, nullable: bool, params: Seq<TypeV>)
    ensures
        sig_of(TypeV::Generic { name, nullable, params }) == name + "<"@ + sig_args(
            params,
            params.len() as int,
        ) + ">"@ + if nullable {
            "?"@
        } else {
            Seq::<char>::empty()
        },
        params.len() == 0 ==> sig_of(TypeV::Generic { name, nullable, params }) == name + "<"@
            + ">"@ + if nullable {
            "?"@
        } else {
            Seq::<char>::empty()
        },
{
    if params.len() == 0 {
        assert(name + "<"@ + Seq::<char>::empty() =~= name + "<"@);
    }
}

/// Each generic argument keeps its own nullable marker: the joined list ends
/// with the last argument's rendering, after the `", "` separator when it is
/// not the only one.
pub proof fn lemma_sig_args_step(ps: Seq<TypeV>, k: int)
    requires
        1 <= k <= ps.len(),
    ensures
        k == 1 ==> sig_args(ps, k) == sig_of(ps[0]),
        k > 1 ==> sig_args(ps, k) == sig_args(ps, k - 1) + ", "@ + sig_of(ps[k - 1]),
{
}

/// A bare name renders as itself, with `?` appended exactly when it is
/// nullable.
pub proof fn lemma_ident_signature(name: Seq<char>, nullable: bool)
    ensures
        sig_of(TypeV::Ident { name, nullable: false }) == name,
        sig_of(TypeV::Ident { name, nullable: true }) == name + "?"@,
{
    assert(name + Seq::<char>::empty() =~= name);
}

// Executable lowering.

/// The rendered generic arguments of a type list agree with the rendered
/// parameters of the type expression that owns them.
proof fn lemma_types_view_index(ts: Seq<Type>, k: int)
    requires
        0 <= k < ts.len(),
    ensures
        types_view(ts)[k] == type_view(ts[k]),
{
}

/// Renders the `", "`-joined signatures of a list of type expressions.
fn sig_params_exec(params: &Vec<Type>) -> (r: String)
    ensures
        r@ == sig_args(types_view(params@), params@.len() as int),
    decreases types_view(params@), 2int,
{
    let ghost pv = types_view(params@);
    let mut s = String::new();
    let mut k: usize = 0;
    while k < params.len()
        invariant
            0 <= k <= params@.len(),
            pv == types_view(params@),
            pv.len() == params@.len(),
            s@ == sig_args(pv, k as int),
        decreases params@.len() - k,
    {
        if k > 0 {
            s.append(", ");
        }
        proof {
            assert(decreases_to!(pv => pv[k as int]));
            lemma_types_view_index(params@, k as int);
        }
        let arg = type_to_hl(&params[k]);
        s.append(arg.as_str());
        proof {
            if k == 0 {
                assert(Seq::<char>::empty() + arg@ =~= sig_args(pv, k as int + 1));
            } else {
                assert(sig_args(pv, k as int) + ", "@ + arg@ =~= sig_args(pv, k as int + 1));
            }
        }
        k += 1;
    }
    s
}

/// Renders the canonical signature of a type expression.
pub fn type_to_hl(kind: &Type) -> (r: String)
    ensures
        r@ == sig_of(type_view(*kind)),
    decreases type_view(*kind), 1int,
{
    match kind {
        Type::Ident { ty, nullable } => {
            let mut s = ty.value.0.clone();
            if nullable.is_some() {
                s.append("?");
            } else {
                proof {
                    assert(ty.value.0@ + Seq::<char>::empty() =~= ty.value.0@);
                }
            }
            s
        },
        Type::Generic { ty, nullable, params } => {
            let ghost tv = type_view(*kind);
            proof {
                lemma_generic_params_decrease(tv);
                assert(types_view(params@) =~= tv->Generic_params);
            }
            let args = sig_params_exec(params);
            let mut s = ty.value.0.clone();
            s.append("<");
            s.append(args.as_str());
            s.append(">");
            if nullable.is_some() {
                s.append("?");
            } else {
                proof {
                    assert(s@ + Seq::<char>::empty() =~= s@);
                }
            }
            proof {
                assert(s@ =~= sig_of(tv));
            }
            s
        },
        Type::Nested { ty, inner } => {
            proof {
                lemma_generic_params_decrease(type_view(*kind));
            }
            let mut s = type_to_hl(&**ty);
            s.append(".");
            let i = type_to_hl(&**inner);
            s.append(i.as_str());
            s
        },
    }
}

/// Renders the codec descriptor of the `k`-th element of a type list.
fn codec_of_param(params: &Vec<Type>, k: usize, enum_types: &StringHashSet) -> (r: Result<
    String,
    SyntaxError,
>)
    requires
        k < params@.len(),
    ensures
        match r {
            Ok(s) => codec_wf(types_view(params@)[k as int]) && s@ == codec_of(
                types_view(params@)[k as int],
                enum_types@,
            ),
            Err(_) => !codec_wf(types_view(params@)[k as int]),
        },
    decreases types_view(params@), 2int,
{
    proof {
        assert(decreases_to!(types_view(params@) => types_view(params@)[k as int]));
        lemma_types_view_index(params@, k as int);
    }
    type_to_hl_codec(&params[k], enum_types)
}

/// Renders the codec descriptor of a type expression, classifying bare names
/// against the project-wide enum-name set; a type outside the encodable
/// fragment is rejected.
pub fn type_to_hl_codec(kind: &Type, enum_types: &StringHashSet) -> (r: Result<
    String,
    SyntaxError,
>)
    ensures
        match r {
            Ok(s) => codec_wf(type_view(*kind)) && s@ == codec_of(type_view(*kind), enum_types@),
            Err(_) => !codec_wf(type_view(*kind)),
        },
    decreases type_view(*kind), 1int,
{
    let ghost tv = type_view(*kind);
    match kind {
        Type::Ident { ty, nullable } => {
            let mut s = String::new();
            if enum_types.contains(ty.value.0.as_str()) {
                s.append("EnumCodecInfo(");
            } else {
                s.append("TypeCodecInfo(");
            }
            s.append(ty.value.0.as_str());
            s.append(",");
            if nullable.is_some() {
                s.append("true");
            } else {
                s.append("false");
            }
            s.append(")");
            proof {
                assert(s@ =~= codec_of(tv, enum_types@));
            }
            Ok(s)
        },
        Type::Generic { ty, nullable, params } => {
            let ghost pv = tv->Generic_params;
            proof {
                lemma_generic_params_decrease(tv);
                assert(types_view(params@) =~= pv);
            }
            proof {
                assert("List"@ != "Map"@) by {
                    reveal_strlit("List");
                    reveal_strlit("Map");
                    assert("List"@.len() == 4);
                    assert("Map"@.len() == 3);
                }
            }
            if crate::text::str_eq(ty.value.0.as_str(), "List") {
                if params.len() < 1 {
                    return Err(SyntaxError::new(String::from_str(
                        "List takes one type argument",
                    )));
                }
                let inner = match codec_of_param(params, 0, enum_types) {
                    Ok(v) => v,
                    Err(e) => {
                        return Err(e);
                    },
                };
                let mut s = String::new();
                s.append("CollectionCodecInfo(");
                s.append(inner.as_str());
                s.append(",");
                if nullable.is_some() {
                    s.append("true");
                } else {
                    s.append("false");
                }
                s.append(",1)");
                proof {
                    assert(s@ =~= codec_of(tv, enum_types@));
                }
                Ok(s)
            } else if crate::text::str_eq(ty.value.0.as_str(), "Map") {
                if params.len() < 2 {
                    return Err(SyntaxError::new(String::from_str(
                        "Map takes two type arguments",
                    )));
                }
                let key = match codec_of_param(params, 0, enum_types) {
                    Ok(v) => v,
                    Err(e) => {
                        return Err(e);
                    },
                };
                let value = match codec_of_param(params, 1, enum_types) {
                    Ok(v) => v,
                    Err(e) => {
                        return Err(e);
                    },
                };
                let mut s = String::new();
                s.append("MapCodecInfo(");
                s.append(key.as_str());
                s.append(",");
                s.append(value.as_str());
                s.append(",");
                if nullable.is_some() {
                    s.append("true");
                } else {
                    s.append("false");
                }
                s.append(")");
                proof {
                    assert(s@ =~= codec_of(tv, enum_types@));
                }
                Ok(s)
            } else {
                Err(SyntaxError::new(String::from_str(
                    "only List and Map generics have a codec",
                )))
            }
        },
        Type::Nested { ty, inner } => {
            proof {
                assert(tv == TypeV::Nested {
                    ty: Box::new(type_view(*(*ty))),
                    inner: Box::new(type_view(*(*inner))),
                });
            }
            let base = match &**ty {
                Type::Ident { ty: base_id, .. } => base_id,
                _ => {
                    proof {
                        assert(!(type_view(*(*ty)) is Ident));
                        assert(!codec_wf(tv));
                    }
                    return Err(SyntaxError::new(String::from_str(
                        "a dotted reference must start with a bare name",
                    )));
                },
            };
            match &**inner {
                Type::Ident { ty: inner_id, nullable } => {
                    let mut s = String::new();
                    if enum_types.contains(inner_id.value.0.as_str()) {
                        s.append("EnumCodecInfo(");
                    } else {
                        s.append("TypeCodecInfo(");
                    }
                    s.append(base.value.0.as_str());
                    s.append(".");
                    s.append(inner_id.value.0.as_str());
                    s.append(",");
                    if nullable.is_some() {
                        s.append("true");
                    } else {
                        s.append("false");
                    }
                    s.append(")");
                    proof {
                        assert(s@ =~= codec_of(tv, enum_types@));
                    }
                    Ok(s)
                },
                _ => Err(SyntaxError::new(String::from_str(
                    "a dotted reference must end with a bare name",
                ))),
            }
        },
    }
}

/// Trims whitespace from both ends of a string.
pub fn trim_string(s: &str) -> (r: String)
    ensures
        r@ == trim_of(s@),
{
    let n = s.unicode_len();
    proof {
        assert(s@.subrange(0, n as int) =~= s@);
    }
    let mut a: usize = 0;
    while a < n && whitespace_char(s.get_char(a))
        invariant
            0 <= a <= n,
            n == s@.len(),
            trim_start_of(s@) == trim_start_of(s@.subrange(a as int, n as int)),
        decreases n - a,
    {
        proof {
            assert(s@.subrange(a as int, n as int).subrange(1, n - a as int) =~= s@.subrange(
                a + 1, n as int));
        }
        a += 1;
    }
    proof {
        if a < n {
            assert(trim_start_of(s@.subrange(a as int, n as int)) == s@.subrange(
                a as int, n as int));
        } else {
            assert(s@.subrange(a as int, n as int) =~= Seq::<char>::empty());
        }
    }
    let mut b: usize = n;
    while b > a && whitespace_char(s.get_char(b - 1))
        invariant
            a <= b <= n,
            n == s@.len(),
            trim_start_of(s@) == trim_start_of(s@.subrange(a as int, n as int)),
            a < n ==> trim_start_of(s@) == s@.subrange(a as int, n as int),
            a >= n ==> trim_start_of(s@) == Seq::<char>::empty(),
            trim_end_of(s@.subrange(a as int, n as int)) == trim_end_of(
                s@.subrange(a as int, b as int),
            ),
        decreases b,
    {
        proof {
            assert(s@.subrange(a as int, b as int).drop_last() =~= s@.subrange(
                a as int, b - 1));
        }
        b -= 1;
    }
    proof {
        if b > a {
            assert(trim_end_of(s@.subrange(a as int, b as int)) == s@.subrange(
                a as int, b as int));
        } else {
            assert(s@.subrange(a as int, b as int) =~= Seq::<char>::empty());
            assert(trim_end_of(Seq::<char>::empty()) =~= Seq::<char>::empty());
        }
        if a >= n {
            assert(trim_of(s@) =~= s@.subrange(a as int, b as int));
        }
    }
    s.substring_char(a, b).to_owned()
}

/// True when every buffered doc comment is long enough to carry its marker.
fn comments_ok(comments: &Vec<CommentLit>) -> (r: bool)
    ensures
        r == comments_wf(comments_view(comments@)),
{
    let mut k: usize = 0;
    while k < comments.len()
        invariant
            0 <= k <= comments@.len(),
            forall|t: int| 0 <= t < k ==> comment_wf(#[trigger] comments_view(comments@)[t]),
        decreases comments@.len() - k,
    {
        if comments[k].0.as_str().unicode_len() < 2 {
            proof {
                assert(!comment_wf(comments_view(comments@)[k as int]));
            }
            return false;
        }
        k += 1;
    }
    true
}

/// Strips each buffered doc comment of its leading marker and surrounding
/// whitespace.
pub fn convert_comments(comments: &Vec<CommentLit>) -> (r: Vec<String>)
    requires
        comments_wf(comments_view(comments@)),
    ensures
        strings_view(r@) == stripped_all(comments_view(comments@)),
{
    let mut out: Vec<String> = Vec::new();
    let mut k: usize = 0;
    while k < comments.len()
        invariant
            0 <= k <= comments@.len(),
            comments_wf(comments_view(comments@)),
            out@.len() == k,
            forall|t: int| 0 <= t < k ==> out@[t]@ == stripped(
                #[trigger] comments_view(comments@)[t],
            ),
        decreases comments@.len() - k,
    {
        let c = &comments[k].0;
        let len = c.as_str().unicode_len();
        proof {
            assert(comment_wf(comments_view(comments@)[k as int]));
        }
        let tail = c.as_str().substring_char(2, len);
        out.push(trim_string(tail));
        k += 1;
    }
    proof {
        assert(strings_view(out@) =~= stripped_all(comments_view(comments@)));
    }
    out
}

/// Turns parsed `meta` annotations into semantic-model annotations.
pub fn convert_meta(meta: &Vec<MetaDeclaration>) -> (r: Vec<hl::Meta>)
    ensures
        hl_metas_view(r@) == metas_view(meta@),
{
    let mut out: Vec<hl::Meta> = Vec::new();
    let mut k: usize = 0;
    while k < meta.len()
        invariant
            0 <= k <= meta@.len(),
            out@.len() == k,
            forall|t: int| 0 <= t < k ==> #[trigger] hl_meta_view(out@[t]) == meta_view_at(
                meta@,
                t,
            ),
        decreases meta@.len() - k,
    {
        let m = &meta[k];
        out.push(hl::Meta { key: m.key.value.0.clone(), value: m.value.value.0.clone() });
        k += 1;
    }
    proof {
        assert(hl_metas_view(out@) =~= metas_view(meta@));
    }
    out
}

/// The annotation value of the `t`-th parsed `meta` line.
pub open spec fn meta_view_at(ms: Seq<MetaDeclaration>, t: int) -> MetaDeclV {
    crate::ast::meta_view(ms[t])
}

/// Lowers a list of field declarations; fails on the first field whose type
/// has no codec or whose comments are malformed.
fn lower_fields_exec(fields: &Vec<FieldDeclaration>, enum_types: &StringHashSet) -> (r: Result<
    Vec<hl::Field>,
    SyntaxError,
>)
    ensures
        match r {
            Ok(out) => fields_wf(crate::ast::fields_view(fields@)) && hl_fields_view(out@)
                == lower_fields(crate::ast::fields_view(fields@), enum_types@),
            Err(_) => !fields_wf(crate::ast::fields_view(fields@)),
        },
{
    let ghost fsv = crate::ast::fields_view(fields@);
    let mut out: Vec<hl::Field> = Vec::new();
    let mut k: usize = 0;
    while k < fields.len()
        invariant
            0 <= k <= fields@.len(),
            fsv == crate::ast::fields_view(fields@),
            fsv.len() == fields@.len(),
            forall|t: int| 0 <= t < fields@.len() ==> #[trigger] fsv[t] == crate::ast::field_view(
                fields@[t],
            ),
            out@.len() == k,
            forall|t: int| 0 <= t < k ==> field_wf(#[trigger] fsv[t]),
            forall|t: int| 0 <= t < k ==> #[trigger] hl_field_view(out@[t]) == lower_field(
                fsv[t],
                enum_types@,
            ),
        decreases fields@.len() - k,
    {
        let f = &fields[k];
        if !comments_ok(&f.comments) {
            proof {
                assert(!field_wf(fsv[k as int]));
            }
            return Err(SyntaxError::new(String::from_str("malformed doc comment")));
        }
        let codec = match type_to_hl_codec(&f.kind, enum_types) {
            Ok(v) => v,
            Err(e) => {
                proof {
                    assert(!field_wf(fsv[k as int]));
                }
                return Err(e);
            },
        };
        let kind = type_to_hl(&f.kind);
        let position = #[verifier::truncate] (f.position.value.0 as usize);
        out.push(
            hl::Field {
                name: f.name.value.0.clone(),
                kind,
                codec,
                position,
                comments: convert_comments(&f.comments),
            },
        );
        k += 1;
    }
    proof {
        assert(hl_fields_view(out@) =~= lower_fields(fsv, enum_types@));
    }
    Ok(out)
}

/// Lowers a list of method parameters; fails on the first parameter whose
/// type has no codec.
fn lower_params_exec(params: &Vec<ParamDeclaration>, enum_types: &StringHashSet) -> (r: Result<
    Vec<hl::Param>,
    SyntaxError,
>)
    ensures
        match r {
            Ok(out) => params_wf(crate::ast::params_view(params@)) && hl_params_view(out@)
                == lower_params(crate::ast::params_view(params@), enum_types@),
            Err(_) => !params_wf(crate::ast::params_view(params@)),
        },
{
    let ghost psv = crate::ast::params_view(params@);
    let mut out: Vec<hl::Param> = Vec::new();
    let mut k: usize = 0;
    while k < params.len()
        invariant
            0 <= k <= params@.len(),
            psv == crate::ast::params_view(params@),
            psv.len() == params@.len(),
            forall|t: int| 0 <= t < params@.len() ==> #[trigger] psv[t] == crate::ast::param_view(
                params@[t],
            ),
            out@.len() == k,
            forall|t: int| 0 <= t < k ==> codec_wf(#[trigger] psv[t].kind),
            forall|t: int| 0 <= t < k ==> #[trigger] hl_param_view(out@[t]) == lower_param(
                psv[t],
                enum_types@,
            ),
        decreases params@.len() - k,
    {
        let p = &params[k];
        let codec = match type_to_hl_codec(&p.kind, enum_types) {
            Ok(v) => v,
            Err(e) => {
                proof {
                    assert(!codec_wf(psv[k as int].kind));
                }
                return Err(e);
            },
        };
        let kind = type_to_hl(&p.kind);
        out.push(hl::Param { name: p.name.value.0.clone(), kind, codec });
        k += 1;
    }
    proof {
        assert(hl_params_view(out@) =~= lower_params(psv, enum_types@));
    }
    Ok(out)
}

/// Once a constructor has appeared among the first `n` items, it stays the
/// first constructor of every longer prefix.
pub proof fn lemma_first_ctor_monotone(body: Seq<ModelItemV>, n: int, m: int)
    requires
        0 <= n <= m <= body.len(),
        first_ctor_upto(body, n) is Some,
    ensures
        first_ctor_upto(body, m) == first_ctor_upto(body, n),
    decreases m - n,
{
    if m > n {
        lemma_first_ctor_monotone(body, n, m - 1);
    }
}

/// Lowers a constructor declaration.
fn lower_ctor_exec(c: &crate::ast::ConstructorDeclaration, enum_types: &StringHashSet) -> (r:
    Result<hl::ModelConstructor, SyntaxError>)
    ensures
        match r {
            Ok(out) => ctor_wf(crate::ast::ctor_view(*c)) && hl_ctor_view(out) == lower_ctor(
                crate::ast::ctor_view(*c),
                enum_types@,
            ),
            Err(_) => !ctor_wf(crate::ast::ctor_view(*c)),
        },
{
    if !comments_ok(&c.comments) {
        return Err(SyntaxError::new(String::from_str("malformed doc comment")));
    }
    let fields = match lower_fields_exec(&c.fields, enum_types) {
        Ok(v) => v,
        Err(e) => {
            return Err(e);
        },
    };
    Ok(hl::ModelConstructor {
        fields,
        meta: convert_meta(&c.meta),
        comments: convert_comments(&c.comments),
    })
}

/// Lowers a client-method declaration.
fn lower_client_method_exec(
    m: &crate::ast::ClientMethodDeclaration,
    enum_types: &StringHashSet,
) -> (r: Result<hl::ClientMethod, SyntaxError>)
    ensures
        match r {
            Ok(out) => method_wf(crate::ast::client_method_view(*m)) && hl_client_method_view(out)
                == lower_method(crate::ast::client_method_view(*m), enum_types@),
            Err(_) => !method_wf(crate::ast::client_method_view(*m)),
        },
{
    if !comments_ok(&m.comments) {
        return Err(SyntaxError::new(String::from_str("malformed doc comment")));
    }
    let params = match lower_params_exec(&m.params, enum_types) {
        Ok(v) => v,
        Err(e) => {
            return Err(e);
        },
    };
    Ok(hl::ClientMethod {
        name: m.name.value.0.clone(),
        id: m.id.value.0,
        params,
        comments: convert_comments(&m.comments),
    })
}

/// Lowers a server-method declaration.
fn lower_server_method_exec(
    m: &crate::ast::ServerMethodDeclaration,
    enum_types: &StringHashSet,
) -> (r: Result<hl::ServerMethod, SyntaxError>)
    ensures
        match r {
            Ok(out) => method_wf(crate::ast::server_method_view(*m)) && hl_server_method_view(out)
                == lower_method(crate::ast::server_method_view(*m), enum_types@),
            Err(_) => !method_wf(crate::ast::server_method_view(*m)),
        },
{
    if !comments_ok(&m.comments) {
        return Err(SyntaxError::new(String::from_str("malformed doc comment")));
    }
    let params = match lower_params_exec(&m.params, enum_types) {
        Ok(v) => v,
        Err(e) => {
            return Err(e);
        },
    };
    Ok(hl::ServerMethod {
        name: m.name.value.0.clone(),
        id: m.id.value.0,
        params,
        comments: convert_comments(&m.comments),
    })
}

/// Lowers a parsed model declaration to its semantic model: the first
/// constructor, the client and server methods in order, the annotations and
/// the stripped comments. Fails exactly when the model is not well formed:
/// a doc comment without its marker, or a field or parameter type outside
/// the encodable fragment.
pub fn model_to_definition(input: &ModelDeclaration, enum_types: &StringHashSet) -> (r: Result<
    hl::Model,
    SyntaxError,
>)
    ensures
        match r {
            Ok(out) => model_wf(model_view(*input)) && hl_model_view(out) == lower_model(
                model_view(*input),
                enum_types@,
            ),
            Err(_) => !model_wf(model_view(*input)),
        },
{
    let ghost mv = model_view(*input);
    if !comments_ok(&input.comments) {
        return Err(SyntaxError::new(String::from_str("malformed doc comment")));
    }
    let mut constructor: Option<hl::ModelConstructor> = None;
    let mut client_methods: Vec<hl::ClientMethod> = Vec::new();
    let mut server_methods: Vec<hl::ServerMethod> = Vec::new();
    let mut k: usize = 0;
    while k < input.body.len()
        invariant
            0 <= k <= input.body@.len(),
            mv == model_view(*input),
            mv.body.len() == input.body@.len(),
            forall|t: int| 0 <= t < input.body@.len() ==> #[trigger] mv.body[t]
                == crate::ast::model_item_view(input.body@[t]),
            match first_ctor_upto(mv.body, k as int) {
                Some(c) => ctor_wf(c) && constructor is Some && hl_ctor_view(constructor->0)
                    == lower_ctor(c, enum_types@),
                None => constructor is None,
            },
            hl_client_methods_view(client_methods@) == client_methods_upto(
                mv.body,
                k as int,
            ).map_values(|mm: MethodDeclV| lower_method(mm, enum_types@)),
            hl_server_methods_view(server_methods@) == server_methods_upto(
                mv.body,
                k as int,
            ).map_values(|mm: MethodDeclV| lower_method(mm, enum_types@)),
            forall|t: int|
                0 <= t < k ==> match #[trigger] mv.body[t] {
                    ModelItemV::ClientMethod(mm) => method_wf(mm),
                    ModelItemV::ServerMethod(mm) => method_wf(mm),
                    _ => true,
                },
        decreases input.body@.len() - k,
    {
        let ghost clients0 = hl_client_methods_view(client_methods@);
        let ghost servers0 = hl_server_methods_view(server_methods@);
        match &input.body[k] {
            crate::ast::ModelItem::Entity(_) => {},
            crate::ast::ModelItem::Constructor(c) => {
                if constructor.is_none() {
                    let lowered = match lower_ctor_exec(c, enum_types) {
                        Ok(v) => v,
                        Err(e) => {
                            proof {
                                assert(mv.body[k as int] == ModelItemV::Constructor(
                                    crate::ast::ctor_view(*c)));
                                assert(first_ctor_upto(mv.body, k + 1) == Some::<CtorDeclV>(
                                    crate::ast::ctor_view(*c)));
                                lemma_first_ctor_monotone(
                                    mv.body,
                                    k + 1,
                                    mv.body.len() as int,
                                );
                                assert(!model_wf(mv));
                            }
                            return Err(e);
                        },
                    };
                    constructor = Some(lowered);
                }
            },
            crate::ast::ModelItem::ClientMethod(m) => {
                let lowered = match lower_client_method_exec(m, enum_types) {
                    Ok(v) => v,
                    Err(e) => {
                        proof {
                            assert(mv.body[k as int] == ModelItemV::ClientMethod(
                                crate::ast::client_method_view(*m)));
                            assert(!model_wf(mv));
                        }
                        return Err(e);
                    },
                };
                client_methods.push(lowered);
                proof {
                    assert(hl_client_methods_view(client_methods@) =~= clients0.push(
                        hl_client_method_view(client_methods@.last())));
                    assert(client_methods_upto(mv.body, k + 1).map_values(
                        |mm: MethodDeclV| lower_method(mm, enum_types@)) =~= client_methods_upto(
                        mv.body,
                        k as int,
                    ).map_values(|mm: MethodDeclV| lower_method(mm, enum_types@)).push(
                        lower_method(mv.body[k as int]->ClientMethod_0, enum_types@)));
                }
            },
            crate::ast::ModelItem::ServerMethod(m) => {
                let lowered = match lower_server_method_exec(m, enum_types) {
                    Ok(v) => v,
                    Err(e) => {
                        proof {
                            assert(mv.body[k as int] == ModelItemV::ServerMethod(
                                crate::ast::server_method_view(*m)));
                            assert(!model_wf(mv));
                        }
                        return Err(e);
                    },
                };
                server_methods.push(lowered);
                proof {
                    assert(hl_server_methods_view(server_methods@) =~= servers0.push(
                        hl_server_method_view(server_methods@.last())));
                    assert(server_methods_upto(mv.body, k + 1).map_values(
                        |mm: MethodDeclV| lower_method(mm, enum_types@)) =~= server_methods_upto(
                        mv.body,
                        k as int,
                    ).map_values(|mm: MethodDeclV| lower_method(mm, enum_types@)).push(
                        lower_method(mv.body[k as int]->ServerMethod_0, enum_types@)));
                }
            },
        }
        k += 1;
    }
    proof {
        assert(comments_wf(mv.comments));
        assert(match first_ctor_upto(mv.body, mv.body.len() as int) {
            Some(c) => ctor_wf(c),
            None => true,
        });
        assert forall|t: int|
            0 <= t < mv.body.len() implies match #[trigger] mv.body[t] {
            ModelItemV::ClientMethod(mm) => method_wf(mm),
            ModelItemV::ServerMethod(mm) => method_wf(mm),
            _ => true,
        } by {
            assert(0 <= t < k);
        }
        assert(model_wf(mv));
        assert(hl_client_methods_view(client_methods@) =~= lower_model(
            mv,
            enum_types@,
        ).client_methods);
        assert(hl_server_methods_view(server_methods@) =~= lower_model(
            mv,
            enum_types@,
        ).server_methods);
    }
    let out = hl::Model {
        name: input.name.value.0.clone(),
        id: input.id.value.0,
        constructor,
        client_methods,
        server_methods,
        meta: convert_meta(&input.meta),
        comments: convert_comments(&input.comments),
    };
    Ok(out)
}

/// Lowers a parsed payload-type declaration to its semantic model. Fails
/// exactly when a doc comment lacks its marker or a field type is outside
/// the encodable fragment.
pub fn type_to_definition(input: &TypeDeclaration, enum_types: &StringHashSet) -> (r: Result<
    hl::Type,
    SyntaxError,
>)
    ensures
        match r {
            Ok(out) => type_decl_wf(type_decl_view(*input)) && hl_type_view(out)
                == lower_type_decl(type_decl_view(*input), enum_types@),
            Err(_) => !type_decl_wf(type_decl_view(*input)),
        },
{
    if !comments_ok(&input.comments) {
        return Err(SyntaxError::new(String::from_str("malformed doc comment")));
    }
    let fields = match lower_fields_exec(&input.fields, enum_types) {
        Ok(v) => v,
        Err(e) => {
            return Err(e);
        },
    };
    Ok(hl::Type {
        name: input.name.value.0.clone(),
        fields,
        meta: convert_meta(&input.meta),
        comments: convert_comments(&input.comments),
    })
}

/// Lowers a parsed enum declaration to its semantic model. Fails exactly
/// when a doc comment lacks its marker.
pub fn enum_to_definition(input: &EnumDeclaration) -> (r: Result<hl::Enum, SyntaxError>)
    ensures
        match r {
            Ok(out) => enum_wf(enum_decl_view(*input)) && hl_enum_view(out) == lower_enum(
                enum_decl_view(*input),
            ),
            Err(_) => !enum_wf(enum_decl_view(*input)),
        },
{
    let ghost ev = enum_decl_view(*input);
    if !comments_ok(&input.comments) {
        return Err(SyntaxError::new(String::from_str("malformed doc comment")));
    }
    let mut variants: Vec<hl::Variant> = Vec::new();
    let mut k: usize = 0;
    while k < input.variants.len()
        invariant
            0 <= k <= input.variants@.len(),
            ev == enum_decl_view(*input),
            ev.variants.len() == input.variants@.len(),
            forall|t: int| 0 <= t < input.variants@.len() ==> #[trigger] ev.variants[t]
                == crate::ast::variant_view(input.variants@[t]),
            variants@.len() == k,
            forall|t: int| 0 <= t < k ==> comments_wf(#[trigger] ev.variants[t].comments),
            forall|t: int| 0 <= t < k ==> #[trigger] hl_variant_view(variants@[t])
                == lower_variant(ev.variants[t]),
        decreases input.variants@.len() - k,
    {
        let v = &input.variants[k];
        if !comments_ok(&v.comments) {
            proof {
                assert(!comments_wf(ev.variants[k as int].comments));
            }
            return Err(SyntaxError::new(String::from_str("malformed doc comment")));
        }
        variants.push(hl::Variant {
            name: v.name.value.0.clone(),
            value: v.value.value.0,
            comments: convert_comments(&v.comments),
        });
        k += 1;
    }
    proof {
        assert(hl_variants_view(variants@) =~= ev.variants.map_values(
            |v: VariantDeclV| lower_variant(v)));
    }
    Ok(hl::Enum {
        name: input.name.value.0.clone(),
        repr: input.repr.value.0.clone(),
        variants,
        meta: convert_meta(&input.meta),
        comments: convert_comments(&input.comments),
    })
}

} // verus!
