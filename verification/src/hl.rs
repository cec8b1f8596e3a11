//! The canonical semantic model that lowering produces and code emitters
//! consume.

use vstd::prelude::*;
use crate::ast::MetaDeclV;

verus! {

/// A free-form key/value annotation.
#[derive(Debug, Clone)]
pub struct Meta {
    pub key: String,
    pub value: String,
}

/// A field of a payload type or of a model constructor: its rendered type
/// signature, its codec descriptor, and its author-supplied wire position.
#[derive(Debug, Clone)]
pub struct Field {
    pub name: String,
    pub kind: String,
    pub codec: String,
    pub position: usize,
    pub comments: Vec<String>,
}

/// A method parameter: its rendered type signature and codec descriptor.
#[derive(Debug)]
pub struct Param {
    pub name: String,
    pub kind: String,
    pub codec: String,
}

/// The constructor payload of a model.
#[derive(Debug, Clone)]
pub struct ModelConstructor {
    pub fields: Vec<Field>,
    pub meta: Vec<Meta>,
    pub comments: Vec<String>,
}

/// A client-invoked method of a model.
#[derive(Debug)]
pub struct ClientMethod {
    pub name: String,
    pub id: i64,
    pub params: Vec<Param>,
    pub comments: Vec<String>,
}

/// A server-invoked method of a model.
#[derive(Debug)]
pub struct ServerMethod {
    pub name: String,
    pub id: i64,
    pub params: Vec<Param>,
    pub comments: Vec<String>,
}

/// A stateful networked object definition with a 64-bit identity.
#[derive(Debug)]
pub struct Model {
    pub name: String,
    pub id: i64,
    pub constructor: Option<ModelConstructor>,
    pub client_methods: Vec<ClientMethod>,
    pub server_methods: Vec<ServerMethod>,
    pub meta: Vec<Meta>,
    pub comments: Vec<String>,
}

/// A plain structured payload: named fields, no identity, no methods.
#[derive(Debug)]
pub struct Type {
    pub name: String,
    pub fields: Vec<Field>,
    pub meta: Vec<Meta>,
    pub comments: Vec<String>,
}

/// A closed set of named integer-backed variants.
#[derive(Debug)]
pub struct Enum {
    pub name: String,
    pub repr: String,
    pub variants: Vec<Variant>,
    pub meta: Vec<Meta>,
    pub comments: Vec<String>,
}

/// One variant of an enum.
#[derive(Debug)]
pub struct Variant {
    pub name: String,
    pub value: i64,
    pub comments: Vec<String>,
}

// The mathematical values of the semantic model.

pub struct FieldV {
    pub name: Seq<char>,
    pub kind: Seq<char>,
    pub codec: Seq<char>,
    pub position: int,
    pub comments: Seq<Seq<char>>,
}

pub struct ParamV {
    pub name: Seq<char>,
    pub kind: Seq<char>,
    pub codec: Seq<char>,
}

pub struct CtorV {
    pub fields: Seq<FieldV>,
    pub meta: Seq<MetaDeclV>,
    pub comments: Seq<Seq<char>>,
}

/// The mathematical value of a client or server method.
pub struct MethodV {
    pub name: Seq<char>,
    pub id: int,
    pub params: Seq<ParamV>,
    pub comments: Seq<Seq<char>>,
}

pub struct ModelV {
    pub name: Seq<char>,
    pub id: int,
    pub constructor: Option<CtorV>,
    pub client_methods: Seq<MethodV>,
    pub server_methods: Seq<MethodV>,
    pub meta: Seq<MetaDeclV>,
    pub comments: Seq<Seq<char>>,
}

pub struct TypeHlV {
    pub name: Seq<char>,
    pub fields: Seq<FieldV>,
    pub meta: Seq<MetaDeclV>,
    pub comments: Seq<Seq<char>>,
}

pub struct VariantV {
    pub name: Seq<char>,
    pub value: int,
    pub comments: Seq<Seq<char>>,
}

pub struct EnumV {
    pub name: Seq<char>,
    pub repr: Seq<char>,
    pub variants: Seq<VariantV>,
    pub meta: Seq<MetaDeclV>,
    pub comments: Seq<Seq<char>>,
}

pub open spec fn strings_view(ss: Seq<String>) -> Seq<Seq<char>> {
    ss.map_values(|s: String| s@)
}

pub open spec fn hl_meta_view(m: Meta) -> MetaDeclV {
    MetaDeclV { key: m.key@, value: m.value@ }
}

pub open spec fn hl_metas_view(ms: Seq<Meta>) -> Seq<MetaDeclV> {
    ms.map_values(|m: Meta| hl_meta_view(m))
}

pub open spec fn hl_field_view(f: Field) -> FieldV {
    FieldV {
        name: f.name@,
        kind: f.kind@,
        codec: f.codec@,
        position: f.position as int,
        comments: strings_view(f.comments@),
    }
}

pub open spec fn hl_fields_view(fs: Seq<Field>) -> Seq<FieldV> {
    fs.map_values(|f: Field| hl_field_view(f))
}

pub open spec fn hl_param_view(p: Param) -> ParamV {
    ParamV { name: p.name@, kind: p.kind@, codec: p.codec@ }
}

pub open spec fn hl_params_view(ps: Seq<Param>) -> Seq<ParamV> {
    ps.map_values(|p: Param| hl_param_view(p))
}

pub open spec fn hl_ctor_view(c: ModelConstructor) -> CtorV {
    CtorV {
        fields: hl_fields_view(c.fields@),
        meta: hl_metas_view(c.meta@),
        comments: strings_view(c.comments@),
    }
}

pub open spec fn hl_client_method_view(m: ClientMethod) -> MethodV {
    MethodV {
        name: m.name@,
        id: m.id as int,
        params: hl_params_view(m.params@),
        comments: strings_view(m.comments@),
    }
}

pub open spec fn hl_client_methods_view(ms: Seq<ClientMethod>) -> Seq<MethodV> {
    ms.map_values(|m: ClientMethod| hl_client_method_view(m))
}

pub open spec fn hl_server_method_view(m: ServerMethod) -> MethodV {
    MethodV {
        name: m.name@,
        id: m.id as int,
        params: hl_params_view(m.params@),
        comments: strings_view(m.comments@),
    }
}

pub open spec fn hl_server_methods_view(ms: Seq<ServerMethod>) -> Seq<MethodV> {
    ms.map_values(|m: ServerMethod| hl_server_method_view(m))
}

pub open spec fn hl_model_view(m: Model) -> ModelV {
    ModelV {
        name: m.name@,
        id: m.id as int,
        constructor: match m.constructor {
            Some(c) => Some(hl_ctor_view(c)),
            None => None,
        },
        client_methods: hl_client_methods_view(m.client_methods@),
        server_methods: hl_server_methods_view(m.server_methods@),
        meta: hl_metas_view(m.meta@),
        comments: strings_view(m.comments@),
    }
}

pub open spec fn hl_type_view(t: Type) -> TypeHlV {
    TypeHlV {
        name: t.name@,
        fields: hl_fields_view(t.fields@),
        meta: hl_metas_view(t.meta@),
        comments: strings_view(t.comments@),
    }
}

pub open spec fn hl_variant_view(v: Variant) -> VariantV {
    VariantV { name: v.name@, value: v.value as int, comments: strings_view(v.comments@) }
}

pub open spec fn hl_variants_view(vs: Seq<Variant>) -> Seq<VariantV> {
    vs.map_values(|v: Variant| hl_variant_view(v))
}

pub open spec fn hl_enum_view(e: Enum) -> EnumV {
    EnumV {
        name: e.name@,
        repr: e.repr@,
        variants: hl_variants_view(e.variants@),
        meta: hl_metas_view(e.meta@),
        comments: strings_view(e.comments@),
    }
}

} // verus!
