//! The abstract syntax tree produced by the parser, and the span-less
//! mathematical values the contracts speak about.

use vstd::prelude::*;
use crate::span::Positioned;
use crate::token::Token;

verus! {

/// A doc-comment line as captured by the lexer.
#[derive(Debug, Clone)]
pub struct CommentLit(pub String);

/// An identifier literal.
#[derive(Debug, Clone)]
pub struct Identifier(pub String);

/// A quoted string literal.
#[derive(Debug)]
pub struct StringLit(pub String);

/// An integer literal.
#[derive(Debug)]
pub struct NumberLit(pub i64);

/// A boolean literal.
#[derive(Debug)]
pub struct BooleanLit(pub bool);

/// A whole source file: its top-level declarations in order.
#[derive(Debug)]
pub struct Program {
    pub body: Vec<ProgramItem>,
}

#[derive(Debug)]
pub enum ProgramItem {
    Meta(MetaDeclaration),
    Model(ModelDeclaration),
    Type(TypeDeclaration),
    Enum(EnumDeclaration),
}

/// `meta key = "value";`
#[derive(Debug)]
pub struct MetaDeclaration {
    pub key: Positioned<Identifier>,
    pub value: Positioned<StringLit>,
}

/// `model Name = id { ... }`
#[derive(Debug)]
pub struct ModelDeclaration {
    pub name: Positioned<Identifier>,
    pub id: Positioned<NumberLit>,
    pub body: Vec<ModelItem>,
    pub meta: Vec<MetaDeclaration>,
    pub comments: Vec<CommentLit>,
}

#[derive(Debug)]
pub enum ModelItem {
    Entity(EntityDeclaration),
    Constructor(ConstructorDeclaration),
    ServerMethod(ServerMethodDeclaration),
    ClientMethod(ClientMethodDeclaration),
}

/// `type Name { ... }`
#[derive(Debug)]
pub struct TypeDeclaration {
    pub name: Positioned<Identifier>,
    pub fields: Vec<FieldDeclaration>,
    pub meta: Vec<MetaDeclaration>,
    pub comments: Vec<CommentLit>,
}

/// `enum Name : repr { ... }`
#[derive(Debug)]
pub struct EnumDeclaration {
    pub name: Positioned<Identifier>,
    pub repr: Positioned<Identifier>,
    pub variants: Vec<VariantDeclaration>,
    pub meta: Vec<MetaDeclaration>,
    pub comments: Vec<CommentLit>,
}

/// `required? entity Name;`
#[derive(Debug)]
pub struct EntityDeclaration {
    pub name: Positioned<Identifier>,
    pub required: Option<Positioned<Token>>,
    pub comments: Vec<CommentLit>,
}

/// `constructor { ... }`
#[derive(Debug)]
pub struct ConstructorDeclaration {
    pub fields: Vec<FieldDeclaration>,
    pub meta: Vec<MetaDeclaration>,
    pub comments: Vec<CommentLit>,
}

/// `server name(params) = id;`
#[derive(Debug)]
pub struct ServerMethodDeclaration {
    pub name: Positioned<Identifier>,
    pub params: Vec<ParamDeclaration>,
    pub id: Positioned<NumberLit>,
    pub comments: Vec<CommentLit>,
}

/// `client name(params) = id;`
#[derive(Debug)]
pub struct ClientMethodDeclaration {
    pub name: Positioned<Identifier>,
    pub params: Vec<ParamDeclaration>,
    pub id: Positioned<NumberLit>,
    pub comments: Vec<CommentLit>,
}

/// `name: Type = position;`
#[derive(Debug)]
pub struct FieldDeclaration {
    pub name: Positioned<Identifier>,
    pub kind: Type,
    pub position: Positioned<NumberLit>,
    pub comments: Vec<CommentLit>,
}

/// `Name = value;`
#[derive(Debug)]
pub struct VariantDeclaration {
    pub name: Positioned<Identifier>,
    pub value: Positioned<NumberLit>,
    pub comments: Vec<CommentLit>,
}

/// `name: Type`
#[derive(Debug)]
pub struct ParamDeclaration {
    pub name: Positioned<Identifier>,
    pub kind: Type,
}

/// A type expression: a bare name, a generic application, or a dotted
/// nested reference; each node carries its own nullable marker.
#[derive(Debug)]
pub enum Type {
    Ident { ty: Positioned<Identifier>, nullable: Option<Positioned<Token>> },
    Generic { ty: Positioned<Identifier>, nullable: Option<Positioned<Token>>, params: Vec<Type> },
    Nested { ty: Box<Type>, inner: Box<Type> },
}

/// The mathematical value of a type expression, without source locations.
pub enum TypeV {
    Ident { name: Seq<char>, nullable: bool },
    Generic { name: Seq<char>, nullable: bool, params: Seq<TypeV> },
    Nested { ty: Box<TypeV>, inner: Box<TypeV> },
}

pub open spec fn type_view(t: Type) -> TypeV
    decreases t,
{
    match t {
        Type::Ident { ty, nullable } => TypeV::Ident {
            name: ty.value.0@,
            nullable: nullable is Some,
        },
        Type::Generic { ty, nullable, params } => TypeV::Generic {
            name: ty.value.0@,
            nullable: nullable is Some,
            params: Seq::new(
                params@.len(),
                |k: int|
                    if 0 <= k < params@.len() {
                        type_view(params@[k])
                    } else {
                        TypeV::Ident { name: Seq::empty(), nullable: false }
                    },
            ),
        },
        Type::Nested { ty, inner } => TypeV::Nested {
            ty: Box::new(type_view(*ty)),
            inner: Box::new(type_view(*inner)),
        },
    }
}

/// The mathematical value of `meta key = "value";`.
pub struct MetaDeclV {
    pub key: Seq<char>,
    pub value: Seq<char>,
}

pub struct FieldDeclV {
    pub name: Seq<char>,
    pub kind: TypeV,
    pub position: int,
    pub comments: Seq<Seq<char>>,
}

pub struct ParamDeclV {
    pub name: Seq<char>,
    pub kind: TypeV,
}

pub struct VariantDeclV {
    pub name: Seq<char>,
    pub value: int,
    pub comments: Seq<Seq<char>>,
}

pub struct EntityDeclV {
    pub name: Seq<char>,
    pub required: bool,
    pub comments: Seq<Seq<char>>,
}

pub struct CtorDeclV {
    pub fields: Seq<FieldDeclV>,
    pub meta: Seq<MetaDeclV>,
    pub comments: Seq<Seq<char>>,
}

/// The mathematical value of a client- or server-method declaration.
pub struct MethodDeclV {
    pub name: Seq<char>,
    pub params: Seq<ParamDeclV>,
    pub id: int,
    pub comments: Seq<Seq<char>>,
}

pub enum ModelItemV {
    Entity(EntityDeclV),
    Constructor(CtorDeclV),
    ServerMethod(MethodDeclV),
    ClientMethod(MethodDeclV),
}

pub struct ModelDeclV {
    pub name: Seq<char>,
    pub id: int,
    pub body: Seq<ModelItemV>,
    pub meta: Seq<MetaDeclV>,
    pub comments: Seq<Seq<char>>,
}

pub struct TypeDeclV {
    pub name: Seq<char>,
    pub fields: Seq<FieldDeclV>,
    pub meta: Seq<MetaDeclV>,
    pub comments: Seq<Seq<char>>,
}

pub struct EnumDeclV {
    pub name: Seq<char>,
    pub repr: Seq<char>,
    pub variants: Seq<VariantDeclV>,
    pub meta: Seq<MetaDeclV>,
    pub comments: Seq<Seq<char>>,
}

pub enum ProgramItemV {
    Meta(MetaDeclV),
    Model(ModelDeclV),
    Type(TypeDeclV),
    Enum(EnumDeclV),
}

pub struct ProgramV {
    pub body: Seq<ProgramItemV>,
}

pub open spec fn comments_view(cs: Seq<CommentLit>) -> Seq<Seq<char>> {
    cs.map_values(|c: CommentLit| c.0@)
}

pub open spec fn meta_view(m: MetaDeclaration) -> MetaDeclV {
    MetaDeclV { key: m.key.value.0@, value: m.value.value.0@ }
}

pub open spec fn metas_view(ms: Seq<MetaDeclaration>) -> Seq<MetaDeclV> {
    ms.map_values(|m: MetaDeclaration| meta_view(m))
}

pub open spec fn field_view(f: FieldDeclaration) -> FieldDeclV {
    FieldDeclV {
        name: f.name.value.0@,
        kind: type_view(f.kind),
        position: f.position.value.0 as int,
        comments: comments_view(f.comments@),
    }
}

pub open spec fn fields_view(fs: Seq<FieldDeclaration>) -> Seq<FieldDeclV> {
    fs.map_values(|f: FieldDeclaration| field_view(f))
}

pub open spec fn param_view(p: ParamDeclaration) -> ParamDeclV {
    ParamDeclV { name: p.name.value.0@, kind: type_view(p.kind) }
}

pub open spec fn params_view(ps: Seq<ParamDeclaration>) -> Seq<ParamDeclV> {
    ps.map_values(|p: ParamDeclaration| param_view(p))
}

pub open spec fn variant_view(v: VariantDeclaration) -> VariantDeclV {
    VariantDeclV {
        name: v.name.value.0@,
        value: v.value.value.0 as int,
        comments: comments_view(v.comments@),
    }
}

pub open spec fn variants_view(vs: Seq<VariantDeclaration>) -> Seq<VariantDeclV> {
    vs.map_values(|v: VariantDeclaration| variant_view(v))
}

pub open spec fn entity_view(e: EntityDeclaration) -> EntityDeclV {
    EntityDeclV {
        name: e.name.value.0@,
        required: e.required is Some,
        comments: comments_view(e.comments@),
    }
}

pub open spec fn ctor_view(c: ConstructorDeclaration) -> CtorDeclV {
    CtorDeclV {
        fields: fields_view(c.fields@),
        meta: metas_view(c.meta@),
        comments: comments_view(c.comments@),
    }
}

pub open spec fn server_method_view(m: ServerMethodDeclaration) -> MethodDeclV {
    MethodDeclV {
        name: m.name.value.0@,
        params: params_view(m.params@),
        id: m.id.value.0 as int,
        comments: comments_view(m.comments@),
    }
}

pub open spec fn client_method_view(m: ClientMethodDeclaration) -> MethodDeclV {
    MethodDeclV {
        name: m.name.value.0@,
        params: params_view(m.params@),
        id: m.id.value.0 as int,
        comments: comments_view(m.comments@),
    }
}

pub open spec fn model_item_view(it: ModelItem) -> ModelItemV {
    match it {
        ModelItem::Entity(e) => ModelItemV::Entity(entity_view(e)),
        ModelItem::Constructor(c) => ModelItemV::Constructor(ctor_view(c)),
        ModelItem::ServerMethod(m) => ModelItemV::ServerMethod(server_method_view(m)),
        ModelItem::ClientMethod(m) => ModelItemV::ClientMethod(client_method_view(m)),
    }
}

pub open spec fn model_items_view(its: Seq<ModelItem>) -> Seq<ModelItemV> {
    its.map_values(|it: ModelItem| model_item_view(it))
}

pub open spec fn model_view(m: ModelDeclaration) -> ModelDeclV {
    ModelDeclV {
        name: m.name.value.0@,
        id: m.id.value.0 as int,
        body: model_items_view(m.body@),
        meta: metas_view(m.meta@),
        comments: comments_view(m.comments@),
    }
}

pub open spec fn type_decl_view(t: TypeDeclaration) -> TypeDeclV {
    TypeDeclV {
        name: t.name.value.0@,
        fields: fields_view(t.fields@),
        meta: metas_view(t.meta@),
        comments: comments_view(t.comments@),
    }
}

pub open spec fn enum_decl_view(e: EnumDeclaration) -> EnumDeclV {
    EnumDeclV {
        name: e.name.value.0@,
        repr: e.repr.value.0@,
        variants: variants_view(e.variants@),
        meta: metas_view(e.meta@),
        comments: comments_view(e.comments@),
    }
}

pub open spec fn program_item_view(it: ProgramItem) -> ProgramItemV {
    match it {
        ProgramItem::Meta(m) => ProgramItemV::Meta(meta_view(m)),
        ProgramItem::Model(m) => ProgramItemV::Model(model_view(m)),
        ProgramItem::Type(t) => ProgramItemV::Type(type_decl_view(t)),
        ProgramItem::Enum(e) => ProgramItemV::Enum(enum_decl_view(e)),
    }
}

/// The list of parsed types, as mathematical values.
pub open spec fn types_view(ts: Seq<Type>) -> Seq<TypeV> {
    ts.map_values(|t: Type| type_view(t))
}

/// The parsed program items, as mathematical values.
pub open spec fn program_items_view(its: Seq<ProgramItem>) -> Seq<ProgramItemV> {
    its.map_values(|it: ProgramItem| program_item_view(it))
}

pub open spec fn program_view(p: Program) -> ProgramV {
    ProgramV { body: program_items_view(p.body@) }
}

} // verus!
