//! The recursive-descent parser: from positioned tokens to the syntax tree.
//!
//! Every function is proved to return exactly what the corresponding
//! production of [`crate::grammar`] yields on the token values, and to fail
//! exactly where the grammar fails. The error messages name the unexpected
//! token and the expected category.

use vstd::prelude::*;
use vstd::string::StringExecFns;
use crate::span::Positioned;
use crate::token::{Comment, Delimiter, SyntaxError, Token};
use crate::ast::{CommentLit, ConstructorDeclaration, EntityDeclaration, EnumDeclaration,
    FieldDeclaration, Identifier, MetaDeclaration, ModelDeclaration, ModelItem, NumberLit,
    program_items_view,
    ParamDeclaration, Program, ProgramItem, ServerMethodDeclaration, ClientMethodDeclaration,
    StringLit, Type, TypeDeclaration, VariantDeclaration, comments_view, ctor_view,
    entity_view, enum_decl_view, field_view, fields_view, meta_view, metas_view, model_view,
    model_item_view, model_items_view, param_view, params_view, program_item_view, program_view,
    server_method_view, client_method_view, type_decl_view, type_view, variant_view,
    variants_view, types_view, TypeV, MethodDeclV, ModelItemV, ProgramItemV};
use crate::grammar::{advance, spec_parse_constructor, spec_parse_entity, spec_parse_enum,
    spec_parse_enum_body, spec_parse_field, spec_parse_fields_body, spec_parse_generic_params,
    spec_parse_meta, spec_parse_method, spec_parse_model, spec_parse_model_body,
    spec_parse_param, spec_parse_param_list, spec_parse_program, spec_parse_program_items,
    spec_parse_type2, spec_parse_type_decl, spec_parse_type_list, spec_parse_variant,
    token_values};

verus! {

broadcast use crate::grammar::lemma_token_values_index;

/// The nullable marker of a partially parsed type.
pub open spec fn opt_present<T>(o: Option<T>) -> bool {
    o is Some
}

pub open spec fn opt_ident_view(o: Option<Positioned<Identifier>>) -> Option<Seq<char>> {
    match o {
        Some(p) => Some(p.value.0@),
        None => None,
    }
}

pub open spec fn opt_types_view(o: Option<Vec<Type>>) -> Option<Seq<TypeV>> {
    match o {
        Some(v) => Some(types_view(v@)),
        None => None,
    }
}

pub open spec fn opt_type_view(o: Option<Type>) -> Option<TypeV> {
    match o {
        Some(t) => Some(type_view(t)),
        None => None,
    }
}

/// A short name for a token, used in diagnostics.
fn token_desc(t: &Token) -> &'static str {
    match t {
        Token::Meta => "Meta",
        Token::Model => "Model",
        Token::Type => "Type",
        Token::Enum => "Enum",
        Token::Entity => "Entity",
        Token::Constructor => "Constructor",
        Token::Server => "Server",
        Token::Client => "Client",
        Token::Required => "Required",
        Token::Optional => "Optional",
        Token::Ident(_) => "Ident",
        Token::Number(_) => "Number",
        Token::Delimiter(Delimiter::BraceOpen) => "BraceOpen",
        Token::Delimiter(Delimiter::BraceClose) => "BraceClose",
        Token::Delimiter(Delimiter::ParenOpen) => "ParenOpen",
        Token::Delimiter(Delimiter::ParenClose) => "ParenClose",
        Token::Eq => "Eq",
        Token::Colon => "Colon",
        Token::Semi => "Semi",
        Token::Comma => "Comma",
        Token::Gt => "Gt",
        Token::Lt => "Lt",
        Token::Question => "Question",
        Token::Dot => "Dot",
        Token::String(_) => "String",
        Token::Comment(_) => "Comment",
        Token::EOF => "EOF",
    }
}

/// A syntax error naming the unexpected token (or the end of input) and the
/// expected category.
fn unexpected(tokens: &Vec<Positioned<Token>>, pos: usize, expected: &str) -> SyntaxError {
    let mut m = String::new();
    if pos < tokens.len() {
        m.append("unrecognized token ");
        m.append(token_desc(&tokens[pos].value));
    } else {
        m.append("unexpected eof");
    }
    m.append(", expected ");
    m.append(expected);
    SyntaxError::new(m)
}

/// Copies a doc-comment buffer so a declaration can own its comments.
fn clone_comments(src: &Vec<CommentLit>) -> (r: Vec<CommentLit>)
    ensures
        comments_view(r@) == comments_view(src@),
{
    let mut out: Vec<CommentLit> = Vec::new();
    let mut k: usize = 0;
    while k < src.len()
        invariant
            0 <= k <= src@.len(),
            out@.len() == k,
            forall|t: int| 0 <= t < k ==> out@[t].0@ == src@[t].0@,
        decreases src@.len() - k,
    {
        out.push(CommentLit(src[k].0.clone()));
        k += 1;
    }
    proof {
        assert(comments_view(out@) =~= comments_view(src@));
    }
    out
}

/// Parses `meta <ident> = <string> ;`.
pub fn parse_meta(tokens: &Vec<Positioned<Token>>, pos: usize) -> (r: Result<
    (MetaDeclaration, usize),
    SyntaxError,
>)
    ensures
        match r {
            Ok((m, j)) => {
                &&& spec_parse_meta(token_values(tokens@), pos as int) == Ok::<_, ()>(
                    (meta_view(m), j as int),
                )
                &&& pos < j <= tokens@.len()
            },
            Err(_) => spec_parse_meta(token_values(tokens@), pos as int) is Err,
        },
{
    let n = tokens.len();
    if pos >= n {
        return Err(unexpected(tokens, pos, "Meta"));
    }
    match &tokens[pos].value {
        Token::Meta => {},
        _ => {
            return Err(unexpected(tokens, pos, "Meta"));
        },
    }
    if pos + 1 >= n {
        return Err(unexpected(tokens, pos + 1, "Ident"));
    }
    let t1 = &tokens[pos + 1];
    let key = match &t1.value {
        Token::Ident(v) => t1.span.wrap(Identifier(v.clone())),
        _ => {
            return Err(unexpected(tokens, pos + 1, "Ident"));
        },
    };
    if pos + 2 >= n {
        return Err(unexpected(tokens, pos + 2, "Eq"));
    }
    match &tokens[pos + 2].value {
        Token::Eq => {},
        _ => {
            return Err(unexpected(tokens, pos + 2, "Eq"));
        },
    }
    if pos + 3 >= n {
        return Err(unexpected(tokens, pos + 3, "String"));
    }
    let t3 = &tokens[pos + 3];
    let value = match &t3.value {
        Token::String(v) => t3.span.wrap(StringLit(v.clone())),
        _ => {
            return Err(unexpected(tokens, pos + 3, "String"));
        },
    };
    if pos + 4 >= n {
        return Err(unexpected(tokens, pos + 4, "Semi"));
    }
    match &tokens[pos + 4].value {
        Token::Semi => {},
        _ => {
            return Err(unexpected(tokens, pos + 4, "Semi"));
        },
    }
    Ok((MetaDeclaration { key, value }, pos + 5))
}

/// Parses `required? entity <ident> ;`.
pub fn parse_entity(tokens: &Vec<Positioned<Token>>, pos: usize, comments: &Vec<CommentLit>) -> (r:
    Result<(EntityDeclaration, usize), SyntaxError>)
    ensures
        match r {
            Ok((e, j)) => {
                &&& spec_parse_entity(
                    token_values(tokens@),
                    pos as int,
                    comments_view(comments@),
                ) == Ok::<_, ()>((entity_view(e), j as int))
                &&& pos < j <= tokens@.len()
            },
            Err(_) => spec_parse_entity(
                token_values(tokens@),
                pos as int,
                comments_view(comments@),
            ) is Err,
        },
{
    let n = tokens.len();
    if pos >= n {
        return Err(unexpected(tokens, pos, "Required or Entity"));
    }
    let required: Option<Positioned<Token>> = match &tokens[pos].value {
        Token::Required => Some(Positioned::new(Token::Required, tokens[pos].span)),
        Token::Entity => None,
        _ => {
            return Err(unexpected(tokens, pos, "Required or Entity"));
        },
    };
    let j: usize = if required.is_some() {
        if pos + 1 >= n {
            return Err(unexpected(tokens, pos + 1, "Entity"));
        }
        match &tokens[pos + 1].value {
            Token::Entity => {},
            _ => {
                return Err(unexpected(tokens, pos + 1, "Entity"));
            },
        }
        pos + 2
    } else {
        pos + 1
    };
    if j >= n {
        return Err(unexpected(tokens, j, "Ident"));
    }
    let tj = &tokens[j];
    let name = match &tj.value {
        Token::Ident(v) => tj.span.wrap(Identifier(v.clone())),
        _ => {
            return Err(unexpected(tokens, j, "Ident"));
        },
    };
    if j + 1 >= n {
        return Err(unexpected(tokens, j + 1, "Semi"));
    }
    match &tokens[j + 1].value {
        Token::Semi => {},
        _ => {
            return Err(unexpected(tokens, j + 1, "Semi"));
        },
    }
    Ok((EntityDeclaration { name, required, comments: clone_comments(comments) }, j + 2))
}

/// Parses `<ident> = <number> ;`.
pub fn parse_variant(tokens: &Vec<Positioned<Token>>, pos: usize, comments: &Vec<CommentLit>) -> (r:
    Result<(VariantDeclaration, usize), SyntaxError>)
    ensures
        match r {
            Ok((v, j)) => {
                &&& spec_parse_variant(
                    token_values(tokens@),
                    pos as int,
                    comments_view(comments@),
                ) == Ok::<_, ()>((variant_view(v), j as int))
                &&& pos < j <= tokens@.len()
            },
            Err(_) => spec_parse_variant(
                token_values(tokens@),
                pos as int,
                comments_view(comments@),
            ) is Err,
        },
{
    let n = tokens.len();
    if pos >= n {
        return Err(unexpected(tokens, pos, "Ident"));
    }
    let t0 = &tokens[pos];
    let name = match &t0.value {
        Token::Ident(v) => t0.span.wrap(Identifier(v.clone())),
        _ => {
            return Err(unexpected(tokens, pos, "Ident"));
        },
    };
    if pos + 1 >= n {
        return Err(unexpected(tokens, pos + 1, "Eq"));
    }
    match &tokens[pos + 1].value {
        Token::Eq => {},
        _ => {
            return Err(unexpected(tokens, pos + 1, "Eq"));
        },
    }
    if pos + 2 >= n {
        return Err(unexpected(tokens, pos + 2, "Number"));
    }
    let t2 = &tokens[pos + 2];
    let value = match &t2.value {
        Token::Number(v) => t2.span.wrap(NumberLit(*v)),
        _ => {
            return Err(unexpected(tokens, pos + 2, "Number"));
        },
    };
    if pos + 3 >= n {
        return Err(unexpected(tokens, pos + 3, "Semi"));
    }
    match &tokens[pos + 3].value {
        Token::Semi => {},
        _ => {
            return Err(unexpected(tokens, pos + 3, "Semi"));
        },
    }
    Ok((VariantDeclaration { name, value, comments: clone_comments(comments) }, pos + 4))
}

/// Parses a type expression from a partially seen node; `pos` must be within
/// the token stream.
#[verifier::rlimit(100)]
fn parse_type_2_state(
    tokens: &Vec<Positioned<Token>>,
    pos: usize,
    nullable: Option<Positioned<Token>>,
    ident: Option<Positioned<Identifier>>,
    generic: Option<Vec<Type>>,
    nested: Option<Type>,
) -> (r: Result<(Type, usize), SyntaxError>)
    requires
        pos <= tokens@.len(),
    ensures
        match r {
            Ok((t, j)) => {
                &&& spec_parse_type2(
                    token_values(tokens@),
                    pos as int,
                    opt_present(nullable),
                    opt_ident_view(ident),
                    opt_types_view(generic),
                    opt_type_view(nested),
                ) == Ok::<_, ()>((type_view(t), j as int))
                &&& pos <= j <= tokens@.len()
                &&& (ident is None ==> pos < j)
            },
            Err(_) => spec_parse_type2(
                token_values(tokens@),
                pos as int,
                opt_present(nullable),
                opt_ident_view(ident),
                opt_types_view(generic),
                opt_type_view(nested),
            ) is Err,
        },
    decreases tokens@.len() - pos, 2int,
{
    let ghost tvs = token_values(tokens@);
    let ghost gnul = opt_present(nullable);
    let ghost gid = opt_ident_view(ident);
    let ghost ggen = opt_types_view(generic);
    let ghost gnest = opt_type_view(nested);
    let n = tokens.len();
    if pos >= n {
        return Err(unexpected(tokens, pos, "Question, Ident, or Lt"));
    }
    let t0 = &tokens[pos];
    proof {
        assert(tvs[pos as int] == tokens@[pos as int].value@);
    }
    match &t0.value {
        Token::Question => {
            if nullable.is_some() {
                proof {
                    assert(spec_parse_type2(tvs, pos as int, gnul, gid, ggen, gnest) is Err);
                }
                return Err(unexpected(tokens, pos, "no second nullable marker"));
            }
            let marker = Some(Positioned::new(Token::Question, t0.span));
            let r = parse_type_2_state(tokens, pos + 1, marker, ident, generic, nested);
            proof {
                assert(spec_parse_type2(tvs, pos as int, gnul, gid, ggen, gnest)
                    == spec_parse_type2(tvs, pos as int + 1, true, gid, ggen, gnest));
            }
            r
        },
        Token::Ident(name) => {
            if ident.is_some() {
                proof {
                    assert(spec_parse_type2(tvs, pos as int, gnul, gid, ggen, gnest) is Err);
                }
                return Err(unexpected(tokens, pos, "no second identifier"));
            }
            let ghost namev = name@;
            let id = Some(t0.span.wrap(Identifier(name.clone())));
            let r = parse_type_2_state(tokens, pos + 1, nullable, id, generic, nested);
            proof {
                assert(spec_parse_type2(tvs, pos as int, gnul, gid, ggen, gnest)
                    == spec_parse_type2(tvs, pos as int + 1, gnul, Some(namev), ggen, gnest));
            }
            r
        },
        Token::Dot => {
            if nested.is_some() || ident.is_none() {
                proof {
                    assert(spec_parse_type2(tvs, pos as int, gnul, gid, ggen, gnest) is Err);
                }
                return Err(unexpected(tokens, pos, "nested type constituents"));
            }
            match parse_type_2_state(tokens, pos + 1, None, None, None, None) {
                Err(e) => {
                    proof {
                        assert(spec_parse_type2(tvs, pos as int, gnul, gid, ggen, gnest) is Err);
                    }
                    Err(e)
                },
                Ok((inner, j)) => {
                    let ghost innerv = type_view(inner);
                    let r = parse_type_2_state(tokens, j, nullable, ident, generic, Some(inner));
                    proof {
                        assert(advance(j as int, pos + 1, tvs.len() as int) == j as int);
                        assert(spec_parse_type2(tvs, pos as int, gnul, gid, ggen, gnest)
                            == spec_parse_type2(tvs, j as int, gnul, gid, ggen, Some(innerv)));
                    }
                    r
                },
            }
        },
        Token::Lt => {
            if generic.is_some() || ident.is_none() {
                proof {
                    assert(spec_parse_type2(tvs, pos as int, gnul, gid, ggen, gnest) is Err);
                }
                return Err(unexpected(tokens, pos, "generic type constituents"));
            }
            match parse_type_2_generic_params(tokens, pos) {
                Err(e) => {
                    proof {
                        assert(spec_parse_type2(tvs, pos as int, gnul, gid, ggen, gnest) is Err);
                    }
                    Err(e)
                },
                Ok((params, j)) => {
                    let ghost paramsv = types_view(params@);
                    let r = parse_type_2_state(tokens, j, nullable, ident, Some(params), nested);
                    proof {
                        assert(advance(j as int, pos + 1, tvs.len() as int) == j as int);
                        assert(spec_parse_type2(tvs, pos as int, gnul, gid, ggen, gnest)
                            == spec_parse_type2(tvs, j as int, gnul, gid, Some(paramsv), gnest));
                    }
                    r
                },
            }
        },
        _ => {
            let base: Option<Type> = match generic {
                Some(params) => match ident {
                    Some(id) => {
                        let t = Type::Generic { ty: id, nullable, params };
                        proof {
                            assert(type_view(t)->Generic_params =~= ggen->0);
                            assert(type_view(t) == TypeV::Generic {
                                name: gid->0,
                                nullable: gnul,
                                params: ggen->0,
                            });
                        }
                        Some(t)
                    },
                    None => None,
                },
                None => match ident {
                    Some(id) => Some(Type::Ident { ty: id, nullable }),
                    None => None,
                },
            };
            match nested {
                Some(inner) => match base {
                    Some(b) => {
                        let ghost bv = type_view(b);
                        let ghost innerv = type_view(inner);
                        let t = Type::Nested { ty: Box::new(b), inner: Box::new(inner) };
                        proof {
                            assert(spec_parse_type2(tvs, pos as int, gnul, gid, ggen, Some(innerv))
                                == Ok::<_, ()>((
                                TypeV::Nested { ty: Box::new(bv), inner: Box::new(innerv) },
                                pos as int,
                            )));
                            assert(type_view(t) == (TypeV::Nested {
                                ty: Box::new(bv),
                                inner: Box::new(innerv),
                            }));
                        }
                        Ok((t, pos))
                    },
                    None => {
                        proof {
                            assert(spec_parse_type2(tvs, pos as int, gnul, gid, ggen, gnest)
                                is Err);
                        }
                        Err(unexpected(tokens, pos, "type identifier"))
                    },
                },
                None => match base {
                    Some(b) => {
                        proof {
                            assert(spec_parse_type2(tvs, pos as int, gnul, gid, ggen, gnest)
                                == Ok::<_, ()>((type_view(b), pos as int)));
                        }
                        Ok((b, pos))
                    },
                    None => {
                        proof {
                            assert(spec_parse_type2(tvs, pos as int, gnul, gid, ggen, gnest)
                                is Err);
                        }
                        Err(unexpected(tokens, pos, "Question, Ident, or Lt"))
                    },
                },
            }
        },
    }
}


/// Parses a type expression; the first token that belongs to no type
/// constituent ends it and is not consumed.
pub fn parse_type_2(tokens: &Vec<Positioned<Token>>, pos: usize) -> (r: Result<
    (Type, usize),
    SyntaxError,
>)
    ensures
        match r {
            Ok((t, j)) => {
                &&& spec_parse_type2(
                    token_values(tokens@),
                    pos as int,
                    false,
                    None,
                    None,
                    None,
                ) == Ok::<_, ()>((type_view(t), j as int))
                &&& pos <= j <= tokens@.len()
            },
            Err(_) => spec_parse_type2(
                token_values(tokens@),
                pos as int,
                false,
                None,
                None,
                None,
            ) is Err,
        },
{
    if pos >= tokens.len() {
        return Err(unexpected(tokens, pos, "Question, Ident, or Lt"));
    }
    parse_type_2_state(tokens, pos, None, None, None, None)
}

/// Parses the comma-separated types before the closing `>`.
fn parse_type_list(tokens: &Vec<Positioned<Token>>, pos: usize, acc: Vec<Type>) -> (r: Result<
    (Vec<Type>, usize),
    SyntaxError,
>)
    requires
        pos <= tokens@.len(),
    ensures
        match r {
            Ok((ps, j)) => {
                &&& spec_parse_type_list(token_values(tokens@), pos as int, types_view(acc@))
                    == Ok::<_, ()>((types_view(ps@), j as int))
                &&& pos < j <= tokens@.len()
            },
            Err(_) => spec_parse_type_list(
                token_values(tokens@),
                pos as int,
                types_view(acc@),
            ) is Err,
        },
    decreases tokens@.len() - pos, 3int,
{
    let n = tokens.len();
    if pos >= n {
        return Err(unexpected(tokens, pos, "Ident or Gt"));
    }
    match &tokens[pos].value {
        Token::Ident(_) => {
            match parse_type_2_state(tokens, pos, None, None, None, None) {
                Err(e) => Err(e),
                Ok((ty, j)) => {
                    let ghost acc0 = types_view(acc@);
                    let mut acc = acc;
                    if j < n {
                        let is_comma = match &tokens[j].value {
                            Token::Comma => true,
                            _ => false,
                        };
                        let is_gt = match &tokens[j].value {
                            Token::Gt => true,
                            _ => false,
                        };
                        if is_comma {
                            if j + 1 < n {
                                match &tokens[j + 1].value {
                                    Token::Gt => {
                                        return Err(unexpected(tokens, j + 1, "a type"));
                                    },
                                    _ => {},
                                }
                            }
                            acc.push(ty);
                            proof {
                                assert(types_view(acc@) =~= acc0.push(
                                    spec_parse_type2(
                                        token_values(tokens@),
                                        pos as int,
                                        false,
                                        None,
                                        None,
                                        None,
                                    )->Ok_0.0));
                            }
                            parse_type_list(tokens, j + 1, acc)
                        } else if is_gt {
                            acc.push(ty);
                            proof {
                                assert(types_view(acc@) =~= acc0.push(
                                    spec_parse_type2(
                                        token_values(tokens@),
                                        pos as int,
                                        false,
                                        None,
                                        None,
                                        None,
                                    )->Ok_0.0));
                            }
                            Ok((acc, j + 1))
                        } else {
                            Err(unexpected(tokens, j, "Comma or Gt"))
                        }
                    } else {
                        Err(unexpected(tokens, j, "Comma or Gt"))
                    }
                },
            }
        },
        Token::Gt => Ok((acc, pos + 1)),
        _ => Err(unexpected(tokens, pos, "Ident or Gt")),
    }
}

/// Parses `< Type (, Type)* >`, the possibly empty parameter list of a
/// generic type.
pub fn parse_type_2_generic_params(tokens: &Vec<Positioned<Token>>, pos: usize) -> (r: Result<
    (Vec<Type>, usize),
    SyntaxError,
>)
    ensures
        match r {
            Ok((ps, j)) => {
                &&& spec_parse_generic_params(token_values(tokens@), pos as int) == Ok::<_, ()>(
                    (types_view(ps@), j as int),
                )
                &&& pos < j <= tokens@.len()
            },
            Err(_) => spec_parse_generic_params(token_values(tokens@), pos as int) is Err,
        },
    decreases tokens@.len() - pos, 1int,
{
    let n = tokens.len();
    if pos >= n {
        return Err(unexpected(tokens, pos, "Lt"));
    }
    match &tokens[pos].value {
        Token::Lt => {},
        _ => {
            return Err(unexpected(tokens, pos, "Lt"));
        },
    }
    let empty: Vec<Type> = Vec::new();
    proof {
        assert(types_view(empty@) =~= Seq::<TypeV>::empty());
    }
    parse_type_list(tokens, pos + 1, empty)
}


/// Parses `<ident> : Type = <number> ;`.
pub fn parse_field(tokens: &Vec<Positioned<Token>>, pos: usize, comments: &Vec<CommentLit>) -> (r:
    Result<(FieldDeclaration, usize), SyntaxError>)
    ensures
        match r {
            Ok((f, j)) => {
                &&& spec_parse_field(
                    token_values(tokens@),
                    pos as int,
                    comments_view(comments@),
                ) == Ok::<_, ()>((field_view(f), j as int))
                &&& pos < j <= tokens@.len()
            },
            Err(_) => spec_parse_field(
                token_values(tokens@),
                pos as int,
                comments_view(comments@),
            ) is Err,
        },
{
    let n = tokens.len();
    if pos >= n {
        return Err(unexpected(tokens, pos, "Ident"));
    }
    let t0 = &tokens[pos];
    let name = match &t0.value {
        Token::Ident(v) => t0.span.wrap(Identifier(v.clone())),
        _ => {
            return Err(unexpected(tokens, pos, "Ident"));
        },
    };
    if pos + 1 >= n {
        return Err(unexpected(tokens, pos + 1, "Colon"));
    }
    match &tokens[pos + 1].value {
        Token::Colon => {},
        _ => {
            return Err(unexpected(tokens, pos + 1, "Colon"));
        },
    }
    let (kind, j) = match parse_type_2_state(tokens, pos + 2, None, None, None, None) {
        Ok(v) => v,
        Err(e) => {
            return Err(e);
        },
    };
    if j >= n {
        return Err(unexpected(tokens, j, "Eq"));
    }
    match &tokens[j].value {
        Token::Eq => {},
        _ => {
            return Err(unexpected(tokens, j, "Eq"));
        },
    }
    if j + 1 >= n {
        return Err(unexpected(tokens, j + 1, "Number"));
    }
    let t3 = &tokens[j + 1];
    let position = match &t3.value {
        Token::Number(v) => t3.span.wrap(NumberLit(*v)),
        _ => {
            return Err(unexpected(tokens, j + 1, "Number"));
        },
    };
    if j + 2 >= n {
        return Err(unexpected(tokens, j + 2, "Semi"));
    }
    match &tokens[j + 2].value {
        Token::Semi => {},
        _ => {
            return Err(unexpected(tokens, j + 2, "Semi"));
        },
    }
    Ok((FieldDeclaration { name, kind, position, comments: clone_comments(comments) }, j + 3))
}

/// Parses `<ident> : Type`.
pub fn parse_param(tokens: &Vec<Positioned<Token>>, pos: usize) -> (r: Result<
    (ParamDeclaration, usize),
    SyntaxError,
>)
    ensures
        match r {
            Ok((p, j)) => {
                &&& spec_parse_param(token_values(tokens@), pos as int) == Ok::<_, ()>(
                    (param_view(p), j as int),
                )
                &&& pos < j <= tokens@.len()
            },
            Err(_) => spec_parse_param(token_values(tokens@), pos as int) is Err,
        },
{
    let n = tokens.len();
    if pos >= n {
        return Err(unexpected(tokens, pos, "Ident"));
    }
    let t0 = &tokens[pos];
    let name = match &t0.value {
        Token::Ident(v) => t0.span.wrap(Identifier(v.clone())),
        _ => {
            return Err(unexpected(tokens, pos, "Ident"));
        },
    };
    if pos + 1 >= n {
        return Err(unexpected(tokens, pos + 1, "Colon"));
    }
    match &tokens[pos + 1].value {
        Token::Colon => {},
        _ => {
            return Err(unexpected(tokens, pos + 1, "Colon"));
        },
    }
    let (kind, j) = match parse_type_2_state(tokens, pos + 2, None, None, None, None) {
        Ok(v) => v,
        Err(e) => {
            return Err(e);
        },
    };
    Ok((ParamDeclaration { name, kind }, j))
}

/// Parses the comma-separated parameters before the closing `)`.
fn parse_param_list(tokens: &Vec<Positioned<Token>>, pos: usize, acc: Vec<ParamDeclaration>) -> (r:
    Result<(Vec<ParamDeclaration>, usize), SyntaxError>)
    requires
        pos <= tokens@.len(),
    ensures
        match r {
            Ok((ps, j)) => {
                &&& spec_parse_param_list(token_values(tokens@), pos as int, params_view(acc@))
                    == Ok::<_, ()>((params_view(ps@), j as int))
                &&& pos <= j <= tokens@.len()
            },
            Err(_) => spec_parse_param_list(
                token_values(tokens@),
                pos as int,
                params_view(acc@),
            ) is Err,
        },
    decreases tokens@.len() - pos,
{
    let n = tokens.len();
    if pos >= n {
        return Err(unexpected(tokens, pos, "Ident or ParenClose"));
    }
    let is_ident = match &tokens[pos].value {
        Token::Ident(_) => true,
        _ => false,
    };
    let is_close = match &tokens[pos].value {
        Token::Delimiter(Delimiter::ParenClose) => true,
        _ => false,
    };
    if is_close {
        return Ok((acc, pos));
    }
    if !is_ident {
        return Err(unexpected(tokens, pos, "Ident or ParenClose"));
    }
    let (p, j) = match parse_param(tokens, pos) {
        Ok(v) => v,
        Err(e) => {
            return Err(e);
        },
    };
    let ghost acc0 = params_view(acc@);
    let ghost pv = param_view(p);
    let mut acc = acc;
    if j < n {
        let is_comma = match &tokens[j].value {
            Token::Comma => true,
            _ => false,
        };
        let is_pclose = match &tokens[j].value {
            Token::Delimiter(Delimiter::ParenClose) => true,
            _ => false,
        };
        if is_comma {
            if j + 1 < n {
                match &tokens[j + 1].value {
                    Token::Delimiter(Delimiter::ParenClose) => {
                        return Err(unexpected(tokens, j + 1, "a parameter"));
                    },
                    _ => {},
                }
            }
            acc.push(p);
            proof {
                assert(params_view(acc@) =~= acc0.push(pv));
            }
            parse_param_list(tokens, j + 1, acc)
        } else if is_pclose {
            acc.push(p);
            proof {
                assert(params_view(acc@) =~= acc0.push(pv));
            }
            parse_param_list(tokens, j, acc)
        } else {
            Err(unexpected(tokens, j, "Comma or ParenClose"))
        }
    } else {
        Err(unexpected(tokens, j, "Comma or ParenClose"))
    }
}

/// Parses the common shape of a method declaration after its keyword:
/// `<ident> ( params? ) = <number> ;`.
fn parse_method_parts(
    tokens: &Vec<Positioned<Token>>,
    pos: usize,
    server: bool,
) -> (r: Result<
    (Positioned<Identifier>, Vec<ParamDeclaration>, Positioned<NumberLit>, usize),
    SyntaxError,
>)
    ensures
        match r {
            Ok((name, params, id, j)) => {
                &&& forall|cs: Seq<Seq<char>>|
                    spec_parse_method(token_values(tokens@), pos as int, cs, server)
                        == Ok::<_, ()>(
                        (
                            MethodDeclV {
                                name: name.value.0@,
                                params: params_view(params@),
                                id: id.value.0 as int,
                                comments: cs,
                            },
                            j as int,
                        ),
                    )
                &&& pos < j <= tokens@.len()
            },
            Err(_) => forall|cs: Seq<Seq<char>>|
                spec_parse_method(token_values(tokens@), pos as int, cs, server) is Err,
        },
{
    let n = tokens.len();
    if pos >= n {
        return Err(unexpected(tokens, pos, "Server or Client"));
    }
    let kw_ok = match &tokens[pos].value {
        Token::Server => server,
        Token::Client => !server,
        _ => false,
    };
    if !kw_ok {
        return Err(unexpected(tokens, pos, "Server or Client"));
    }
    if pos + 1 >= n {
        return Err(unexpected(tokens, pos + 1, "Ident"));
    }
    let t1 = &tokens[pos + 1];
    let name = match &t1.value {
        Token::Ident(v) => t1.span.wrap(Identifier(v.clone())),
        _ => {
            return Err(unexpected(tokens, pos + 1, "Ident"));
        },
    };
    if pos + 2 >= n {
        return Err(unexpected(tokens, pos + 2, "ParenOpen"));
    }
    match &tokens[pos + 2].value {
        Token::Delimiter(Delimiter::ParenOpen) => {},
        _ => {
            return Err(unexpected(tokens, pos + 2, "ParenOpen"));
        },
    }
    let empty_params: Vec<ParamDeclaration> = Vec::new();
    proof {
        assert(params_view(empty_params@) =~= Seq::<crate::ast::ParamDeclV>::empty());
    }
    let (params, j) = match parse_param_list(tokens, pos + 3, empty_params) {
        Ok(v) => v,
        Err(e) => {
            return Err(e);
        },
    };
    if j >= n {
        return Err(unexpected(tokens, j, "ParenClose"));
    }
    match &tokens[j].value {
        Token::Delimiter(Delimiter::ParenClose) => {},
        _ => {
            return Err(unexpected(tokens, j, "ParenClose"));
        },
    }
    if j + 1 >= n {
        return Err(unexpected(tokens, j + 1, "Eq"));
    }
    match &tokens[j + 1].value {
        Token::Eq => {},
        _ => {
            return Err(unexpected(tokens, j + 1, "Eq"));
        },
    }
    if j + 2 >= n {
        return Err(unexpected(tokens, j + 2, "Number"));
    }
    let t5 = &tokens[j + 2];
    let id = match &t5.value {
        Token::Number(v) => t5.span.wrap(NumberLit(*v)),
        _ => {
            return Err(unexpected(tokens, j + 2, "Number"));
        },
    };
    if j + 3 >= n {
        return Err(unexpected(tokens, j + 3, "Semi"));
    }
    match &tokens[j + 3].value {
        Token::Semi => {},
        _ => {
            return Err(unexpected(tokens, j + 3, "Semi"));
        },
    }
    Ok((name, params, id, j + 4))
}

/// Parses `server <ident> ( params? ) = <number> ;`.
pub fn parse_server_method(
    tokens: &Vec<Positioned<Token>>,
    pos: usize,
    comments: &Vec<CommentLit>,
) -> (r: Result<(ServerMethodDeclaration, usize), SyntaxError>)
    ensures
        match r {
            Ok((m, j)) => {
                &&& spec_parse_method(
                    token_values(tokens@),
                    pos as int,
                    comments_view(comments@),
                    true,
                ) == Ok::<_, ()>((server_method_view(m), j as int))
                &&& pos < j <= tokens@.len()
            },
            Err(_) => spec_parse_method(
                token_values(tokens@),
                pos as int,
                comments_view(comments@),
                true,
            ) is Err,
        },
{
    match parse_method_parts(tokens, pos, true) {
        Ok((name, params, id, j)) => Ok(
            (
                ServerMethodDeclaration { name, params, id, comments: clone_comments(comments) },
                j,
            ),
        ),
        Err(e) => Err(e),
    }
}

/// Parses `client <ident> ( params? ) = <number> ;`.
pub fn parse_client_method(
    tokens: &Vec<Positioned<Token>>,
    pos: usize,
    comments: &Vec<CommentLit>,
) -> (r: Result<(ClientMethodDeclaration, usize), SyntaxError>)
    ensures
        match r {
            Ok((m, j)) => {
                &&& spec_parse_method(
                    token_values(tokens@),
                    pos as int,
                    comments_view(comments@),
                    false,
                ) == Ok::<_, ()>((client_method_view(m), j as int))
                &&& pos < j <= tokens@.len()
            },
            Err(_) => spec_parse_method(
                token_values(tokens@),
                pos as int,
                comments_view(comments@),
                false,
            ) is Err,
        },
{
    match parse_method_parts(tokens, pos, false) {
        Ok((name, params, id, j)) => Ok(
            (
                ClientMethodDeclaration { name, params, id, comments: clone_comments(comments) },
                j,
            ),
        ),
        Err(e) => Err(e),
    }
}

/// Parses the items of a `constructor` or `type` body: `meta` lines, fields,
/// and doc comments that attach to the next field.
fn parse_fields_body(
    tokens: &Vec<Positioned<Token>>,
    pos: usize,
    fields: Vec<FieldDeclaration>,
    meta: Vec<MetaDeclaration>,
    comments: Vec<CommentLit>,
) -> (r: Result<(Vec<FieldDeclaration>, Vec<MetaDeclaration>, usize), SyntaxError>)
    requires
        pos <= tokens@.len(),
    ensures
        match r {
            Ok((fs, ms, j)) => {
                &&& spec_parse_fields_body(
                    token_values(tokens@),
                    pos as int,
                    fields_view(fields@),
                    metas_view(meta@),
                    comments_view(comments@),
                ) == Ok::<_, ()>((fields_view(fs@), metas_view(ms@), j as int))
                &&& pos <= j <= tokens@.len()
            },
            Err(_) => spec_parse_fields_body(
                token_values(tokens@),
                pos as int,
                fields_view(fields@),
                metas_view(meta@),
                comments_view(comments@),
            ) is Err,
        },
    decreases tokens@.len() - pos,
{
    let n = tokens.len();
    if pos >= n {
        return Err(unexpected(tokens, pos, "BraceClose"));
    }
    let ghost fields0 = fields_view(fields@);
    let ghost meta0 = metas_view(meta@);
    let ghost comments0 = comments_view(comments@);
    match &tokens[pos].value {
        Token::Comment(Comment::LineDoc(text)) => {
            let mut comments = comments;
            comments.push(CommentLit(text.clone()));
            proof {
                assert(comments_view(comments@) =~= comments0.push(text@));
            }
            parse_fields_body(tokens, pos + 1, fields, meta, comments)
        },
        Token::Meta => {
            let (m, j) = match parse_meta(tokens, pos) {
                Ok(v) => v,
                Err(e) => {
                    return Err(e);
                },
            };
            let ghost mv = meta_view(m);
            let mut meta = meta;
            meta.push(m);
            proof {
                assert(metas_view(meta@) =~= meta0.push(mv));
                assert(comments_view(Seq::<CommentLit>::empty()) =~= Seq::<Seq<char>>::empty());
            }
            parse_fields_body(tokens, j, fields, meta, Vec::new())
        },
        Token::Ident(_) => {
            let (f, j) = match parse_field(tokens, pos, &comments) {
                Ok(v) => v,
                Err(e) => {
                    return Err(e);
                },
            };
            let ghost fv = field_view(f);
            let mut fields = fields;
            fields.push(f);
            proof {
                assert(fields_view(fields@) =~= fields0.push(fv));
                assert(comments_view(Seq::<CommentLit>::empty()) =~= Seq::<Seq<char>>::empty());
            }
            parse_fields_body(tokens, j, fields, meta, Vec::new())
        },
        Token::Delimiter(Delimiter::BraceClose) => Ok((fields, meta, pos)),
        _ => Err(unexpected(tokens, pos, "Meta, Ident, Comment or BraceClose")),
    }
}

/// Parses `constructor { ... }`.
pub fn parse_constructor(
    tokens: &Vec<Positioned<Token>>,
    pos: usize,
    comments: &Vec<CommentLit>,
) -> (r: Result<(ConstructorDeclaration, usize), SyntaxError>)
    ensures
        match r {
            Ok((c, j)) => {
                &&& spec_parse_constructor(
                    token_values(tokens@),
                    pos as int,
                    comments_view(comments@),
                ) == Ok::<_, ()>((ctor_view(c), j as int))
                &&& pos < j <= tokens@.len()
            },
            Err(_) => spec_parse_constructor(
                token_values(tokens@),
                pos as int,
                comments_view(comments@),
            ) is Err,
        },
{
    let n = tokens.len();
    if pos >= n {
        return Err(unexpected(tokens, pos, "Constructor"));
    }
    match &tokens[pos].value {
        Token::Constructor => {},
        _ => {
            return Err(unexpected(tokens, pos, "Constructor"));
        },
    }
    if pos + 1 >= n {
        return Err(unexpected(tokens, pos + 1, "BraceOpen"));
    }
    match &tokens[pos + 1].value {
        Token::Delimiter(Delimiter::BraceOpen) => {},
        _ => {
            return Err(unexpected(tokens, pos + 1, "BraceOpen"));
        },
    }
    proof {
        assert(fields_view(Seq::<FieldDeclaration>::empty())
            =~= Seq::<crate::ast::FieldDeclV>::empty());
        assert(metas_view(Seq::<MetaDeclaration>::empty())
            =~= Seq::<crate::ast::MetaDeclV>::empty());
        assert(comments_view(Seq::<CommentLit>::empty()) =~= Seq::<Seq<char>>::empty());
    }
    let (fields, meta, j) = match parse_fields_body(tokens, pos + 2, Vec::new(), Vec::new(),
        Vec::new()) {
        Ok(v) => v,
        Err(e) => {
            return Err(e);
        },
    };
    if j >= n {
        return Err(unexpected(tokens, j, "BraceClose"));
    }
    match &tokens[j].value {
        Token::Delimiter(Delimiter::BraceClose) => {},
        _ => {
            return Err(unexpected(tokens, j, "BraceClose"));
        },
    }
    Ok((ConstructorDeclaration { fields, meta, comments: clone_comments(comments) }, j + 1))
}

/// Parses `type <ident> { ... }`.
pub fn parse_type(tokens: &Vec<Positioned<Token>>, pos: usize, comments: &Vec<CommentLit>) -> (r:
    Result<(TypeDeclaration, usize), SyntaxError>)
    ensures
        match r {
            Ok((t, j)) => {
                &&& spec_parse_type_decl(
                    token_values(tokens@),
                    pos as int,
                    comments_view(comments@),
                ) == Ok::<_, ()>((type_decl_view(t), j as int))
                &&& pos < j <= tokens@.len()
            },
            Err(_) => spec_parse_type_decl(
                token_values(tokens@),
                pos as int,
                comments_view(comments@),
            ) is Err,
        },
{
    let n = tokens.len();
    if pos >= n {
        return Err(unexpected(tokens, pos, "Type"));
    }
    match &tokens[pos].value {
        Token::Type => {},
        _ => {
            return Err(unexpected(tokens, pos, "Type"));
        },
    }
    if pos + 1 >= n {
        return Err(unexpected(tokens, pos + 1, "Ident"));
    }
    let t1 = &tokens[pos + 1];
    let name = match &t1.value {
        Token::Ident(v) => t1.span.wrap(Identifier(v.clone())),
        _ => {
            return Err(unexpected(tokens, pos + 1, "Ident"));
        },
    };
    if pos + 2 >= n {
        return Err(unexpected(tokens, pos + 2, "BraceOpen"));
    }
    match &tokens[pos + 2].value {
        Token::Delimiter(Delimiter::BraceOpen) => {},
        _ => {
            return Err(unexpected(tokens, pos + 2, "BraceOpen"));
        },
    }
    proof {
        assert(fields_view(Seq::<FieldDeclaration>::empty())
            =~= Seq::<crate::ast::FieldDeclV>::empty());
        assert(metas_view(Seq::<MetaDeclaration>::empty())
            =~= Seq::<crate::ast::MetaDeclV>::empty());
        assert(comments_view(Seq::<CommentLit>::empty()) =~= Seq::<Seq<char>>::empty());
    }
    let (fields, meta, j) = match parse_fields_body(tokens, pos + 3, Vec::new(), Vec::new(),
        Vec::new()) {
        Ok(v) => v,
        Err(e) => {
            return Err(e);
        },
    };
    if j >= n {
        return Err(unexpected(tokens, j, "BraceClose"));
    }
    match &tokens[j].value {
        Token::Delimiter(Delimiter::BraceClose) => {},
        _ => {
            return Err(unexpected(tokens, j, "BraceClose"));
        },
    }
    Ok((TypeDeclaration { name, fields, meta, comments: clone_comments(comments) }, j + 1))
}

/// Parses the variants of an `enum` body, with their doc comments.
fn parse_enum_body(
    tokens: &Vec<Positioned<Token>>,
    pos: usize,
    variants: Vec<VariantDeclaration>,
    meta: Vec<MetaDeclaration>,
    comments: Vec<CommentLit>,
) -> (r: Result<(Vec<VariantDeclaration>, Vec<MetaDeclaration>, usize), SyntaxError>)
    requires
        pos <= tokens@.len(),
    ensures
        match r {
            Ok((vs, ms, j)) => {
                &&& spec_parse_enum_body(
                    token_values(tokens@),
                    pos as int,
                    variants_view(variants@),
                    metas_view(meta@),
                    comments_view(comments@),
                ) == Ok::<_, ()>((variants_view(vs@), metas_view(ms@), j as int))
                &&& pos <= j <= tokens@.len()
            },
            Err(_) => spec_parse_enum_body(
                token_values(tokens@),
                pos as int,
                variants_view(variants@),
                metas_view(meta@),
                comments_view(comments@),
            ) is Err,
        },
    decreases tokens@.len() - pos,
{
    let n = tokens.len();
    if pos >= n {
        return Err(unexpected(tokens, pos, "BraceClose"));
    }
    let ghost variants0 = variants_view(variants@);
    let ghost meta0 = metas_view(meta@);
    let ghost comments0 = comments_view(comments@);
    match &tokens[pos].value {
        Token::Comment(Comment::LineDoc(text)) => {
            let mut comments = comments;
            comments.push(CommentLit(text.clone()));
            proof {
                assert(comments_view(comments@) =~= comments0.push(text@));
            }
            parse_enum_body(tokens, pos + 1, variants, meta, comments)
        },
        Token::Meta => {
            let (m, j) = match parse_meta(tokens, pos) {
                Ok(v) => v,
                Err(e) => {
                    return Err(e);
                },
            };
            let ghost mv = meta_view(m);
            let mut meta = meta;
            meta.push(m);
            proof {
                assert(metas_view(meta@) =~= meta0.push(mv));
                assert(comments_view(Seq::<CommentLit>::empty()) =~= Seq::<Seq<char>>::empty());
            }
            parse_enum_body(tokens, j, variants, meta, Vec::new())
        },
        Token::Ident(_) => {
            let (v, j) = match parse_variant(tokens, pos, &comments) {
                Ok(v) => v,
                Err(e) => {
                    return Err(e);
                },
            };
            let ghost vv = variant_view(v);
            let mut variants = variants;
            variants.push(v);
            proof {
                assert(variants_view(variants@) =~= variants0.push(vv));
                assert(comments_view(Seq::<CommentLit>::empty()) =~= Seq::<Seq<char>>::empty());
            }
            parse_enum_body(tokens, j, variants, meta, Vec::new())
        },
        Token::Delimiter(Delimiter::BraceClose) => Ok((variants, meta, pos)),
        _ => Err(unexpected(tokens, pos, "Meta, Ident, Comment or BraceClose")),
    }
}

/// Parses `enum <ident> : <ident> { ... }`.
pub fn parse_enum(tokens: &Vec<Positioned<Token>>, pos: usize, comments: &Vec<CommentLit>) -> (r:
    Result<(EnumDeclaration, usize), SyntaxError>)
    ensures
        match r {
            Ok((e, j)) => {
                &&& spec_parse_enum(
                    token_values(tokens@),
                    pos as int,
                    comments_view(comments@),
                ) == Ok::<_, ()>((enum_decl_view(e), j as int))
                &&& pos < j <= tokens@.len()
            },
            Err(_) => spec_parse_enum(
                token_values(tokens@),
                pos as int,
                comments_view(comments@),
            ) is Err,
        },
{
    let n = tokens.len();
    if pos >= n {
        return Err(unexpected(tokens, pos, "Enum"));
    }
    match &tokens[pos].value {
        Token::Enum => {},
        _ => {
            return Err(unexpected(tokens, pos, "Enum"));
        },
    }
    if pos + 1 >= n {
        return Err(unexpected(tokens, pos + 1, "Ident"));
    }
    let t1 = &tokens[pos + 1];
    let name = match &t1.value {
        Token::Ident(v) => t1.span.wrap(Identifier(v.clone())),
        _ => {
            return Err(unexpected(tokens, pos + 1, "Ident"));
        },
    };
    if pos + 2 >= n {
        return Err(unexpected(tokens, pos + 2, "Colon"));
    }
    match &tokens[pos + 2].value {
        Token::Colon => {},
        _ => {
            return Err(unexpected(tokens, pos + 2, "Colon"));
        },
    }
    if pos + 3 >= n {
        return Err(unexpected(tokens, pos + 3, "Ident"));
    }
    let t3 = &tokens[pos + 3];
    let repr = match &t3.value {
        Token::Ident(v) => t3.span.wrap(Identifier(v.clone())),
        _ => {
            return Err(unexpected(tokens, pos + 3, "Ident"));
        },
    };
    if pos + 4 >= n {
        return Err(unexpected(tokens, pos + 4, "BraceOpen"));
    }
    match &tokens[pos + 4].value {
        Token::Delimiter(Delimiter::BraceOpen) => {},
        _ => {
            return Err(unexpected(tokens, pos + 4, "BraceOpen"));
        },
    }
    proof {
        assert(variants_view(Seq::<VariantDeclaration>::empty())
            =~= Seq::<crate::ast::VariantDeclV>::empty());
        assert(metas_view(Seq::<MetaDeclaration>::empty())
            =~= Seq::<crate::ast::MetaDeclV>::empty());
        assert(comments_view(Seq::<CommentLit>::empty()) =~= Seq::<Seq<char>>::empty());
    }
    let (variants, meta, j) = match parse_enum_body(tokens, pos + 5, Vec::new(), Vec::new(),
        Vec::new()) {
        Ok(v) => v,
        Err(e) => {
            return Err(e);
        },
    };
    if j >= n {
        return Err(unexpected(tokens, j, "BraceClose"));
    }
    match &tokens[j].value {
        Token::Delimiter(Delimiter::BraceClose) => {},
        _ => {
            return Err(unexpected(tokens, j, "BraceClose"));
        },
    }
    Ok((EnumDeclaration { name, repr, variants, meta, comments: clone_comments(comments) }, j + 1))
}

/// Parses the items of a `model` body. Doc comments attach to the next item;
/// a `meta` line clears the pending comments.
fn parse_model_body(
    tokens: &Vec<Positioned<Token>>,
    pos: usize,
    body: Vec<ModelItem>,
    meta: Vec<MetaDeclaration>,
    comments: Vec<CommentLit>,
) -> (r: Result<(Vec<ModelItem>, Vec<MetaDeclaration>, usize), SyntaxError>)
    requires
        pos <= tokens@.len(),
    ensures
        match r {
            Ok((its, ms, j)) => {
                &&& spec_parse_model_body(
                    token_values(tokens@),
                    pos as int,
                    model_items_view(body@),
                    metas_view(meta@),
                    comments_view(comments@),
                ) == Ok::<_, ()>((model_items_view(its@), metas_view(ms@), j as int))
                &&& pos <= j <= tokens@.len()
            },
            Err(_) => spec_parse_model_body(
                token_values(tokens@),
                pos as int,
                model_items_view(body@),
                metas_view(meta@),
                comments_view(comments@),
            ) is Err,
        },
    decreases tokens@.len() - pos,
{
    let n = tokens.len();
    if pos >= n {
        return Err(unexpected(tokens, pos, "BraceClose"));
    }
    let ghost body0 = model_items_view(body@);
    let ghost meta0 = metas_view(meta@);
    let ghost comments0 = comments_view(comments@);
    match &tokens[pos].value {
        Token::Comment(Comment::LineDoc(text)) => {
            let mut comments = comments;
            comments.push(CommentLit(text.clone()));
            proof {
                assert(comments_view(comments@) =~= comments0.push(text@));
            }
            parse_model_body(tokens, pos + 1, body, meta, comments)
        },
        Token::Meta => {
            let (m, j) = match parse_meta(tokens, pos) {
                Ok(v) => v,
                Err(e) => {
                    return Err(e);
                },
            };
            let ghost mv = meta_view(m);
            let mut meta = meta;
            meta.push(m);
            proof {
                assert(metas_view(meta@) =~= meta0.push(mv));
                assert(comments_view(Seq::<CommentLit>::empty()) =~= Seq::<Seq<char>>::empty());
            }
            parse_model_body(tokens, j, body, meta, Vec::new())
        },
        Token::Required | Token::Entity => {
            let (e, j) = match parse_entity(tokens, pos, &comments) {
                Ok(v) => v,
                Err(e) => {
                    return Err(e);
                },
            };
            let ghost ev = entity_view(e);
            let mut body = body;
            body.push(ModelItem::Entity(e));
            proof {
                assert(model_items_view(body@) =~= body0.push(ModelItemV::Entity(ev)));
                assert(comments_view(Seq::<CommentLit>::empty()) =~= Seq::<Seq<char>>::empty());
            }
            parse_model_body(tokens, j, body, meta, Vec::new())
        },
        Token::Constructor => {
            let (c, j) = match parse_constructor(tokens, pos, &comments) {
                Ok(v) => v,
                Err(e) => {
                    return Err(e);
                },
            };
            let ghost cv = ctor_view(c);
            let mut body = body;
            body.push(ModelItem::Constructor(c));
            proof {
                assert(model_items_view(body@) =~= body0.push(ModelItemV::Constructor(cv)));
                assert(comments_view(Seq::<CommentLit>::empty()) =~= Seq::<Seq<char>>::empty());
            }
            parse_model_body(tokens, j, body, meta, Vec::new())
        },
        Token::Server => {
            let (m, j) = match parse_server_method(tokens, pos, &comments) {
                Ok(v) => v,
                Err(e) => {
                    return Err(e);
                },
            };
            let ghost mv = server_method_view(m);
            let mut body = body;
            body.push(ModelItem::ServerMethod(m));
            proof {
                assert(model_items_view(body@) =~= body0.push(ModelItemV::ServerMethod(mv)));
                assert(comments_view(Seq::<CommentLit>::empty()) =~= Seq::<Seq<char>>::empty());
            }
            parse_model_body(tokens, j, body, meta, Vec::new())
        },
        Token::Client => {
            let (m, j) = match parse_client_method(tokens, pos, &comments) {
                Ok(v) => v,
                Err(e) => {
                    return Err(e);
                },
            };
            let ghost mv = client_method_view(m);
            let mut body = body;
            body.push(ModelItem::ClientMethod(m));
            proof {
                assert(model_items_view(body@) =~= body0.push(ModelItemV::ClientMethod(mv)));
                assert(comments_view(Seq::<CommentLit>::empty()) =~= Seq::<Seq<char>>::empty());
            }
            parse_model_body(tokens, j, body, meta, Vec::new())
        },
        Token::Delimiter(Delimiter::BraceClose) => Ok((body, meta, pos)),
        _ => Err(unexpected(tokens, pos, "a model item or BraceClose")),
    }
}

/// Parses `model <ident> = <number> { ... }`.
pub fn parse_model(tokens: &Vec<Positioned<Token>>, pos: usize, comments: &Vec<CommentLit>) -> (r:
    Result<(ModelDeclaration, usize), SyntaxError>)
    ensures
        match r {
            Ok((m, j)) => {
                &&& spec_parse_model(
                    token_values(tokens@),
                    pos as int,
                    comments_view(comments@),
                ) == Ok::<_, ()>((model_view(m), j as int))
                &&& pos < j <= tokens@.len()
            },
            Err(_) => spec_parse_model(
                token_values(tokens@),
                pos as int,
                comments_view(comments@),
            ) is Err,
        },
{
    let n = tokens.len();
    if pos >= n {
        return Err(unexpected(tokens, pos, "Model"));
    }
    match &tokens[pos].value {
        Token::Model => {},
        _ => {
            return Err(unexpected(tokens, pos, "Model"));
        },
    }
    if pos + 1 >= n {
        return Err(unexpected(tokens, pos + 1, "Ident"));
    }
    let t1 = &tokens[pos + 1];
    let name = match &t1.value {
        Token::Ident(v) => t1.span.wrap(Identifier(v.clone())),
        _ => {
            return Err(unexpected(tokens, pos + 1, "Ident"));
        },
    };
    if pos + 2 >= n {
        return Err(unexpected(tokens, pos + 2, "Eq"));
    }
    match &tokens[pos + 2].value {
        Token::Eq => {},
        _ => {
            return Err(unexpected(tokens, pos + 2, "Eq"));
        },
    }
    if pos + 3 >= n {
        return Err(unexpected(tokens, pos + 3, "Number"));
    }
    let t3 = &tokens[pos + 3];
    let id = match &t3.value {
        Token::Number(v) => t3.span.wrap(NumberLit(*v)),
        _ => {
            return Err(unexpected(tokens, pos + 3, "Number"));
        },
    };
    if pos + 4 >= n {
        return Err(unexpected(tokens, pos + 4, "BraceOpen"));
    }
    match &tokens[pos + 4].value {
        Token::Delimiter(Delimiter::BraceOpen) => {},
        _ => {
            return Err(unexpected(tokens, pos + 4, "BraceOpen"));
        },
    }
    proof {
        assert(model_items_view(Seq::<ModelItem>::empty())
            =~= Seq::<crate::ast::ModelItemV>::empty());
        assert(metas_view(Seq::<MetaDeclaration>::empty())
            =~= Seq::<crate::ast::MetaDeclV>::empty());
        assert(comments_view(Seq::<CommentLit>::empty()) =~= Seq::<Seq<char>>::empty());
    }
    let (body, meta, j) = match parse_model_body(tokens, pos + 5, Vec::new(), Vec::new(),
        Vec::new()) {
        Ok(v) => v,
        Err(e) => {
            return Err(e);
        },
    };
    if j >= n {
        return Err(unexpected(tokens, j, "BraceClose"));
    }
    match &tokens[j].value {
        Token::Delimiter(Delimiter::BraceClose) => {},
        _ => {
            return Err(unexpected(tokens, j, "BraceClose"));
        },
    }
    Ok((ModelDeclaration { name, id, body, meta, comments: clone_comments(comments) }, j + 1))
}

/// Parses the top-level declarations of a source file, to its end.
fn parse_program_items(
    tokens: &Vec<Positioned<Token>>,
    pos: usize,
    comments: Vec<CommentLit>,
    acc: Vec<ProgramItem>,
) -> (r: Result<Vec<ProgramItem>, SyntaxError>)
    requires
        pos <= tokens@.len(),
    ensures
        match r {
            Ok(its) => spec_parse_program_items(
                token_values(tokens@),
                pos as int,
                comments_view(comments@),
                program_items_view(acc@),
            ) == Ok::<_, ()>(program_items_view(its@)),
            Err(_) => spec_parse_program_items(
                token_values(tokens@),
                pos as int,
                comments_view(comments@),
                program_items_view(acc@),
            ) is Err,
        },
    decreases tokens@.len() - pos,
{
    let n = tokens.len();
    if pos >= n {
        return Ok(acc);
    }
    let ghost acc0 = program_items_view(acc@);
    let ghost comments0 = comments_view(comments@);
    match &tokens[pos].value {
        Token::Comment(Comment::LineDoc(text)) => {
            let mut comments = comments;
            comments.push(CommentLit(text.clone()));
            proof {
                assert(comments_view(comments@) =~= comments0.push(text@));
            }
            parse_program_items(tokens, pos + 1, comments, acc)
        },
        Token::Meta => {
            let (m, j) = match parse_meta(tokens, pos) {
                Ok(v) => v,
                Err(e) => {
                    return Err(e);
                },
            };
            let ghost mv = meta_view(m);
            let mut acc = acc;
            acc.push(ProgramItem::Meta(m));
            proof {
                assert(program_items_view(acc@) =~= acc0.push(ProgramItemV::Meta(mv)));
                assert(comments_view(Seq::<CommentLit>::empty()) =~= Seq::<Seq<char>>::empty());
            }
            parse_program_items(tokens, j, Vec::new(), acc)
        },
        Token::Model => {
            let (m, j) = match parse_model(tokens, pos, &comments) {
                Ok(v) => v,
                Err(e) => {
                    return Err(e);
                },
            };
            let ghost mv = model_view(m);
            let mut acc = acc;
            acc.push(ProgramItem::Model(m));
            proof {
                assert(program_items_view(acc@) =~= acc0.push(ProgramItemV::Model(mv)));
                assert(comments_view(Seq::<CommentLit>::empty()) =~= Seq::<Seq<char>>::empty());
            }
            parse_program_items(tokens, j, Vec::new(), acc)
        },
        Token::Type => {
            let (t, j) = match parse_type(tokens, pos, &comments) {
                Ok(v) => v,
                Err(e) => {
                    return Err(e);
                },
            };
            let ghost tv = type_decl_view(t);
            let mut acc = acc;
            acc.push(ProgramItem::Type(t));
            proof {
                assert(program_items_view(acc@) =~= acc0.push(ProgramItemV::Type(tv)));
                assert(comments_view(Seq::<CommentLit>::empty()) =~= Seq::<Seq<char>>::empty());
            }
            parse_program_items(tokens, j, Vec::new(), acc)
        },
        Token::Enum => {
            let (e, j) = match parse_enum(tokens, pos, &comments) {
                Ok(v) => v,
                Err(e) => {
                    return Err(e);
                },
            };
            let ghost ev = enum_decl_view(e);
            let mut acc = acc;
            acc.push(ProgramItem::Enum(e));
            proof {
                assert(program_items_view(acc@) =~= acc0.push(ProgramItemV::Enum(ev)));
                assert(comments_view(Seq::<CommentLit>::empty()) =~= Seq::<Seq<char>>::empty());
            }
            parse_program_items(tokens, j, Vec::new(), acc)
        },
        _ => Err(unexpected(tokens, pos, "Meta, Model, Type, Enum or Comment")),
    }
}

/// Parses a whole token stream into a `Program`.
pub fn parse_program(tokens: &Vec<Positioned<Token>>) -> (r: Result<Program, SyntaxError>)
    ensures
        match r {
            Ok(p) => spec_parse_program(token_values(tokens@)) == Ok::<_, ()>(program_view(p)),
            Err(_) => spec_parse_program(token_values(tokens@)) is Err,
        },
{
    proof {
        assert(program_items_view(Seq::<ProgramItem>::empty())
            =~= Seq::<crate::ast::ProgramItemV>::empty());
        assert(comments_view(Seq::<CommentLit>::empty()) =~= Seq::<Seq<char>>::empty());
    }
    match parse_program_items(tokens, 0, Vec::new(), Vec::new()) {
        Ok(body) => Ok(Program { body }),
        Err(e) => Err(e),
    }
}

} // verus!
