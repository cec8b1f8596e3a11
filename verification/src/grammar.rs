//! The grammar of the schema language as recursive specification functions
//! over token sequences.
//!
//! Each function takes the token values and a position and yields the parsed
//! value together with the position just past it, or an error. Every failure
//! is immediate: an unexpected token anywhere aborts the whole parse, and no
//! production is ever retried. Doc-comment tokens accumulate into a buffer
//! that the next declaration takes as its comments; a `meta` line clears the
//! buffer without keeping it.
//!
//! Positions returned by sub-parses are clamped to move strictly forward
//! (`advance`); the clamp never changes a real result, as the parsers only
//! return in-range positions, and it makes termination of the mutually
//! recursive productions evident.

use vstd::prelude::*;
use crate::span::Positioned;
use crate::token::{DelimiterV, CommentV, Token, TokenV};
use crate::ast::{CtorDeclV, EntityDeclV, EnumDeclV, FieldDeclV, MetaDeclV, MethodDeclV,
    ModelDeclV, ModelItemV, ParamDeclV, ProgramItemV, ProgramV, TypeDeclV, TypeV, VariantDeclV};

verus! {

/// The values of a positioned token stream, without the positions.
pub open spec fn token_values(ts: Seq<Positioned<Token>>) -> Seq<TokenV> {
    ts.map_values(|pt: Positioned<Token>| pt.value@)
}

/// Indexing the token values indexes the tokens.
pub broadcast proof fn lemma_token_values_index(ts: Seq<Positioned<Token>>, i: int)
    requires
        0 <= i < ts.len(),
    ensures
        #[trigger] token_values(ts)[i] == ts[i].value@,
{
}

/// `j`, moved forward to at least `lo` and kept within the token count `n`.
pub open spec fn advance(j: int, lo: int, n: int) -> int {
    if j < lo {
        lo
    } else if j > n {
        n
    } else {
        j
    }
}

/// `meta <ident> = <string> ;`
pub open spec fn spec_parse_meta(ts: Seq<TokenV>, i: int) -> Result<(MetaDeclV, int), ()> {
    if i < ts.len() && ts[i] is Meta {
        if i + 1 < ts.len() && ts[i + 1] is Ident {
            let key = ts[i + 1]->Ident_0;
            if i + 2 < ts.len() && ts[i + 2] is Eq {
                if i + 3 < ts.len() && ts[i + 3] is String {
                    let value = ts[i + 3]->String_0;
                    if i + 4 < ts.len() && ts[i + 4] is Semi {
                        Ok((MetaDeclV { key, value }, i + 5))
                    } else {
                        Err(())
                    }
                } else {
                    Err(())
                }
            } else {
                Err(())
            }
        } else {
            Err(())
        }
    } else {
        Err(())
    }
}

/// `required? entity <ident> ;`
pub open spec fn spec_parse_entity(ts: Seq<TokenV>, i: int, comments: Seq<Seq<char>>) -> Result<
    (EntityDeclV, int),
    (),
> {
    if i < ts.len() && (ts[i] is Required || ts[i] is Entity) {
        let required = ts[i] is Required;
        let j = if required {
            if i + 1 < ts.len() && ts[i + 1] is Entity {
                i + 2
            } else {
                -1
            }
        } else {
            i + 1
        };
        if j < 0 {
            Err(())
        } else if j < ts.len() && ts[j] is Ident {
            let name = ts[j]->Ident_0;
            if j + 1 < ts.len() && ts[j + 1] is Semi {
                Ok((EntityDeclV { name, required, comments }, j + 2))
            } else {
                Err(())
            }
        } else {
            Err(())
        }
    } else {
        Err(())
    }
}

/// `<ident> = <number> ;`
pub open spec fn spec_parse_variant(ts: Seq<TokenV>, i: int, comments: Seq<Seq<char>>) -> Result<
    (VariantDeclV, int),
    (),
> {
    if i < ts.len() && ts[i] is Ident {
        let name = ts[i]->Ident_0;
        if i + 1 < ts.len() && ts[i + 1] is Eq {
            if i + 2 < ts.len() && ts[i + 2] is Number {
                let value = ts[i + 2]->Number_0;
                if i + 3 < ts.len() && ts[i + 3] is Semi {
                    Ok((VariantDeclV { name, value, comments }, i + 4))
                } else {
                    Err(())
                }
            } else {
                Err(())
            }
        } else {
            Err(())
        }
    } else {
        Err(())
    }
}

/// A type expression, given what has already been seen of the current node:
/// its nullable marker, bare name, generic-parameter list and nested suffix,
/// in any relative order, each at most once; a bare name is mandatory, and
/// the expression ends at the first token that fits none of these (which is
/// not consumed). Reaching the end of input inside a type expression is an
/// error.
pub open spec fn spec_parse_type2(
    ts: Seq<TokenV>,
    i: int,
    nullable: bool,
    ident: Option<Seq<char>>,
    generic: Option<Seq<TypeV>>,
    nested: Option<TypeV>,
) -> Result<(TypeV, int), ()>
    decreases ts.len() - i, 2int,
    when i >= 0
{
    if i >= ts.len() {
        Err(())
    } else {
        match ts[i] {
            TokenV::Question => {
                if nullable {
                    Err(())
                } else {
                    spec_parse_type2(ts, i + 1, true, ident, generic, nested)
                }
            },
            TokenV::Ident(name) => {
                if ident is Some {
                    Err(())
                } else {
                    spec_parse_type2(ts, i + 1, nullable, Some(name), generic, nested)
                }
            },
            TokenV::Dot => {
                if nested is Some || ident is None {
                    Err(())
                } else {
                    match spec_parse_type2(ts, i + 1, false, None, None, None) {
                        Err(e) => Err(e),
                        Ok((inner, j)) => spec_parse_type2(
                            ts,
                            advance(j, i + 1, ts.len() as int),
                            nullable,
                            ident,
                            generic,
                            Some(inner),
                        ),
                    }
                }
            },
            TokenV::Lt => {
                if generic is Some || ident is None {
                    Err(())
                } else {
                    match spec_parse_generic_params(ts, i) {
                        Err(e) => Err(e),
                        Ok((params, j)) => spec_parse_type2(
                            ts,
                            advance(j, i + 1, ts.len() as int),
                            nullable,
                            ident,
                            Some(params),
                            nested,
                        ),
                    }
                }
            },
            _ => {
                let base = if generic is Some && ident is Some {
                    Some(
                        TypeV::Generic {
                            name: ident->0,
                            nullable,
                            params: generic->0,
                        },
                    )
                } else if ident is Some {
                    Some(TypeV::Ident { name: ident->0, nullable })
                } else {
                    None
                };
                match nested {
                    Some(inner) => {
                        if base is Some {
                            Ok(
                                (
                                    TypeV::Nested {
                                        ty: Box::new(base->0),
                                        inner: Box::new(inner),
                                    },
                                    i,
                                ),
                            )
                        } else {
                            Err(())
                        }
                    },
                    None => {
                        if base is Some {
                            Ok((base->0, i))
                        } else {
                            Err(())
                        }
                    },
                }
            },
        }
    }
}

/// `< Type (, Type)* >` — the parameter list of a generic type, possibly
/// empty; a trailing comma is an error.
pub open spec fn spec_parse_generic_params(ts: Seq<TokenV>, i: int) -> Result<
    (Seq<TypeV>, int),
    (),
>
    decreases ts.len() - i, 1int,
    when i >= 0
{
    if i < ts.len() && ts[i] is Lt {
        spec_parse_type_list(ts, i + 1, Seq::empty())
    } else {
        Err(())
    }
}

/// The comma-separated types before the closing `>`.
pub open spec fn spec_parse_type_list(ts: Seq<TokenV>, i: int, acc: Seq<TypeV>) -> Result<
    (Seq<TypeV>, int),
    (),
>
    decreases ts.len() - i, 3int,
    when i >= 0
{
    if i >= ts.len() {
        Err(())
    } else {
        match ts[i] {
            TokenV::Ident(_) => match spec_parse_type2(ts, i, false, None, None, None) {
                Err(e) => Err(e),
                Ok((ty, j0)) => {
                    let j = advance(j0, i + 1, ts.len() as int);
                    if j < ts.len() && ts[j] is Comma {
                        if j + 1 < ts.len() && ts[j + 1] is Gt {
                            Err(())
                        } else {
                            spec_parse_type_list(ts, j + 1, acc.push(ty))
                        }
                    } else if j < ts.len() && ts[j] is Gt {
                        Ok((acc.push(ty), j + 1))
                    } else {
                        Err(())
                    }
                },
            },
            TokenV::Gt => Ok((acc, i + 1)),
            _ => Err(()),
        }
    }
}

/// `<ident> : Type = <number> ;`
pub open spec fn spec_parse_field(ts: Seq<TokenV>, i: int, comments: Seq<Seq<char>>) -> Result<
    (FieldDeclV, int),
    (),
> {
    if i < ts.len() && ts[i] is Ident {
        let name = ts[i]->Ident_0;
        if i + 1 < ts.len() && ts[i + 1] is Colon {
            match spec_parse_type2(ts, i + 2, false, None, None, None) {
                Err(e) => Err(e),
                Ok((kind, j0)) => {
                    let j = advance(j0, i + 2, ts.len() as int);
                    if j < ts.len() && ts[j] is Eq {
                        if j + 1 < ts.len() && ts[j + 1] is Number {
                            let position = ts[j + 1]->Number_0;
                            if j + 2 < ts.len() && ts[j + 2] is Semi {
                                Ok((FieldDeclV { name, kind, position, comments }, j + 3))
                            } else {
                                Err(())
                            }
                        } else {
                            Err(())
                        }
                    } else {
                        Err(())
                    }
                },
            }
        } else {
            Err(())
        }
    } else {
        Err(())
    }
}

/// `<ident> : Type`
pub open spec fn spec_parse_param(ts: Seq<TokenV>, i: int) -> Result<(ParamDeclV, int), ()> {
    if i < ts.len() && ts[i] is Ident {
        let name = ts[i]->Ident_0;
        if i + 1 < ts.len() && ts[i + 1] is Colon {
            match spec_parse_type2(ts, i + 2, false, None, None, None) {
                Err(e) => Err(e),
                Ok((kind, j0)) => Ok((ParamDeclV { name, kind }, advance(j0, i + 2, ts.len() as int))),
            }
        } else {
            Err(())
        }
    } else {
        Err(())
    }
}

/// The comma-separated parameters before the closing `)`; a trailing comma
/// is an error.
pub open spec fn spec_parse_param_list(ts: Seq<TokenV>, i: int, acc: Seq<ParamDeclV>) -> Result<
    (Seq<ParamDeclV>, int),
    (),
>
    decreases ts.len() - i,
    when i >= 0
{
    if i >= ts.len() {
        Err(())
    } else {
        match ts[i] {
            TokenV::Ident(_) => match spec_parse_param(ts, i) {
                Err(e) => Err(e),
                Ok((p, j0)) => {
                    let j = advance(j0, i + 1, ts.len() as int);
                    if j < ts.len() && ts[j] is Comma {
                        if j + 1 < ts.len() && ts[j + 1] is Delimiter && ts[j + 1]->Delimiter_0
                            is ParenClose {
                            Err(())
                        } else {
                            spec_parse_param_list(ts, j + 1, acc.push(p))
                        }
                    } else if j < ts.len() && ts[j] is Delimiter && ts[j]->Delimiter_0
                        is ParenClose {
                        spec_parse_param_list(ts, j, acc.push(p))
                    } else {
                        Err(())
                    }
                },
            },
            TokenV::Delimiter(DelimiterV::ParenClose) => Ok((acc, i)),
            _ => Err(()),
        }
    }
}

/// `server|client <ident> ( params? ) = <number> ;` — the shared shape of
/// the two method declarations.
pub open spec fn spec_parse_method(
    ts: Seq<TokenV>,
    i: int,
    comments: Seq<Seq<char>>,
    server: bool,
) -> Result<(MethodDeclV, int), ()> {
    let kw_ok = i < ts.len() && if server {
        ts[i] is Server
    } else {
        ts[i] is Client
    };
    if kw_ok {
        if i + 1 < ts.len() && ts[i + 1] is Ident {
            let name = ts[i + 1]->Ident_0;
            if i + 2 < ts.len() && ts[i + 2] is Delimiter && ts[i + 2]->Delimiter_0 is ParenOpen {
                match spec_parse_param_list(ts, i + 3, Seq::empty()) {
                    Err(e) => Err(e),
                    Ok((params, j0)) => {
                        let j = advance(j0, i + 3, ts.len() as int);
                        // the closing parenthesis, then `= <number> ;`
                        if j < ts.len() && ts[j] is Delimiter && ts[j]->Delimiter_0
                            is ParenClose {
                            if j + 1 < ts.len() && ts[j + 1] is Eq {
                                if j + 2 < ts.len() && ts[j + 2] is Number {
                                    let id = ts[j + 2]->Number_0;
                                    if j + 3 < ts.len() && ts[j + 3] is Semi {
                                        Ok((MethodDeclV { name, params, id, comments }, j + 4))
                                    } else {
                                        Err(())
                                    }
                                } else {
                                    Err(())
                                }
                            } else {
                                Err(())
                            }
                        } else {
                            Err(())
                        }
                    },
                }
            } else {
                Err(())
            }
        } else {
            Err(())
        }
    } else {
        Err(())
    }
}

/// The items of a `constructor { ... }` or `type { ... }` body: `meta`
/// lines, fields, and doc comments that attach to the next field. Ends
/// before the closing brace, which is not consumed.
pub open spec fn spec_parse_fields_body(
    ts: Seq<TokenV>,
    i: int,
    fields: Seq<FieldDeclV>,
    meta: Seq<MetaDeclV>,
    comments: Seq<Seq<char>>,
) -> Result<(Seq<FieldDeclV>, Seq<MetaDeclV>, int), ()>
    decreases ts.len() - i,
    when i >= 0
{
    if i >= ts.len() {
        Err(())
    } else {
        match ts[i] {
            TokenV::Comment(CommentV::LineDoc(body)) => spec_parse_fields_body(
                ts,
                i + 1,
                fields,
                meta,
                comments.push(body),
            ),
            TokenV::Meta => match spec_parse_meta(ts, i) {
                Err(e) => Err(e),
                Ok((m, j)) => spec_parse_fields_body(
                    ts,
                    advance(j, i + 1, ts.len() as int),
                    fields,
                    meta.push(m),
                    Seq::empty(),
                ),
            },
            TokenV::Ident(_) => match spec_parse_field(ts, i, comments) {
                Err(e) => Err(e),
                Ok((f, j)) => spec_parse_fields_body(
                    ts,
                    advance(j, i + 1, ts.len() as int),
                    fields.push(f),
                    meta,
                    Seq::empty(),
                ),
            },
            TokenV::Delimiter(DelimiterV::BraceClose) => Ok((fields, meta, i)),
            _ => Err(()),
        }
    }
}

/// `constructor { ... }`
pub open spec fn spec_parse_constructor(
    ts: Seq<TokenV>,
    i: int,
    comments: Seq<Seq<char>>,
) -> Result<(CtorDeclV, int), ()> {
    if i < ts.len() && ts[i] is Constructor {
        if i + 1 < ts.len() && ts[i + 1] is Delimiter && ts[i + 1]->Delimiter_0 is BraceOpen {
            match spec_parse_fields_body(ts, i + 2, Seq::empty(), Seq::empty(), Seq::empty()) {
                Err(e) => Err(e),
                Ok((fields, meta, j0)) => {
                    let j = advance(j0, i + 2, ts.len() as int);
                    if j < ts.len() && ts[j] is Delimiter && ts[j]->Delimiter_0 is BraceClose {
                        Ok((CtorDeclV { fields, meta, comments }, j + 1))
                    } else {
                        Err(())
                    }
                },
            }
        } else {
            Err(())
        }
    } else {
        Err(())
    }
}

/// `type <ident> { ... }`
pub open spec fn spec_parse_type_decl(
    ts: Seq<TokenV>,
    i: int,
    comments: Seq<Seq<char>>,
) -> Result<(TypeDeclV, int), ()> {
    if i < ts.len() && ts[i] is Type {
        if i + 1 < ts.len() && ts[i + 1] is Ident {
            let name = ts[i + 1]->Ident_0;
            if i + 2 < ts.len() && ts[i + 2] is Delimiter && ts[i + 2]->Delimiter_0
                is BraceOpen {
                match spec_parse_fields_body(ts, i + 3, Seq::empty(), Seq::empty(), Seq::empty()) {
                    Err(e) => Err(e),
                    Ok((fields, meta, j0)) => {
                        let j = advance(j0, i + 3, ts.len() as int);
                        if j < ts.len() && ts[j] is Delimiter && ts[j]->Delimiter_0
                            is BraceClose {
                            Ok((TypeDeclV { name, fields, meta, comments }, j + 1))
                        } else {
                            Err(())
                        }
                    },
                }
            } else {
                Err(())
            }
        } else {
            Err(())
        }
    } else {
        Err(())
    }
}

/// The variants of an `enum { ... }` body, with their doc comments.
pub open spec fn spec_parse_enum_body(
    ts: Seq<TokenV>,
    i: int,
    variants: Seq<VariantDeclV>,
    meta: Seq<MetaDeclV>,
    comments: Seq<Seq<char>>,
) -> Result<(Seq<VariantDeclV>, Seq<MetaDeclV>, int), ()>
    decreases ts.len() - i,
    when i >= 0
{
    if i >= ts.len() {
        Err(())
    } else {
        match ts[i] {
            TokenV::Comment(CommentV::LineDoc(body)) => spec_parse_enum_body(
                ts,
                i + 1,
                variants,
                meta,
                comments.push(body),
            ),
            TokenV::Meta => match spec_parse_meta(ts, i) {
                Err(e) => Err(e),
                Ok((m, j)) => spec_parse_enum_body(
                    ts,
                    advance(j, i + 1, ts.len() as int),
                    variants,
                    meta.push(m),
                    Seq::empty(),
                ),
            },
            TokenV::Ident(_) => match spec_parse_variant(ts, i, comments) {
                Err(e) => Err(e),
                Ok((v, j)) => spec_parse_enum_body(
                    ts,
                    advance(j, i + 1, ts.len() as int),
                    variants.push(v),
                    meta,
                    Seq::empty(),
                ),
            },
            TokenV::Delimiter(DelimiterV::BraceClose) => Ok((variants, meta, i)),
            _ => Err(()),
        }
    }
}

/// `enum <ident> : <ident> { ... }`
pub open spec fn spec_parse_enum(ts: Seq<TokenV>, i: int, comments: Seq<Seq<char>>) -> Result<
    (EnumDeclV, int),
    (),
> {
    if i < ts.len() && ts[i] is Enum {
        if i + 1 < ts.len() && ts[i + 1] is Ident {
            let name = ts[i + 1]->Ident_0;
            if i + 2 < ts.len() && ts[i + 2] is Colon {
                if i + 3 < ts.len() && ts[i + 3] is Ident {
                    let repr = ts[i + 3]->Ident_0;
                    if i + 4 < ts.len() && ts[i + 4] is Delimiter && ts[i + 4]->Delimiter_0
                        is BraceOpen {
                        match spec_parse_enum_body(
                            ts,
                            i + 5,
                            Seq::empty(),
                            Seq::empty(),
                            Seq::empty(),
                        ) {
                            Err(e) => Err(e),
                            Ok((variants, meta, j0)) => {
                                let j = advance(j0, i + 5, ts.len() as int);
                                if j < ts.len() && ts[j] is Delimiter && ts[j]->Delimiter_0
                                    is BraceClose {
                                    Ok((EnumDeclV { name, repr, variants, meta, comments }, j + 1))
                                } else {
                                    Err(())
                                }
                            },
                        }
                    } else {
                        Err(())
                    }
                } else {
                    Err(())
                }
            } else {
                Err(())
            }
        } else {
            Err(())
        }
    } else {
        Err(())
    }
}

/// The items of a `model { ... }` body. Doc comments attach to the next
/// item; a `meta` line clears the pending comments.
pub open spec fn spec_parse_model_body(
    ts: Seq<TokenV>,
    i: int,
    body: Seq<ModelItemV>,
    meta: Seq<MetaDeclV>,
    comments: Seq<Seq<char>>,
) -> Result<(Seq<ModelItemV>, Seq<MetaDeclV>, int), ()>
    decreases ts.len() - i,
    when i >= 0
{
    if i >= ts.len() {
        Err(())
    } else {
        match ts[i] {
            TokenV::Comment(CommentV::LineDoc(text)) => spec_parse_model_body(
                ts,
                i + 1,
                body,
                meta,
                comments.push(text),
            ),
            TokenV::Meta => match spec_parse_meta(ts, i) {
                Err(e) => Err(e),
                Ok((m, j)) => spec_parse_model_body(
                    ts,
                    advance(j, i + 1, ts.len() as int),
                    body,
                    meta.push(m),
                    Seq::empty(),
                ),
            },
            TokenV::Required | TokenV::Entity => match spec_parse_entity(ts, i, comments) {
                Err(e) => Err(e),
                Ok((en, j)) => spec_parse_model_body(
                    ts,
                    advance(j, i + 1, ts.len() as int),
                    body.push(ModelItemV::Entity(en)),
                    meta,
                    Seq::empty(),
                ),
            },
            TokenV::Constructor => match spec_parse_constructor(ts, i, comments) {
                Err(e) => Err(e),
                Ok((ct, j)) => spec_parse_model_body(
                    ts,
                    advance(j, i + 1, ts.len() as int),
                    body.push(ModelItemV::Constructor(ct)),
                    meta,
                    Seq::empty(),
                ),
            },
            TokenV::Server => match spec_parse_method(ts, i, comments, true) {
                Err(e) => Err(e),
                Ok((m, j)) => spec_parse_model_body(
                    ts,
                    advance(j, i + 1, ts.len() as int),
                    body.push(ModelItemV::ServerMethod(m)),
                    meta,
                    Seq::empty(),
                ),
            },
            TokenV::Client => match spec_parse_method(ts, i, comments, false) {
                Err(e) => Err(e),
                Ok((m, j)) => spec_parse_model_body(
                    ts,
                    advance(j, i + 1, ts.len() as int),
                    body.push(ModelItemV::ClientMethod(m)),
                    meta,
                    Seq::empty(),
                ),
            },
            TokenV::Delimiter(DelimiterV::BraceClose) => Ok((body, meta, i)),
            _ => Err(()),
        }
    }
}

/// `model <ident> = <number> { ... }`
pub open spec fn spec_parse_model(ts: Seq<TokenV>, i: int, comments: Seq<Seq<char>>) -> Result<
    (ModelDeclV, int),
    (),
> {
    if i < ts.len() && ts[i] is Model {
        if i + 1 < ts.len() && ts[i + 1] is Ident {
            let name = ts[i + 1]->Ident_0;
            if i + 2 < ts.len() && ts[i + 2] is Eq {
                if i + 3 < ts.len() && ts[i + 3] is Number {
                    let id = ts[i + 3]->Number_0;
                    if i + 4 < ts.len() && ts[i + 4] is Delimiter && ts[i + 4]->Delimiter_0
                        is BraceOpen {
                        match spec_parse_model_body(
                            ts,
                            i + 5,
                            Seq::empty(),
                            Seq::empty(),
                            Seq::empty(),
                        ) {
                            Err(e) => Err(e),
                            Ok((body, meta, j0)) => {
                                let j = advance(j0, i + 5, ts.len() as int);
                                if j < ts.len() && ts[j] is Delimiter && ts[j]->Delimiter_0
                                    is BraceClose {
                                    Ok((ModelDeclV { name, id, body, meta, comments }, j + 1))
                                } else {
                                    Err(())
                                }
                            },
                        }
                    } else {
                        Err(())
                    }
                } else {
                    Err(())
                }
            } else {
                Err(())
            }
        } else {
            Err(())
        }
    } else {
        Err(())
    }
}

/// The top-level declarations of a source file. Doc comments attach to the
/// next declaration; a `meta` line clears the pending comments.
pub open spec fn spec_parse_program_items(
    ts: Seq<TokenV>,
    i: int,
    comments: Seq<Seq<char>>,
    acc: Seq<ProgramItemV>,
) -> Result<Seq<ProgramItemV>, ()>
    decreases ts.len() - i,
    when i >= 0
{
    if i >= ts.len() {
        Ok(acc)
    } else {
        match ts[i] {
            TokenV::Comment(CommentV::LineDoc(text)) => spec_parse_program_items(
                ts,
                i + 1,
                comments.push(text),
                acc,
            ),
            TokenV::Meta => match spec_parse_meta(ts, i) {
                Err(e) => Err(e),
                Ok((m, j)) => spec_parse_program_items(
                    ts,
                    advance(j, i + 1, ts.len() as int),
                    Seq::empty(),
                    acc.push(ProgramItemV::Meta(m)),
                ),
            },
            TokenV::Model => match spec_parse_model(ts, i, comments) {
                Err(e) => Err(e),
                Ok((m, j)) => spec_parse_program_items(
                    ts,
                    advance(j, i + 1, ts.len() as int),
                    Seq::empty(),
                    acc.push(ProgramItemV::Model(m)),
                ),
            },
            TokenV::Type => match spec_parse_type_decl(ts, i, comments) {
                Err(e) => Err(e),
                Ok((t, j)) => spec_parse_program_items(
                    ts,
                    advance(j, i + 1, ts.len() as int),
                    Seq::empty(),
                    acc.push(ProgramItemV::Type(t)),
                ),
            },
            TokenV::Enum => match spec_parse_enum(ts, i, comments) {
                Err(e) => Err(e),
                Ok((e2, j)) => spec_parse_program_items(
                    ts,
                    advance(j, i + 1, ts.len() as int),
                    Seq::empty(),
                    acc.push(ProgramItemV::Enum(e2)),
                ),
            },
            _ => Err(()),
        }
    }
}

/// A whole source file: its top-level declarations, or an error.
pub open spec fn spec_parse_program(ts: Seq<TokenV>) -> Result<ProgramV, ()> {
    match spec_parse_program_items(ts, 0, Seq::empty(), Seq::empty()) {
        Err(e) => Err(e),
        Ok(body) => Ok(ProgramV { body }),
    }
}

/// The payloads of `n` consecutive doc-comment tokens starting at `i`.
pub open spec fn comment_bodies(ts: Seq<TokenV>, i: int, n: int) -> Seq<Seq<char>> {
    Seq::new(n as nat, |k: int| ts[i + k]->Comment_0->LineDoc_0)
}

/// Doc comments accumulate: scanning `n` consecutive doc-comment tokens
/// appends exactly their payloads, in order, to the pending comment buffer.
pub proof fn lemma_comments_accumulate(
    ts: Seq<TokenV>,
    i: int,
    n: int,
    buf: Seq<Seq<char>>,
    acc: Seq<ProgramItemV>,
)
    requires
        0 <= i,
        0 <= n,
        i + n <= ts.len(),
        forall|k: int| i <= k < i + n ==> (#[trigger] ts[k]) is Comment,
    ensures
        spec_parse_program_items(ts, i, buf, acc) == spec_parse_program_items(
            ts,
            i + n,
            buf + comment_bodies(ts, i, n),
            acc,
        ),
    decreases n,
{
    if n == 0 {
        assert(buf + comment_bodies(ts, i, 0) =~= buf);
    } else {
        assert(ts[i] is Comment);
        let b0 = ts[i]->Comment_0->LineDoc_0;
        lemma_comments_accumulate(ts, i + 1, n - 1, buf.push(b0), acc);
        assert(buf.push(b0) + comment_bodies(ts, i + 1, n - 1) =~= buf + comment_bodies(
            ts,
            i,
            n,
        ));
    }
}

/// Doc-comment attachment: a model declaration preceded by `n` consecutive
/// doc-comment lines, with nothing else pending, carries exactly those `n`
/// lines as its comments, and the parse continues past it with an empty
/// buffer.
pub proof fn lemma_doc_comments_attach(
    ts: Seq<TokenV>,
    i: int,
    n: int,
    acc: Seq<ProgramItemV>,
    m: ModelDeclV,
    j: int,
)
    requires
        0 <= i,
        0 <= n,
        i + n < ts.len(),
        forall|k: int| i <= k < i + n ==> (#[trigger] ts[k]) is Comment,
        spec_parse_model(ts, i + n, comment_bodies(ts, i, n)) == Ok::<(ModelDeclV, int), ()>(
            (m, j),
        ),
    ensures
        m.comments == comment_bodies(ts, i, n),
        spec_parse_program_items(ts, i, Seq::empty(), acc) == spec_parse_program_items(
            ts,
            advance(j, i + n + 1, ts.len() as int),
            Seq::empty(),
            acc.push(ProgramItemV::Model(m)),
        ),
{
    lemma_comments_accumulate(ts, i, n, Seq::empty(), acc);
    assert(Seq::empty() + comment_bodies(ts, i, n) =~= comment_bodies(ts, i, n));
    assert(ts[i + n] is Model);
}

/// A `meta` line keeps no comments and clears the pending buffer: whatever
/// was buffered before it is gone for the next item.
pub proof fn lemma_meta_clears_comments(
    ts: Seq<TokenV>,
    i: int,
    buf: Seq<Seq<char>>,
    acc: Seq<ProgramItemV>,
    m: MetaDeclV,
    j: int,
)
    requires
        0 <= i < ts.len(),
        spec_parse_meta(ts, i) == Ok::<(MetaDeclV, int), ()>((m, j)),
    ensures
        spec_parse_program_items(ts, i, buf, acc) == spec_parse_program_items(
            ts,
            advance(j, i + 1, ts.len() as int),
            Seq::empty(),
            acc.push(ProgramItemV::Meta(m)),
        ),
{
    assert(ts[i] is Meta);
}

/// At the token level, the rendering of a bare name re-parses to itself: an
/// identifier token, a nullable marker exactly when the name carries one,
/// and then any token that fits no type constituent parse back to the same
/// bare name.
pub proof fn lemma_ident_tokens_reparse(ts: Seq<TokenV>, i: int, name: Seq<char>, nullable: bool)
    requires
        0 <= i,
        i + (if nullable { 2int } else { 1int }) < ts.len(),
        ts[i] == TokenV::Ident(name),
        nullable ==> ts[i + 1] is Question,
        ({
            let j = i + if nullable { 2int } else { 1int };
            &&& !(ts[j] is Question)
            &&& !(ts[j] is Ident)
            &&& !(ts[j] is Dot)
            &&& !(ts[j] is Lt)
        }),
    ensures
        spec_parse_type2(ts, i, false, None, None, None) == Ok::<(TypeV, int), ()>(
            (TypeV::Ident { name, nullable }, i + if nullable { 2int } else { 1int }),
        ),
{
    if nullable {
        assert(spec_parse_type2(ts, i + 1, false, Some(name), None, None) == spec_parse_type2(
            ts,
            i + 2,
            true,
            Some(name),
            None,
            None,
        ));
    }
}

/// At the token level, the rendering of a dotted pair of bare names
/// re-parses to itself: the outer name with its marker, a dot, the inner
/// name with its marker, and a terminating token parse back to the same
/// dotted reference.
pub proof fn lemma_dotted_tokens_reparse(
    ts: Seq<TokenV>,
    i: int,
    outer: Seq<char>,
    outer_nullable: bool,
    inner: Seq<char>,
    inner_nullable: bool,
)
    requires
        0 <= i,
        ({
            let d = i + 1 + if outer_nullable { 1int } else { 0int };
            let e = d + 2 + if inner_nullable { 1int } else { 0int };
            &&& e < ts.len()
            &&& ts[i] == TokenV::Ident(outer)
            &&& (outer_nullable ==> ts[i + 1] is Question)
            &&& ts[d] is Dot
            &&& ts[d + 1] == TokenV::Ident(inner)
            &&& (inner_nullable ==> ts[d + 2] is Question)
            &&& !(ts[e] is Question)
            &&& !(ts[e] is Ident)
            &&& !(ts[e] is Dot)
            &&& !(ts[e] is Lt)
        }),
    ensures
        ({
            let d = i + 1 + if outer_nullable { 1int } else { 0int };
            let e = d + 2 + if inner_nullable { 1int } else { 0int };
            spec_parse_type2(ts, i, false, None, None, None) == Ok::<(TypeV, int), ()>(
                (
                    TypeV::Nested {
                        ty: Box::new(TypeV::Ident { name: outer, nullable: outer_nullable }),
                        inner: Box::new(TypeV::Ident { name: inner, nullable: inner_nullable }),
                    },
                    e,
                ),
            )
        }),
{
    let d = i + 1 + if outer_nullable { 1int } else { 0int };
    let e = d + 2 + if inner_nullable { 1int } else { 0int };
    lemma_ident_tokens_reparse(ts, d + 1, inner, inner_nullable);
    assert(advance(e, d + 2, ts.len() as int) == e);
    if outer_nullable {
        assert(spec_parse_type2(ts, i + 1, false, Some(outer), None, None) == spec_parse_type2(
            ts,
            i + 2,
            true,
            Some(outer),
            None,
            None,
        ));
    }
    assert(spec_parse_type2(ts, d, outer_nullable, Some(outer), None, None) == spec_parse_type2(
        ts,
        e,
        outer_nullable,
        Some(outer),
        None,
        Some(TypeV::Ident { name: inner, nullable: inner_nullable }),
    ));
}

/// Doc-comment attachment for payload types: a type declaration preceded by
/// `n` consecutive doc-comment lines, with nothing else pending, carries
/// exactly those `n` lines, and the parse continues past it with an empty
/// buffer.
pub proof fn lemma_doc_comments_attach_to_type(
    ts: Seq<TokenV>,
    i: int,
    n: int,
    acc: Seq<ProgramItemV>,
    t: TypeDeclV,
    j: int,
)
    requires
        0 <= i,
        0 <= n,
        i + n < ts.len(),
        forall|k: int| i <= k < i + n ==> (#[trigger] ts[k]) is Comment,
        spec_parse_type_decl(ts, i + n, comment_bodies(ts, i, n)) == Ok::<(TypeDeclV, int), ()>(
            (t, j),
        ),
    ensures
        t.comments == comment_bodies(ts, i, n),
        spec_parse_program_items(ts, i, Seq::empty(), acc) == spec_parse_program_items(
            ts,
            advance(j, i + n + 1, ts.len() as int),
            Seq::empty(),
            acc.push(ProgramItemV::Type(t)),
        ),
{
    lemma_comments_accumulate(ts, i, n, Seq::empty(), acc);
    assert(Seq::empty() + comment_bodies(ts, i, n) =~= comment_bodies(ts, i, n));
    assert(ts[i + n] is Type);
}

/// Doc-comment attachment for enums: an enum declaration preceded by `n`
/// consecutive doc-comment lines, with nothing else pending, carries exactly
/// those `n` lines, and the parse continues past it with an empty buffer.
pub proof fn lemma_doc_comments_attach_to_enum(
    ts: Seq<TokenV>,
    i: int,
    n: int,
    acc: Seq<ProgramItemV>,
    e: EnumDeclV,
    j: int,
)
    requires
        0 <= i,
        0 <= n,
        i + n < ts.len(),
        forall|k: int| i <= k < i + n ==> (#[trigger] ts[k]) is Comment,
        spec_parse_enum(ts, i + n, comment_bodies(ts, i, n)) == Ok::<(EnumDeclV, int), ()>(
            (e, j),
        ),
    ensures
        e.comments == comment_bodies(ts, i, n),
        spec_parse_program_items(ts, i, Seq::empty(), acc) == spec_parse_program_items(
            ts,
            advance(j, i + n + 1, ts.len() as int),
            Seq::empty(),
            acc.push(ProgramItemV::Enum(e)),
        ),
{
    lemma_comments_accumulate(ts, i, n, Seq::empty(), acc);
    assert(Seq::empty() + comment_bodies(ts, i, n) =~= comment_bodies(ts, i, n));
    assert(ts[i + n] is Enum);
}

/// A parsed model's own comments are exactly the buffer it was given: the
/// comments buffered inside its body belong to its items, never to the model
/// itself.
pub proof fn lemma_model_keeps_own_comments(ts: Seq<TokenV>, i: int, cs: Seq<Seq<char>>)
    requires
        spec_parse_model(ts, i, cs) is Ok,
    ensures
        spec_parse_model(ts, i, cs)->Ok_0.0.comments == cs,
{
}

/// Inside a model body, doc comments accumulate into the body's own buffer,
/// independent of the file-level one.
pub proof fn lemma_body_comments_accumulate(
    ts: Seq<TokenV>,
    i: int,
    n: int,
    body: Seq<ModelItemV>,
    meta: Seq<MetaDeclV>,
    buf: Seq<Seq<char>>,
)
    requires
        0 <= i,
        0 <= n,
        i + n <= ts.len(),
        forall|k: int| i <= k < i + n ==> (#[trigger] ts[k]) is Comment,
    ensures
        spec_parse_model_body(ts, i, body, meta, buf) == spec_parse_model_body(
            ts,
            i + n,
            body,
            meta,
            buf + comment_bodies(ts, i, n),
        ),
    decreases n,
{
    if n == 0 {
        assert(buf + comment_bodies(ts, i, 0) =~= buf);
    } else {
        assert(ts[i] is Comment);
        let b0 = ts[i]->Comment_0->LineDoc_0;
        lemma_body_comments_accumulate(ts, i + 1, n - 1, body, meta, buf.push(b0));
        assert(buf.push(b0) + comment_bodies(ts, i + 1, n - 1) =~= buf + comment_bodies(
            ts,
            i,
            n,
        ));
    }
}

/// Inside a model body, a `meta` line keeps no comments and clears the
/// body's pending buffer.
pub proof fn lemma_body_meta_clears_comments(
    ts: Seq<TokenV>,
    i: int,
    body: Seq<ModelItemV>,
    meta: Seq<MetaDeclV>,
    buf: Seq<Seq<char>>,
    m: MetaDeclV,
    j: int,
)
    requires
        0 <= i < ts.len(),
        spec_parse_meta(ts, i) == Ok::<(MetaDeclV, int), ()>((m, j)),
    ensures
        spec_parse_model_body(ts, i, body, meta, buf) == spec_parse_model_body(
            ts,
            advance(j, i + 1, ts.len() as int),
            body,
            meta.push(m),
            Seq::empty(),
        ),
{
    assert(ts[i] is Meta);
}

/// Inside a model body, an entity preceded by `n` consecutive doc-comment
/// lines, with nothing else pending, carries exactly those `n` lines, and
/// the body parse continues past it with an empty buffer.
pub proof fn lemma_body_doc_comments_attach_entity(
    ts: Seq<TokenV>,
    i: int,
    n: int,
    body: Seq<ModelItemV>,
    meta: Seq<MetaDeclV>,
    en: EntityDeclV,
    j: int,
)
    requires
        0 <= i,
        0 <= n,
        i + n < ts.len(),
        forall|k: int| i <= k < i + n ==> (#[trigger] ts[k]) is Comment,
        spec_parse_entity(ts, i + n, comment_bodies(ts, i, n)) == Ok::<(EntityDeclV, int), ()>(
            (en, j),
        ),
    ensures
        en.comments == comment_bodies(ts, i, n),
        spec_parse_model_body(ts, i, body, meta, Seq::empty()) == spec_parse_model_body(
            ts,
            advance(j, i + n + 1, ts.len() as int),
            body.push(ModelItemV::Entity(en)),
            meta,
            Seq::empty(),
        ),
{
    lemma_body_comments_accumulate(ts, i, n, body, meta, Seq::empty());
    assert(Seq::empty() + comment_bodies(ts, i, n) =~= comment_bodies(ts, i, n));
    assert(ts[i + n] is Required || ts[i + n] is Entity);
}

/// Inside a model body, a constructor preceded by `n` consecutive
/// doc-comment lines, with nothing else pending, carries exactly those `n`
/// lines, and the body parse continues past it with an empty buffer.
pub proof fn lemma_body_doc_comments_attach_constructor(
    ts: Seq<TokenV>,
    i: int,
    n: int,
    body: Seq<ModelItemV>,
    meta: Seq<MetaDeclV>,
    ct: CtorDeclV,
    j: int,
)
    requires
        0 <= i,
        0 <= n,
        i + n < ts.len(),
        forall|k: int| i <= k < i + n ==> (#[trigger] ts[k]) is Comment,
        spec_parse_constructor(ts, i + n, comment_bodies(ts, i, n)) == Ok::<(CtorDeclV, int), ()>(
            (ct, j),
        ),
    ensures
        ct.comments == comment_bodies(ts, i, n),
        spec_parse_model_body(ts, i, body, meta, Seq::empty()) == spec_parse_model_body(
            ts,
            advance(j, i + n + 1, ts.len() as int),
            body.push(ModelItemV::Constructor(ct)),
            meta,
            Seq::empty(),
        ),
{
    lemma_body_comments_accumulate(ts, i, n, body, meta, Seq::empty());
    assert(Seq::empty() + comment_bodies(ts, i, n) =~= comment_bodies(ts, i, n));
    assert(ts[i + n] is Constructor);
}

/// Inside a model body, a client or server method preceded by `n`
/// consecutive doc-comment lines, with nothing else pending, carries exactly
/// those `n` lines, and the body parse continues past it with an empty
/// buffer.
pub proof fn lemma_body_doc_comments_attach_method(
    ts: Seq<TokenV>,
    i: int,
    n: int,
    body: Seq<ModelItemV>,
    meta: Seq<MetaDeclV>,
    m: MethodDeclV,
    j: int,
    server: bool,
)
    requires
        0 <= i,
        0 <= n,
        i + n < ts.len(),
        forall|k: int| i <= k < i + n ==> (#[trigger] ts[k]) is Comment,
        spec_parse_method(ts, i + n, comment_bodies(ts, i, n), server) == Ok::<
            (MethodDeclV, int),
            (),
        >((m, j)),
    ensures
        m.comments == comment_bodies(ts, i, n),
        spec_parse_model_body(ts, i, body, meta, Seq::empty()) == spec_parse_model_body(
            ts,
            advance(j, i + n + 1, ts.len() as int),
            body.push(
                if server {
                    ModelItemV::ServerMethod(m)
                } else {
                    ModelItemV::ClientMethod(m)
                },
            ),
            meta,
            Seq::empty(),
        ),
{
    lemma_body_comments_accumulate(ts, i, n, body, meta, Seq::empty());
    assert(Seq::empty() + comment_bodies(ts, i, n) =~= comment_bodies(ts, i, n));
    if server {
        assert(ts[i + n] is Server);
    } else {
        assert(ts[i + n] is Client);
    }
}

/// The token count of one rendered bare-name argument: its identifier and
/// its optional nullable marker.
pub open spec fn arg_len(a: (Seq<char>, bool)) -> int {
    1 + if a.1 {
        1int
    } else {
        0int
    }
}

/// The tokens of a rendered generic-argument list of bare names, starting at
/// `i`: each argument is an identifier with its own optional nullable
/// marker, the arguments are separated by commas, and the list ends with the
/// closing angle bracket.
pub open spec fn args_layout(ts: Seq<TokenV>, i: int, args: Seq<(Seq<char>, bool)>) -> bool
    decreases args.len(),
{
    if args.len() == 0 {
        0 <= i < ts.len() && ts[i] is Gt
    } else {
        let a = args[0];
        &&& 0 <= i
        &&& i + arg_len(a) < ts.len()
        &&& ts[i] == TokenV::Ident(a.0)
        &&& (a.1 ==> ts[i + 1] is Question)
        &&& if args.len() == 1 {
            ts[i + arg_len(a)] is Gt
        } else {
            ts[i + arg_len(a)] is Comma && args_layout(ts, i + arg_len(a) + 1, args.subrange(
                1,
                args.len() as int,
            ))
        }
    }
}

/// The position just past the closing angle bracket of a laid-out argument
/// list.
pub open spec fn args_end(i: int, args: Seq<(Seq<char>, bool)>) -> int
    decreases args.len(),
{
    if args.len() == 0 {
        i + 1
    } else if args.len() == 1 {
        i + arg_len(args[0]) + 1
    } else {
        args_end(i + arg_len(args[0]) + 1, args.subrange(1, args.len() as int))
    }
}

/// The type expressions a list of bare-name arguments renders as.
pub open spec fn args_types(args: Seq<(Seq<char>, bool)>) -> Seq<TypeV> {
    Seq::new(
        args.len(),
        |k: int| TypeV::Ident { name: args[k].0, nullable: args[k].1 },
    )
}

/// A laid-out argument list ends within the token stream.
pub proof fn lemma_args_end_bounds(ts: Seq<TokenV>, i: int, args: Seq<(Seq<char>, bool)>)
    requires
        args_layout(ts, i, args),
    ensures
        i < args_end(i, args) <= ts.len(),
    decreases args.len(),
{
    if args.len() > 1 {
        lemma_args_end_bounds(ts, i + arg_len(args[0]) + 1, args.subrange(1, args.len() as int));
    }
}

/// At the token level, the rendering of a generic-argument list of bare
/// names re-parses to those arguments, each keeping its own nullable marker
/// independently.
pub proof fn lemma_bare_args_reparse(
    ts: Seq<TokenV>,
    i: int,
    args: Seq<(Seq<char>, bool)>,
    acc: Seq<TypeV>,
)
    requires
        args_layout(ts, i, args),
    ensures
        spec_parse_type_list(ts, i, acc) == Ok::<(Seq<TypeV>, int), ()>(
            (acc + args_types(args), args_end(i, args)),
        ),
    decreases args.len(),
{
    if args.len() == 0 {
        assert(acc + args_types(args) =~= acc);
    } else {
        let a = args[0];
        let rest = args.subrange(1, args.len() as int);
        let j = i + arg_len(a);
        lemma_ident_tokens_reparse(ts, i, a.0, a.1);
        assert(advance(j, i + 1, ts.len() as int) == j);
        let t0 = TypeV::Ident { name: a.0, nullable: a.1 };
        if args.len() == 1 {
            assert(acc.push(t0) =~= acc + args_types(args));
        } else {
            assert(args_layout(ts, i + arg_len(args[0]) + 1, args.subrange(
                1,
                args.len() as int,
            )));
            assert(args_layout(ts, j + 1, rest));
            assert(rest.len() >= 1);
            assert(ts[j + 1] == TokenV::Ident(rest[0].0)) by {
                assert(args_layout(ts, j + 1, rest));
            }
            lemma_bare_args_reparse(ts, j + 1, rest, acc.push(t0));
            assert(acc.push(t0) + args_types(rest) =~= acc + args_types(args));
        }
    }
}

/// At the token level, the rendering of a generic type over bare-name
/// arguments re-parses to itself: the head name, the bracketed argument
/// list, the type's own nullable marker, and a terminating token parse back
/// to the same generic type, each argument keeping its own marker.
pub proof fn lemma_generic_tokens_reparse(
    ts: Seq<TokenV>,
    i: int,
    name: Seq<char>,
    nullable: bool,
    args: Seq<(Seq<char>, bool)>,
)
    requires
        0 <= i,
        i + 1 < ts.len(),
        ts[i] == TokenV::Ident(name),
        ts[i + 1] is Lt,
        args_layout(ts, i + 2, args),
        ({
            let e = args_end(i + 2, args) + if nullable { 1int } else { 0int };
            &&& e < ts.len()
            &&& (nullable ==> ts[args_end(i + 2, args)] is Question)
            &&& !(ts[e] is Question)
            &&& !(ts[e] is Ident)
            &&& !(ts[e] is Dot)
            &&& !(ts[e] is Lt)
        }),
    ensures
        ({
            let e = args_end(i + 2, args) + if nullable { 1int } else { 0int };
            spec_parse_type2(ts, i, false, None, None, None) == Ok::<(TypeV, int), ()>(
                (TypeV::Generic { name, nullable, params: args_types(args) }, e),
            )
        }),
{
    let list_end = args_end(i + 2, args);
    let e = list_end + if nullable { 1int } else { 0int };
    lemma_args_end_bounds(ts, i + 2, args);
    lemma_bare_args_reparse(ts, i + 2, args, Seq::empty());
    assert(Seq::empty() + args_types(args) =~= args_types(args));
    assert(spec_parse_generic_params(ts, i + 1) == Ok::<(Seq<TypeV>, int), ()>(
        (args_types(args), list_end),
    ));
    assert(advance(list_end, i + 2, ts.len() as int) == list_end);
    let params = args_types(args);
    assert(spec_parse_type2(ts, i, false, None, None, None) == spec_parse_type2(
        ts,
        i + 1,
        false,
        Some(name),
        None,
        None,
    ));
    assert(spec_parse_type2(ts, i + 1, false, Some(name), None, None) == spec_parse_type2(
        ts,
        list_end,
        false,
        Some(name),
        Some(params),
        None,
    ));
    if nullable {
        assert(spec_parse_type2(ts, list_end, false, Some(name), Some(params), None)
            == spec_parse_type2(ts, e, true, Some(name), Some(params), None));
        assert(spec_parse_type2(ts, e, true, Some(name), Some(params), None) == Ok::<
            (TypeV, int),
            (),
        >((TypeV::Generic { name, nullable: true, params }, e)));
    } else {
        assert(spec_parse_type2(ts, e, false, Some(name), Some(params), None) == Ok::<
            (TypeV, int),
            (),
        >((TypeV::Generic { name, nullable: false, params }, e)));
    }
}

} // verus!
