//! Tests of the signature renderer, the codec renderer and the lowering
//! helpers.

use protolang::ast::{CommentLit, Identifier, Type};
use protolang::lower::{convert_comments, type_to_hl, type_to_hl_codec};
use protolang::resolve::ResolutionContext;
use protolang::span::Positioned;
use protolang::token::Token;

fn ident(name: &str) -> Type {
    Type::Ident {
        ty: Positioned::identity(Identifier(name.to_string())),
        nullable: None,
    }
}

fn ident_nullable(name: &str) -> Type {
    Type::Ident {
        ty: Positioned::identity(Identifier(name.to_string())),
        nullable: Some(Positioned::identity(Token::Question)),
    }
}

fn generic(name: &str, nullable: bool, params: Vec<Type>) -> Type {
    Type::Generic {
        ty: Positioned::identity(Identifier(name.to_string())),
        nullable: if nullable {
            Some(Positioned::identity(Token::Question))
        } else {
            None
        },
        params,
    }
}

#[test]
fn type_to_string() {
    assert_eq!(
        type_to_hl(&Type::Ident {
            ty: Positioned::identity(Identifier("String".to_owned())),
            nullable: None
        }),
        "String"
    );
    assert_eq!(
        type_to_hl(&Type::Ident {
            ty: Positioned::identity(Identifier("String".to_owned())),
            nullable: Some(Positioned::identity(Token::Question))
        }),
        "String?"
    );
    assert_eq!(
        type_to_hl(&Type::Generic {
            ty: Positioned::identity(Identifier("ZeroParam".to_owned())),
            nullable: None,
            params: vec![]
        }),
        "ZeroParam<>"
    );
    assert_eq!(
        type_to_hl(&Type::Generic {
            ty: Positioned::identity(Identifier("ZeroParam".to_owned())),
            nullable: Some(Positioned::identity(Token::Question)),
            params: vec![]
        }),
        "ZeroParam<>?"
    );

    assert_eq!(
        type_to_hl(&Type::Generic {
            ty: Positioned::identity(Identifier("OneParam".to_owned())),
            nullable: None,
            params: vec![Type::Ident {
                ty: Positioned::identity(Identifier("String".to_owned())),
                nullable: None
            }],
        }),
        "OneParam<String>"
    );
    assert_eq!(
        type_to_hl(&Type::Generic {
            ty: Positioned::identity(Identifier("OneParam".to_owned())),
            nullable: Some(Positioned::identity(Token::Question)),
            params: vec![Type::Ident {
                ty: Positioned::identity(Identifier("String".to_owned())),
                nullable: None
            }],
        }),
        "OneParam<String>?"
    );
    assert_eq!(
        type_to_hl(&Type::Generic {
            ty: Positioned::identity(Identifier("OneParam".to_owned())),
            nullable: None,
            params: vec![Type::Ident {
                ty: Positioned::identity(Identifier("String".to_owned())),
                nullable: Some(Positioned::identity(Token::Question))
            }],
        }),
        "OneParam<String?>"
    );
    assert_eq!(
        type_to_hl(&Type::Generic {
            ty: Positioned::identity(Identifier("OneParam".to_owned())),
            nullable: Some(Positioned::identity(Token::Question)),
            params: vec![Type::Ident {
                ty: Positioned::identity(Identifier("String".to_owned())),
                nullable: Some(Positioned::identity(Token::Question))
            }],
        }),
        "OneParam<String?>?"
    );

    assert_eq!(
        type_to_hl(&Type::Generic {
            ty: Positioned::identity(Identifier("TwoParam".to_owned())),
            nullable: None,
            params: vec![
                Type::Ident {
                    ty: Positioned::identity(Identifier("A".to_owned())),
                    nullable: None
                },
                Type::Ident {
                    ty: Positioned::identity(Identifier("B".to_owned())),
                    nullable: None
                },
            ],
        }),
        "TwoParam<A, B>"
    );

    assert_eq!(
        type_to_hl(&Type::Generic {
            ty: Positioned::identity(Identifier("TwoParam".to_owned())),
            nullable: Some(Positioned::identity(Token::Question)),
            params: vec![
                Type::Ident {
                    ty: Positioned::identity(Identifier("A".to_owned())),
                    nullable: Some(Positioned::identity(Token::Question))
                },
                Type::Ident {
                    ty: Positioned::identity(Identifier("B".to_owned())),
                    nullable: None
                },
            ],
        }),
        "TwoParam<A?, B>?"
    );
}

#[test]
fn nested_signature_renders_dotted() {
    let t = Type::Nested {
        ty: Box::new(ident_nullable("Outer")),
        inner: Box::new(ident("Inner")),
    };
    assert_eq!(type_to_hl(&t), "Outer?.Inner");
}

#[test]
fn codec_of_bare_type() {
    let ctx = ResolutionContext::new();
    assert_eq!(
        type_to_hl_codec(&ident("i32"), &ctx.enum_types).unwrap(),
        "TypeCodecInfo(i32,false)"
    );
    assert_eq!(
        type_to_hl_codec(&ident_nullable("String"), &ctx.enum_types).unwrap(),
        "TypeCodecInfo(String,true)"
    );
}

#[test]
fn codec_classifies_registered_enums() {
    let mut ctx = ResolutionContext::new();
    ctx.register_enum_name("Mode".to_string());
    assert_eq!(
        type_to_hl_codec(&ident("Mode"), &ctx.enum_types).unwrap(),
        "EnumCodecInfo(Mode,false)"
    );
    assert_eq!(
        type_to_hl_codec(&ident("Other"), &ctx.enum_types).unwrap(),
        "TypeCodecInfo(Other,false)"
    );
}

#[test]
fn codec_of_list_and_map() {
    let ctx = ResolutionContext::new();
    let list = generic("List", false, vec![ident("i32")]);
    assert_eq!(
        type_to_hl_codec(&list, &ctx.enum_types).unwrap(),
        "CollectionCodecInfo(TypeCodecInfo(i32,false),false,1)"
    );
    let map = generic("Map", true, vec![ident("String"), ident_nullable("i64")]);
    assert_eq!(
        type_to_hl_codec(&map, &ctx.enum_types).unwrap(),
        "MapCodecInfo(TypeCodecInfo(String,false),TypeCodecInfo(i64,true),true)"
    );
}

#[test]
fn codec_of_dotted_reference_qualifies_inner_name() {
    let ctx = ResolutionContext::new();
    let t = Type::Nested {
        ty: Box::new(ident("SomeModel")),
        inner: Box::new(ident_nullable("Constructor")),
    };
    assert_eq!(
        type_to_hl_codec(&t, &ctx.enum_types).unwrap(),
        "TypeCodecInfo(SomeModel.Constructor,true)"
    );
}

#[test]
fn codec_rejects_unsupported_generics() {
    let ctx = ResolutionContext::new();
    let t = generic("Box", false, vec![ident("i32")]);
    assert!(type_to_hl_codec(&t, &ctx.enum_types).is_err());
}

#[test]
fn comments_lose_marker_and_whitespace() {
    let comments = vec![
        CommentLit("// first line \n".to_string()),
        CommentLit("//\tsecond\n".to_string()),
        CommentLit("//".to_string()),
    ];
    let stripped = convert_comments(&comments);
    assert_eq!(stripped, vec!["first line", "second", ""]);
}
