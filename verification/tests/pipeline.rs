//! End-to-end tests: lexing, parsing and lowering whole sources.

use protolang::ast::{ProgramItem, Type};
use protolang::lexer::tokenizer;
use protolang::lower::{model_to_definition, type_to_definition, type_to_hl};
use protolang::parser::parse_program;
use protolang::resolve::ResolutionContext;
use protolang::token::Token;

#[test]
fn it_works() {
    let tokens = tokenizer(
        r#"
      /// Example model
      /// that demonstrates parser's abilities
      model SusModel = 213242343 {
        meta client_name = "SusModel";

        /// Comment for
        /// required SusEntity
        required entity SusEntity;

        /// Comment for constructor
        constructor {
          meta client_name = "SusData";

          /// Comment for constructor field
          /// CTOR FIELD 1 of type i32
          CTORFIELD1: i32 = 1;
        }

        /// This tests
        /// client ABC
        server ABC() = 1245;
        client DEF() = 6789;
        client GHI(time: i32) = 101112;
        /// AAA
        /// BBB
        ///
        client JKL(param1: i8, param2: Map<String, String<String?>?>) = 1011412;
        // client JKL(param1: i8 param2: i16) = 1011412;
      }

      /// Example type
      /// that generates codec
      type SusType {
        /// Example field with position 1
        field1: i32 = 1;
        /// Second field
        field2: Map<String, String<String?>?> = 2;
      }

      // Example enum
      enum SusEnum : i32 {
        // Default value
        A = 0;
        B = 1;
        // Special behaviour
        C = 2;
      }
    "#,
    )
    .unwrap();
    for token in &tokens {
        println!("{:?}", token);
    }

    let ast = parse_program(&tokens).unwrap();
    println!("{:?}", ast);

    let model = match &ast.body[0] {
        ProgramItem::Model(model) => model,
        _ => unreachable!(),
    };
    let ctx = ResolutionContext::new();
    let definition = model_to_definition(model, &ctx.enum_types);
    println!("{:?}", definition);
}

#[test]
fn model_scenario_lowers_client_method() {
    let tokens = tokenizer("model M = 42 { client foo(x: i32) = 7; }").unwrap();
    assert!(tokens.len() >= 16);
    let ast = parse_program(&tokens).unwrap();
    assert_eq!(ast.body.len(), 1);
    let model = match &ast.body[0] {
        ProgramItem::Model(m) => m,
        _ => unreachable!(),
    };
    assert_eq!(model.name.value.0, "M");
    assert_eq!(model.id.value.0, 42);
    let ctx = ResolutionContext::new();
    let hl = model_to_definition(model, &ctx.enum_types).unwrap();
    assert_eq!(hl.name, "M");
    assert_eq!(hl.id, 42);
    assert!(hl.constructor.is_none());
    assert_eq!(hl.server_methods.len(), 0);
    assert_eq!(hl.client_methods.len(), 1);
    let foo = &hl.client_methods[0];
    assert_eq!(foo.name, "foo");
    assert_eq!(foo.id, 7);
    assert_eq!(foo.params.len(), 1);
    assert_eq!(foo.params[0].name, "x");
    assert_eq!(foo.params[0].kind, "i32");
    assert_eq!(foo.params[0].codec, "TypeCodecInfo(i32,false)");
}

#[test]
fn type_scenario_lowers_map_field() {
    let tokens = tokenizer("type T { a: i32 = 1; b: Map<String, String?> = 2; }").unwrap();
    let ast = parse_program(&tokens).unwrap();
    let decl = match &ast.body[0] {
        ProgramItem::Type(t) => t,
        _ => unreachable!(),
    };
    let ctx = ResolutionContext::new();
    let hl = type_to_definition(decl, &ctx.enum_types).unwrap();
    assert_eq!(hl.name, "T");
    assert_eq!(hl.fields.len(), 2);
    assert_eq!(hl.fields[0].kind, "i32");
    assert_eq!(hl.fields[0].position, 1);
    assert_eq!(hl.fields[1].name, "b");
    assert_eq!(hl.fields[1].kind, "Map<String, String?>");
    assert_eq!(
        hl.fields[1].codec,
        "MapCodecInfo(TypeCodecInfo(String,false),TypeCodecInfo(String,true),false)"
    );
    assert_eq!(hl.fields[1].position, 2);
}

fn signature_round_trip(sig: &str) {
    let source = format!("type T {{ x: {} = 1; }}", sig);
    let tokens = tokenizer(&source).unwrap();
    let ast = parse_program(&tokens).unwrap();
    let decl = match &ast.body[0] {
        ProgramItem::Type(t) => t,
        _ => unreachable!(),
    };
    assert_eq!(type_to_hl(&decl.fields[0].kind), sig);
}

#[test]
fn signatures_survive_relexing_and_reparsing() {
    signature_round_trip("String");
    signature_round_trip("String?");
    signature_round_trip("List<i32>");
    signature_round_trip("List<i32?>?");
    signature_round_trip("Map<String, List<i64?>>");
    signature_round_trip("Outer.Inner");
    signature_round_trip("Outer?.Inner?");
    signature_round_trip("Wrap<A, B?>?.Deep<C>");
}

#[test]
fn doc_comments_attach_to_next_declaration() {
    let source = "/// one\n/// two\n// noise between\n\ntype T { x: i32 = 1; }";
    let tokens = tokenizer(source).unwrap();
    let ast = parse_program(&tokens).unwrap();
    let decl = match &ast.body[0] {
        ProgramItem::Type(t) => t,
        _ => unreachable!(),
    };
    let ctx = ResolutionContext::new();
    let hl = type_to_definition(decl, &ctx.enum_types).unwrap();
    assert_eq!(hl.comments, vec!["one", "two"]);
}

#[test]
fn meta_line_discards_buffered_comments() {
    let source = "/// lost\nmeta key = \"value\";\ntype T { x: i32 = 1; }";
    let tokens = tokenizer(source).unwrap();
    let ast = parse_program(&tokens).unwrap();
    assert_eq!(ast.body.len(), 2);
    let decl = match &ast.body[1] {
        ProgramItem::Type(t) => t,
        _ => unreachable!(),
    };
    let ctx = ResolutionContext::new();
    let hl = type_to_definition(decl, &ctx.enum_types).unwrap();
    assert_eq!(hl.comments.len(), 0);
}

#[test]
fn field_comments_attach_per_field() {
    let source = "type T { /// first\n a: i32 = 1; /// second\n /// more\n b: i64 = 2; }";
    let tokens = tokenizer(source).unwrap();
    let ast = parse_program(&tokens).unwrap();
    let decl = match &ast.body[0] {
        ProgramItem::Type(t) => t,
        _ => unreachable!(),
    };
    let ctx = ResolutionContext::new();
    let hl = type_to_definition(decl, &ctx.enum_types).unwrap();
    assert_eq!(hl.fields[0].comments, vec!["first"]);
    assert_eq!(hl.fields[1].comments, vec!["second", "more"]);
}

#[test]
fn keyword_needs_trailing_space() {
    // A keyword spelled at end-of-input or before punctuation lexes as a
    // plain identifier.
    let tokens = tokenizer("model").unwrap();
    assert_eq!(tokens.len(), 1);
    assert!(matches!(&tokens[0].value, Token::Ident(s) if s == "model"));

    let tokens = tokenizer("model(").unwrap();
    assert_eq!(tokens.len(), 2);
    assert!(matches!(&tokens[0].value, Token::Ident(s) if s == "model"));
}

#[test]
fn string_literals_have_no_escapes() {
    let tokens = tokenizer("\"a b\"").unwrap();
    assert_eq!(tokens.len(), 1);
    assert!(matches!(&tokens[0].value, Token::String(s) if s == "a b"));
}

#[test]
fn lexer_reports_unrecognized_character() {
    let err = tokenizer("ab @").unwrap_err();
    assert_eq!(err.message(), "unrecognized character @ (position: 3, 0:2)");
}

#[test]
fn lexer_rejects_oversized_numbers() {
    let err = tokenizer("99999999999999999999").unwrap_err();
    assert_eq!(
        err.message(),
        "number literal out of range (position: 0, 0:0)"
    );
}

#[test]
fn parser_rejects_truncated_declarations() {
    let tokens = tokenizer("model M = 1 {").unwrap();
    assert!(parse_program(&tokens).is_err());
    let tokens = tokenizer("type T { x: = 1; }").unwrap();
    assert!(parse_program(&tokens).is_err());
}

#[test]
fn parser_rejects_trailing_separators() {
    let tokens = tokenizer("model M = 1 { client f(a: i32, ) = 2; }").unwrap();
    assert!(parse_program(&tokens).is_err());
    let tokens = tokenizer("type T { x: Map<A, > = 1; }").unwrap();
    assert!(parse_program(&tokens).is_err());
}

#[test]
fn empty_generic_parameter_lists_parse() {
    let tokens = tokenizer("type T { x: Zero<> = 1; }").unwrap();
    let ast = parse_program(&tokens).unwrap();
    let decl = match &ast.body[0] {
        ProgramItem::Type(t) => t,
        _ => unreachable!(),
    };
    match &decl.fields[0].kind {
        Type::Generic { ty, params, .. } => {
            assert_eq!(ty.value.0, "Zero");
            assert_eq!(params.len(), 0);
        },
        _ => unreachable!(),
    }
    assert_eq!(type_to_hl(&decl.fields[0].kind), "Zero<>");
}
