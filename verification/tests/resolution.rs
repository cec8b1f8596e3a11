//! Tests of identity packing, the resolver and the legacy extraction
//! helpers.

use protolang::extract::{
    build_legacy_enum, build_legacy_model, build_legacy_type, codec_to_type, contains_sub,
    convert_constructor_to_type, extract_constructor_codec, extract_fields, extract_method_ids,
    extract_method_params, extract_model_class, extract_model_id, extract_variants,
    get_types_from_generic, legacy_definition_path, parent_package, parse_id_from_dec_or_hex,
    recover_legacy_definition, LegacyDefinition,
};
use protolang::hl::{Meta, ModelConstructor};
use protolang::ids::{convert_from_id, convert_to_id, wrap_to_u64};
use protolang::lexer::tokenizer;
use protolang::text::replace_all;
use protolang::ast::{Identifier, Type};
use protolang::lower::{model_to_definition, type_to_hl, type_to_hl_codec};
use protolang::span::Positioned;
use protolang::token::Token;
use protolang::ast::ProgramItem;
use protolang::parser::parse_program;
use protolang::resolve::ResolutionContext;

#[test]
fn identity_packs_and_unpacks() {
    assert_eq!(convert_to_id(1, 2), (1i64 << 32) | 2);
    assert_eq!(convert_to_id(-1, -1), -1);
    assert_eq!(convert_from_id(convert_to_id(0x1234_5678, -19)), (0x1234_5678, -19));
    assert_eq!(convert_from_id(-1), (-1, -1));
    assert_eq!(convert_to_id(convert_from_id(213242343).0, convert_from_id(213242343).1),
        213242343);
}

#[test]
fn wrapped_keys_preserve_identity_order() {
    assert_eq!(wrap_to_u64(i64::MIN), 0);
    assert_eq!(wrap_to_u64(-1), 0x7fff_ffff_ffff_ffff);
    assert_eq!(wrap_to_u64(0), 0x8000_0000_0000_0000);
    assert!(wrap_to_u64(-5) < wrap_to_u64(3));
    assert!(wrap_to_u64(3) < wrap_to_u64(i64::MAX));
}

#[test]
fn identity_words_parse_as_decimal_or_hex() {
    assert_eq!(parse_id_from_dec_or_hex("123"), Some(123));
    assert_eq!(parse_id_from_dec_or_hex("-5"), Some(-5));
    assert_eq!(parse_id_from_dec_or_hex("0x1f"), Some(31));
    assert_eq!(parse_id_from_dec_or_hex("0x7fffffff"), Some(i32::MAX));
    assert_eq!(parse_id_from_dec_or_hex("-2147483648"), Some(i32::MIN));
    assert_eq!(parse_id_from_dec_or_hex("2147483648"), None);
    assert_eq!(parse_id_from_dec_or_hex("0xffffffff"), None);
    assert_eq!(parse_id_from_dec_or_hex(""), None);
    assert_eq!(parse_id_from_dec_or_hex("12a"), None);
    assert_eq!(parse_id_from_dec_or_hex("-0x1f"), None);
}

#[test]
fn builtin_wins_over_project_index() {
    let mut ctx = ResolutionContext::new();
    ctx.register_builtin("Instant".to_string(), "kotlinx.datetime.Instant".to_string());
    ctx.register_definition("Instant".to_string(), "project.local.Instant".to_string());
    assert_eq!(ctx.resolve("Instant").unwrap(), "kotlinx.datetime.Instant");
}

#[test]
fn unresolved_symbol_aborts_with_its_name() {
    // A field referencing an undeclared, non-builtin name with no legacy
    // source behind it leaves the run with nothing written.
    let tokens = tokenizer("type T { f: Bogus = 1; }").unwrap();
    let ast = parse_program(&tokens).unwrap();
    let mut ctx = ResolutionContext::new();
    ctx.register_builtin("i32".to_string(), "i32".to_string());
    ctx.register_program_definitions(&ast, "pkg.t");
    let decl = match &ast.body[0] {
        ProgramItem::Type(t) => t,
        _ => unreachable!(),
    };
    let field_type = protolang::lower::type_to_hl(&decl.fields[0].kind);
    let deps = get_types_from_generic(&field_type);
    assert_eq!(deps, vec!["Bogus"]);
    let legacy_sources: Vec<String> = Vec::new();
    let mut failure = None;
    for dep in &deps {
        if ctx.resolve(dep).is_err() {
            let codec_name = format!("Codec{}.as", dep);
            if !legacy_sources.iter().any(|f| f == &codec_name) {
                failure = Some(ctx.resolve(dep).unwrap_err());
                break;
            }
        }
    }
    let err = failure.expect("the unresolved name must abort the run");
    assert_eq!(err.0, "Bogus");
}

#[test]
fn two_pass_index_registers_all_declarations() {
    let source = "model M = 1 { constructor { meta client_package = \"pkg.data\"; \
                  meta client_name = \"MData\"; x: i32 = 1; } } \
                  type T { a: i32 = 1; } enum E : i32 { A = 0; }";
    let tokens = tokenizer(source).unwrap();
    let ast = parse_program(&tokens).unwrap();
    let mut ctx = ResolutionContext::new();
    ctx.register_program_definitions(&ast, "dir.file");
    ctx.register_constructor_aliases(&ast).unwrap();

    assert_eq!(ctx.resolve("M").unwrap(), "dir.fileBase");
    assert_eq!(ctx.resolve("T").unwrap(), "dir.file");
    assert_eq!(ctx.resolve("E").unwrap(), "dir.file");
    assert_eq!(ctx.resolve("M.Constructor").unwrap(), "MData");
    assert_eq!(ctx.resolve("MBase.Constructor").unwrap(), "MData");
    assert_eq!(ctx.resolve("MData").unwrap(), "pkg.data.MData");
    assert!(ctx.resolve("Missing").is_err());

    // The enum registration drives codec classification.
    let model = match &ast.body[0] {
        ProgramItem::Model(m) => m,
        _ => unreachable!(),
    };
    let hl = model_to_definition(model, &ctx.enum_types).unwrap();
    let ctor = hl.constructor.unwrap();
    assert_eq!(ctor.fields[0].codec, "TypeCodecInfo(i32,false)");
}

#[test]
fn constructor_aliases_need_annotations() {
    let source = "model M = 1 { constructor { x: i32 = 1; } }";
    let tokens = tokenizer(source).unwrap();
    let ast = parse_program(&tokens).unwrap();
    let mut ctx = ResolutionContext::new();
    assert!(ctx.register_constructor_aliases(&ast).is_err());
}

#[test]
fn generic_arguments_reduce_to_bare_names() {
    assert_eq!(get_types_from_generic("Map<String, String?>"), vec!["String", "String"]);
    assert_eq!(get_types_from_generic("List<i32>"), vec!["i32"]);
    assert_eq!(get_types_from_generic("Foo?"), vec!["Foo"]);
    assert_eq!(get_types_from_generic("Plain"), vec!["Plain"]);
    assert_eq!(get_types_from_generic("Map<String, List<i32>>"), vec!["String", "i32"]);
    assert_eq!(
        get_types_from_generic("Map<Map<A, B?>, C>"),
        vec!["A", "B", "C"]
    );
}

#[test]
fn model_identity_extracts_from_legacy_source() {
    let content = "public class X {\n   this.modelId = Long.getLong(0x1,2);\n}";
    assert_eq!(extract_model_id(content), Some((1i64 << 32) | 2));
    assert_eq!(extract_model_id("no identity here"), None);
    let negative = "this.modelId = Long.getLong(-1,-1);";
    assert_eq!(extract_model_id(negative), Some(-1));
}

#[test]
fn legacy_markers_are_found_verbatim() {
    assert!(contains_sub("class A {[ModelInfo] }", "[ModelInfo]"));
    assert!(!contains_sub("class A { }", "[ModelInfo]"));
    assert!(contains_sub("void f(){ switch(x) {} }", " switch("));
}

#[test]
fn constructors_convert_to_types_by_client_name() {
    let ctor = ModelConstructor {
        fields: vec![],
        meta: vec![Meta { key: "client_name".to_string(), value: "MData".to_string() }],
        comments: vec!["kept".to_string()],
    };
    let t = convert_constructor_to_type(ctor).unwrap();
    assert_eq!(t.name, "MData");
    assert_eq!(t.comments, vec!["kept"]);

    let bare = ModelConstructor { fields: vec![], meta: vec![], comments: vec![] };
    assert!(convert_constructor_to_type(bare).is_err());
}

#[test]
fn legacy_fields_extract_in_order() {
    let content = "this.codec_health = param1.getCodec(TypeCodecInfo(Int,false));\n\
                   this.codec_name = param1.getCodec(TypeCodecInfo(String,true));\n\
                   var unrelated = 1;\n";
    let fields = extract_fields(content);
    assert_eq!(fields.len(), 2);
    assert_eq!(fields[0].0, "health");
    assert_eq!(fields[0].1, "TypeCodecInfo(Int,false)");
    assert_eq!(fields[1].0, "name");
    assert_eq!(fields[1].1, "TypeCodecInfo(String,true)");
    assert_eq!(extract_fields("nothing to see").len(), 0);
}

#[test]
fn legacy_variants_extract_in_order() {
    let content = "switch(param1) {\ncase 0: local2 = Mode.FIRST;\n\
                   case 1: local2 = Mode.SECOND;\ndefault: break;\n}";
    let variants = extract_variants(content).unwrap();
    assert_eq!(variants.len(), 2);
    assert_eq!(variants[0].0, "FIRST");
    assert_eq!(variants[0].1, 0);
    assert_eq!(variants[1].0, "SECOND");
    assert_eq!(variants[1].1, 1);
}

#[test]
fn codec_descriptors_render_back_to_signatures() {
    let ctx = ResolutionContext::new();
    let scalar = codec_to_type("TypeCodecInfo(Int,false)", false, &ctx.model_types).unwrap();
    assert_eq!(scalar, "i32");
    let list_descriptor = "CollectionCodecInfo(TypeCodecInfo(Long,true),false,1)";
    let list = codec_to_type(list_descriptor, false, &ctx.model_types).unwrap();
    assert_eq!(list, "List<i64?>");
    let map_descriptor = "MapCodecInfo(TypeCodecInfo(String,false),EnumCodecInfo(Date,true),false)";
    let map = codec_to_type(map_descriptor, false, &ctx.model_types).unwrap();
    assert_eq!(map, "Map<String, Instant?>");
    assert!(codec_to_type("garbage", false, &ctx.model_types).is_err());
    assert!(codec_to_type("TypeCodecInfo(Int,false)x", false, &ctx.model_types).is_err());
}

#[test]
fn constructor_classes_render_as_model_references() {
    let mut ctx = ResolutionContext::new();
    ctx.model_types.insert("SusData".to_string(), "SusModel".to_string());
    assert_eq!(
        codec_to_type("TypeCodecInfo(SusData,false)", false, &ctx.model_types).unwrap(),
        "SusModel.Constructor"
    );
    assert_eq!(
        codec_to_type("TypeCodecInfo(SusData,false)", true, &ctx.model_types).unwrap(),
        "SusData"
    );
}

fn nullable_ident(name: &str) -> Type {
    let marker = Some(Positioned::identity(Token::Question));
    Type::Ident { ty: Positioned::identity(Identifier(name.to_string())), nullable: marker }
}

// The forward renderer and the extraction-side reader meet byte for byte on
// the descriptor grammar.
#[test]
fn descriptor_directions_agree() {
    let ctx = ResolutionContext::new();
    let params = vec![nullable_ident("i64")];
    let head = Positioned::identity(Identifier("List".to_string()));
    let t = Type::Generic { ty: head, nullable: None, params };
    let descriptor = type_to_hl_codec(&t, &ctx.enum_types).unwrap();
    assert_eq!(descriptor, "CollectionCodecInfo(TypeCodecInfo(i64,true),false,1)");
    let back = codec_to_type(&descriptor, true, &ctx.model_types).unwrap();
    assert_eq!(back, type_to_hl(&t));
}

#[test]
fn legacy_method_identities_extract_in_order() {
    let content = "this.modelId = Long.getLong(0x1,0x2);\n\
                   this._fooId = Long.getLong(3,4);\n\
                   this._barId = Long.getLong(-1,0x10);\n\
                   this._bar_xCodec = this.protocol.getCodec(TypeCodecInfo(Int,false));\n";
    let methods = extract_method_ids(content);
    assert_eq!(methods.len(), 2);
    assert_eq!(methods[0].0, "foo");
    assert_eq!((methods[0].1, methods[0].2), (3, 4));
    assert_eq!(methods[1].0, "bar");
    assert_eq!((methods[1].1, methods[1].2), (-1, 16));
    assert_eq!(
        protolang::ids::convert_to_id(methods[0].1, methods[0].2),
        (3i64 << 32) | 4
    );
}

#[test]
fn legacy_class_headers_extract_their_names() {
    let content = "package a.b;\npublic class TankModel extends TankModelBase \
                   implements ITankModelBase {\n}";
    let header = extract_model_class(content).unwrap();
    assert_eq!(header.0, "TankModel");
    assert_eq!(header.1, "TankModelBase");
    assert_eq!(header.2, "ITankModelBase");
    assert!(extract_model_class("no class header").is_none());
}

#[test]
fn variant_values_must_fit_an_identity() {
    let oversized = "case 99999999999999999999: local2 = Mode.HUGE;";
    assert!(extract_variants(oversized).is_err());
}

#[test]
fn legacy_method_parameters_extract_per_side() {
    let content = "this._moveId = Long.getLong(1,2);\n\
                   this._move_xCodec = this._protocol.getCodec(TypeCodecInfo(Int,false));\n\
                   this._move_yCodec = this._protocol.getCodec(TypeCodecInfo(Long,true));\n\
                   this._fire_atCodec = this.protocol.getCodec(TypeCodecInfo(String,false));\n";
    let client = extract_method_params(content, false);
    assert_eq!(client.len(), 2);
    assert_eq!(client[0].0, "move");
    assert_eq!(client[0].1, "x");
    assert_eq!(client[0].2, "TypeCodecInfo(Int,false)");
    assert_eq!(client[1].1, "y");
    let server = extract_method_params(content, true);
    assert_eq!(server.len(), 1);
    assert_eq!(server[0].0, "fire");
    assert_eq!(server[0].1, "at");
    assert_eq!(server[0].2, "TypeCodecInfo(String,false)");
}

#[test]
fn legacy_constructor_codecs_extract_their_descriptor() {
    let content = "void f() {\n\
        registerModelConstructorCodec(this.modelId,this._protocol.getCodec(TypeCodecInfo(SusData,false)));\n\
    }";
    let codec = extract_constructor_codec(content).unwrap();
    assert_eq!(codec, "TypeCodecInfo(SusData,false)");
    assert!(extract_constructor_codec("nothing registered").is_none());
}

#[test]
fn legacy_types_assemble_from_extracted_fields() {
    let ctx = ResolutionContext::new();
    let pairs = vec![
        ("health".to_string(), "TypeCodecInfo(Int,false)".to_string()),
        ("tags".to_string(), "CollectionCodecInfo(TypeCodecInfo(String,true),false,1)".to_string()),
    ];
    let t = build_legacy_type("Profile", &pairs, "pkg.data", &ctx.model_types).unwrap();
    assert_eq!(t.name, "Profile");
    assert_eq!(t.fields.len(), 2);
    assert_eq!(t.fields[0].name, "health");
    assert_eq!(t.fields[0].kind, "i32");
    assert_eq!(t.fields[0].position, 1);
    assert_eq!(t.fields[1].kind, "List<String?>");
    assert_eq!(t.fields[1].position, 2);
    assert_eq!(t.meta[0].key, "client_package");
    assert_eq!(t.meta[0].value, "pkg.data");
    assert_eq!(t.meta[1].key, "client_name");
    assert_eq!(t.meta[1].value, "Profile");

    let broken = vec![("bad".to_string(), "garbage".to_string())];
    assert!(build_legacy_type("Profile", &broken, "pkg", &ctx.model_types).is_err());
}

#[test]
fn legacy_enums_assemble_over_i32() {
    let pairs = vec![("FIRST".to_string(), 0i64), ("SECOND".to_string(), 1i64)];
    let e = build_legacy_enum("Mode", &pairs, "pkg.data");
    assert_eq!(e.name, "Mode");
    assert_eq!(e.repr, "i32");
    assert_eq!(e.variants.len(), 2);
    assert_eq!(e.variants[1].name, "SECOND");
    assert_eq!(e.variants[1].value, 1);
}

#[test]
fn legacy_models_assemble_with_packed_identities() {
    let ctx = ResolutionContext::new();
    let client_ids = vec![("move".to_string(), 1i32, 2i32)];
    let client_params = vec![
        ("move".to_string(), "x".to_string(), "TypeCodecInfo(Int,false)".to_string()),
    ];
    let server_ids = vec![("fire".to_string(), 0i32, -1i32)];
    let server_params: Vec<(String, String, String)> = Vec::new();
    let m = build_legacy_model(
        "TankModel",
        (3i64 << 32) | 4,
        &client_ids,
        &client_params,
        &server_ids,
        &server_params,
        None,
        &ctx.model_types,
        "pkg.battle",
    )
    .unwrap();
    assert_eq!(m.name, "TankModel");
    assert_eq!(m.id, (3i64 << 32) | 4);
    assert_eq!(m.client_methods.len(), 1);
    assert_eq!(m.client_methods[0].id, (1i64 << 32) | 2);
    assert_eq!(m.client_methods[0].params.len(), 1);
    assert_eq!(m.client_methods[0].params[0].kind, "i32");
    assert_eq!(m.server_methods[0].id, 0x0000_0000_ffff_ffffi64);

    let orphan = vec![
        ("ghost_method".to_string(), "x".to_string(), "TypeCodecInfo(Int,false)".to_string()),
    ];
    assert!(build_legacy_model("T", 1, &client_ids, &orphan, &server_ids, &server_params, None,
        &ctx.model_types, "pkg").is_err());
}

#[test]
fn legacy_model_index_renames_constructor_classes() {
    let mut ctx = ResolutionContext::new();
    ctx.register_legacy_model("TankModelBase", "TankData".to_string());
    assert_eq!(
        codec_to_type("TypeCodecInfo(TankData,false)", false, &ctx.model_types).unwrap(),
        "TankModel.Constructor"
    );
}

#[test]
fn recovery_registers_and_returns_dependencies() {
    let mut ctx = ResolutionContext::new();
    ctx.register_builtin("String".to_string(), "String".to_string());
    ctx.register_existing("Int".to_string());
    let type_source = "this.codec_owner = param1.getCodec(TypeCodecInfo(UserLabel,false));\n\
                       this.codec_age = param1.getCodec(TypeCodecInfo(Int,false));\n";
    let recovered = recover_legacy_definition(
        &mut ctx,
        "Profile",
        "pkg.data.Profile".to_string(),
        "pkg.data",
        type_source,
    )
    .unwrap();
    match recovered.0 {
        LegacyDefinition::Type(t) => {
            assert_eq!(t.name, "Profile");
            assert_eq!(t.fields[0].kind, "UserLabel");
        },
        _ => unreachable!(),
    }
    assert_eq!(recovered.1, vec!["UserLabel", "i32"]);
    assert_eq!(ctx.resolve("Profile").unwrap(), "pkg.data.Profile");

    let enum_source = "void c(x) { switch(x) {\ncase 0: v = Mode.OFF;\ncase 1: v = Mode.ON;\n} }";
    let recovered = recover_legacy_definition(
        &mut ctx,
        "Mode",
        "pkg.data.Mode".to_string(),
        "pkg.data",
        enum_source,
    )
    .unwrap();
    match recovered.0 {
        LegacyDefinition::Enum(e) => {
            assert_eq!(e.variants.len(), 2);
            assert_eq!(e.variants[0].name, "OFF");
        },
        _ => unreachable!(),
    }
    assert_eq!(recovered.1.len(), 0);
    // The recovered enum name now classifies codecs.
    assert_eq!(
        type_to_hl_codec(&nullable_ident("Mode"), &ctx.enum_types).unwrap(),
        "EnumCodecInfo(Mode,true)"
    );
}

#[test]
fn legacy_paths_lose_their_codec_stem() {
    assert_eq!(legacy_definition_path("pkg/data/CodecProfile.as"), "pkg.data.Profile");
    assert_eq!(legacy_definition_path("pkg/data/Profile.as"), "pkg.data.Profile");
    assert_eq!(legacy_definition_path("CodecMode.as"), "Mode");
    assert_eq!(parent_package("pkg.data.Profile"), "pkg.data");
    assert_eq!(parent_package("Profile"), "");
}

#[test]
fn replacement_rewrites_every_occurrence() {
    assert_eq!(replace_all("TankModelBase", "ModelBase", "Model"), "TankModel");
    assert_eq!(replace_all("a/b/c.proto", ".proto", ""), "a/b/c");
    assert_eq!(replace_all("xx", "x", "yx"), "yxyx");
    assert_eq!(replace_all("abc", "z", "q"), "abc");
}

