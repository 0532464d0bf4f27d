use iroha_derive::DataDecl;
use iroha_derive::DelimKind;
use iroha_derive::DeriveError;
use iroha_derive::FieldDecl;
use iroha_derive::FieldsDecl;
use iroha_derive::IntTy;
use iroha_derive::StructStructure;
use iroha_derive::StructType;
use iroha_derive::Tok;
use iroha_derive::TyShape;
use iroha_derive::TypeDecl;
use iroha_derive::Value;
use iroha_derive::reconstruct;
use iroha_derive::render;
use iroha_derive::tokenize;
use iroha_derive::tokenize_record;

fn named(name: &str, ty: &str) -> FieldDecl {
    FieldDecl { name: Some(name.to_string()), ty: ty.to_string() }
}

fn unnamed(ty: &str) -> FieldDecl {
    FieldDecl { name: None, ty: ty.to_string() }
}

fn shape(ident: &str, fields: FieldsDecl, mod_path: Option<&str>) -> StructStructure {
    let decl = TypeDecl { ident: ident.to_string(), data: DataDecl::StructData(fields) };
    StructStructure::from_ast(&decl, mod_path.map(|p| p.to_string())).unwrap()
}

#[test]
fn test_unit() {
    let unit = shape("TestUnit", FieldsDecl::Unit, None);
    assert_eq!(render(&tokenize_record(&unit, &vec![])), "TestUnit::new()");

    let tuple = shape(
        "TestTuple",
        FieldsDecl::Unnamed(vec![unnamed("i32"), unnamed("i64"), unnamed("Vec<u8>")]),
        None,
    );
    let values = vec![
        Value::IntV(IntTy::I32, 1),
        Value::IntV(IntTy::I64, -1),
        Value::ListV(vec![
            Value::IntV(IntTy::U8, 1),
            Value::IntV(IntTy::U8, 2),
            Value::IntV(IntTy::U8, 3),
        ]),
    ];
    assert_eq!(
        render(&tokenize_record(&tuple, &values)),
        "TestTuple::new(1i32,-1i64,vec![1u8,2u8,3u8])"
    );
}

#[test]
fn test_struct() {
    let st = shape(
        "TestStruct",
        FieldsDecl::Named(vec![
            named("basic", "i32"),
            named("vec", "Vec<i64>"),
            named("string", "String"),
            named("vec_string", "Vec<String>"),
            named("option_string", "Option<String>"),
            named("option_string_none", "Option<String>"),
            named("result", "Result<String, TokenizableError>"),
            named("map", "HashMap<usize, String>"),
            named("hash_set", "HashSet<String>"),
            named("str", "&'static str"),
        ]),
        Some("test"),
    );
    let values = vec![
        Value::IntV(IntTy::I32, 0),
        Value::ListV(vec![
            Value::IntV(IntTy::I64, 1),
            Value::IntV(IntTy::I64, 2),
            Value::IntV(IntTy::I64, 3),
        ]),
        Value::StrV("iroha".to_string()),
        Value::ListV(vec![
            Value::StrV("yuikino".to_string()),
            Value::StrV("yui".to_string()),
            Value::StrV("iroha".to_string()),
        ]),
        Value::SomeV(Box::new(Value::StrV("iroha".to_string()))),
        Value::NoneV,
        Value::OkV(Box::new(Value::StrV("233".to_string()))),
        Value::MapV(vec![
            (Value::IntV(IntTy::Usize, 1), Value::StrV("yuikino".to_string())),
            (Value::IntV(IntTy::Usize, 2), Value::StrV("yui".to_string())),
        ]),
        Value::SetV(vec![
            Value::StrV("yuikino".to_string()),
            Value::StrV("yui".to_string()),
            Value::StrV("iroha".to_string()),
        ]),
        Value::StrV("test".to_string()),
    ];
    let result = render(&tokenize_record(&st, &values));
    println!("{}", result);
    assert!(result.starts_with("test::TestStruct::new("));
}

#[test]
fn no_field_case() {
    let unit = shape("Unit", FieldsDecl::Unit, None);
    assert_eq!(render(&tokenize_record(&unit, &vec![])), "Unit::new()");
}

#[test]
fn positional_pair_scenario() {
    let pair = shape("Pair", FieldsDecl::Unnamed(vec![unnamed("i32"), unnamed("i64")]), None);
    let values = vec![Value::IntV(IntTy::I32, 1), Value::IntV(IntTy::I64, -1)];
    assert_eq!(render(&tokenize_record(&pair, &values)), "Pair::new(1i32,-1i64)");
}

#[test]
fn absent_optional_scenario() {
    let st = shape("Holder", FieldsDecl::Named(vec![named("inner", "Option<String>")]), None);
    let values = vec![Value::NoneV];
    assert_eq!(render(&tokenize_record(&st, &values)), "Holder::new(None)");
}

#[test]
fn qualifying_path_scenario() {
    let with = shape("TypeName", FieldsDecl::Named(vec![named("basic", "i32")]), Some("test"));
    let values = vec![Value::IntV(IntTy::I32, 7)];
    assert_eq!(render(&tokenize_record(&with, &values)), "test::TypeName::new(7i32)");

    let without = shape("TypeName", FieldsDecl::Named(vec![named("basic", "i32")]), None);
    assert_eq!(render(&tokenize_record(&without, &values)), "TypeName::new(7i32)");
}

#[test]
fn rejects_non_record() {
    let decl = TypeDecl { ident: "Choice".to_string(), data: DataDecl::EnumData };
    match StructStructure::from_ast(&decl, None) {
        Err(DeriveError::NotARecord(ident)) => assert_eq!(ident, "Choice"),
        Ok(_) => panic!("an enum declaration must be rejected"),
    }
}

#[test]
fn extraction_classifies_layouts() {
    let unit = shape("A", FieldsDecl::Unit, None);
    assert!(matches!(unit.struct_type, StructType::NoField));
    assert!(unit.fields.is_none());

    let tuple = shape("B", FieldsDecl::Unnamed(vec![unnamed("u8")]), None);
    assert!(matches!(tuple.struct_type, StructType::Tuple));
    assert_eq!(tuple.fields.as_ref().unwrap().len(), 1);
    assert_eq!(tuple.fields.as_ref().unwrap()[0].index, 0);

    let named_shape = shape("C", FieldsDecl::Named(vec![named("x", "u8"), named("y", "u8")]), None);
    assert!(matches!(named_shape.struct_type, StructType::Struct));
    assert_eq!(named_shape.fields.as_ref().unwrap()[1].index, 1);
}

#[test]
fn field_model_texts() {
    let decl = shape(
        "D",
        FieldsDecl::Named(vec![named("alpha", "u32")]),
        None,
    );
    let f = &decl.fields.as_ref().unwrap()[0];
    assert_eq!(f.get_temp_value_ident(), "alpha");
    assert_eq!(render(&f.get_ident()), "self.alpha");
    assert_eq!(render(&f.get_construct_param()), "alpha:u32");

    let pos = shape("E", FieldsDecl::Unnamed(vec![unnamed("u32")]), None);
    let g = &pos.fields.as_ref().unwrap()[0];
    assert_eq!(g.get_temp_value_ident(), "field_0");
    assert_eq!(render(&g.get_ident()), "self.0");
}

#[test]
fn binding_statement_forwards_wrapped_expression() {
    let decl = shape("F", FieldsDecl::Named(vec![named("beta", "u8")]), None);
    let f = &decl.fields.as_ref().unwrap()[0];
    let wrapped = vec![Tok::Verbatim("wrap(self.beta)".to_string())];
    assert_eq!(render(&f.temp_value_token_stream(&wrapped)), "letbeta=wrap(self.beta)");
}

#[test]
fn get_params_brackets_by_layout() {
    let values = vec![Tok::Ident("a".to_string()), Tok::Punct(',')];
    assert_eq!(render(&StructType::NoField.get_params(values.clone())), "");
    assert_eq!(render(&StructType::Tuple.get_params(values.clone())), "(a,)");
    assert_eq!(render(&StructType::Struct.get_params(values)), "{a,}");
}

#[test]
fn generated_code_holds_both_artifacts() {
    let st = shape(
        "Point",
        FieldsDecl::Named(vec![named("x", "i32"), named("y", "i32")]),
        Some("geo"),
    );
    let wrapped = vec![
        vec![Tok::Verbatim("wrap(self.x)".to_string())],
        vec![Tok::Verbatim("wrap(self.y)".to_string())],
    ];
    let code = render(&st.get_implement(&wrapped));
    assert!(code.starts_with("implPoint{pubfnnew(x:i32,y:i32)->Self{Point{x,y,}}}"));
    assert!(code.contains("letx=wrap(self.x);"));
    assert!(code.contains("lety=wrap(self.y);"));
    assert!(code.contains("geo::Point::new(#x,#y)"));
}

#[test]
fn generated_constructor_positional() {
    let st = shape("Pair", FieldsDecl::Unnamed(vec![unnamed("i32"), unnamed("i64")]), None);
    let wrapped = vec![
        vec![Tok::Verbatim("wrap(self.0)".to_string())],
        vec![Tok::Verbatim("wrap(self.1)".to_string())],
    ];
    let code = render(&st.get_implement(&wrapped));
    assert!(code.starts_with(
        "implPair{pubfnnew(field_0:i32,field_1:i64)->Self{Pair(field_0,field_1,)}}"
    ));
    assert!(code.contains("Pair::new(#field_0,#field_1)"));
}

#[test]
fn interpolation_marks_identifier() {
    let mut toks: Vec<Tok> = Vec::new();
    iroha_derive::Interpolated("alpha".to_string()).to_tokens(&mut toks);
    assert_eq!(render(&toks), "#alpha");
}

#[test]
fn integer_literal_edges() {
    let toks = vec![
        Tok::IntLit(IntTy::I64, i64::MIN as i128),
        Tok::Punct(','),
        Tok::IntLit(IntTy::U64, u64::MAX as i128),
        Tok::Punct(','),
        Tok::IntLit(IntTy::U8, 0),
    ];
    assert_eq!(render(&toks), "-9223372036854775808i64,18446744073709551615u64,0u8");
}

#[test]
fn delimiters_render() {
    let toks = vec![
        Tok::Open(DelimKind::Invisible),
        Tok::Open(DelimKind::Brace),
        Tok::StrLit("hi".to_string()),
        Tok::Close(DelimKind::Brace),
        Tok::Close(DelimKind::Invisible),
    ];
    assert_eq!(render(&toks), "{\"hi\"}");
}

fn roundtrip(t: &TyShape, v: Value) {
    let toks = tokenize(&v);
    let back = reconstruct(t, &toks);
    assert_eq!(back, Some(v));
}

#[test]
fn roundtrip_scalars() {
    roundtrip(&TyShape::IntT(IntTy::I32), Value::IntV(IntTy::I32, -42));
    roundtrip(&TyShape::IntT(IntTy::U64), Value::IntV(IntTy::U64, u64::MAX as i128));
    roundtrip(&TyShape::StrT, Value::StrV("iroha".to_string()));
}

#[test]
fn roundtrip_sequences() {
    let t = TyShape::ListT(Box::new(TyShape::IntT(IntTy::U8)));
    roundtrip(&t, Value::ListV(vec![]));
    roundtrip(
        &t,
        Value::ListV(vec![
            Value::IntV(IntTy::U8, 1),
            Value::IntV(IntTy::U8, 2),
            Value::IntV(IntTy::U8, 3),
        ]),
    );
}

#[test]
fn roundtrip_optionals() {
    let t = TyShape::OptT(Box::new(TyShape::StrT));
    roundtrip(&t, Value::NoneV);
    roundtrip(&t, Value::SomeV(Box::new(Value::StrV("yui".to_string()))));
}

#[test]
fn roundtrip_results() {
    let t = TyShape::ResT(Box::new(TyShape::StrT), Box::new(TyShape::IntT(IntTy::I32)));
    roundtrip(&t, Value::OkV(Box::new(Value::StrV("233".to_string()))));
    roundtrip(&t, Value::ErrV(Box::new(Value::IntV(IntTy::I32, -1))));
}

#[test]
fn roundtrip_maps_and_sets() {
    let tm = TyShape::MapT(Box::new(TyShape::IntT(IntTy::Usize)), Box::new(TyShape::StrT));
    roundtrip(&tm, Value::MapV(vec![]));
    roundtrip(
        &tm,
        Value::MapV(vec![
            (Value::IntV(IntTy::Usize, 1), Value::StrV("yuikino".to_string())),
            (Value::IntV(IntTy::Usize, 2), Value::StrV("yui".to_string())),
        ]),
    );
    let ts = TyShape::SetT(Box::new(TyShape::StrT));
    roundtrip(&ts, Value::SetV(vec![]));
    roundtrip(
        &ts,
        Value::SetV(vec![
            Value::StrV("yuikino".to_string()),
            Value::StrV("yui".to_string()),
        ]),
    );
}

#[test]
fn roundtrip_nested() {
    let t = TyShape::ListT(Box::new(TyShape::OptT(Box::new(TyShape::IntT(IntTy::I16)))));
    roundtrip(
        &t,
        Value::ListV(vec![
            Value::SomeV(Box::new(Value::IntV(IntTy::I16, -7))),
            Value::NoneV,
        ]),
    );
}

#[test]
fn reconstruct_rejects_wrong_shape() {
    let toks = tokenize(&Value::IntV(IntTy::I32, 5));
    assert_eq!(reconstruct(&TyShape::IntT(IntTy::I64), &toks), None);
    assert_eq!(reconstruct(&TyShape::StrT, &toks), None);
}

#[test]
fn field_order_invariance_across_layouts() {
    let values = || vec![Value::IntV(IntTy::I32, 1), Value::StrV("yui".to_string())];
    let named_layout = shape("Rec", FieldsDecl::Named(vec![named("a", "i32"), named("b", "String")]), None);
    let positional_layout = shape("Rec", FieldsDecl::Unnamed(vec![unnamed("i32"), unnamed("String")]), None);
    assert_eq!(
        render(&tokenize_record(&named_layout, &values())),
        render(&tokenize_record(&positional_layout, &values()))
    );
    assert_eq!(render(&tokenize_record(&named_layout, &values())), "Rec::new(1i32,\"yui\")");
}
