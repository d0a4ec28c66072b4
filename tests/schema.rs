use dojo_recs_gen::json::JsonValue;
use dojo_recs_gen::schema::{
    parse_model_schema_to_recs, parse_model_schema_to_recs_impl, parse_schema_enum,
    parse_schema_primitive, SchemaError, SchemaField,
};
use dojo_recs_gen::type_map::{create_cairo_to_recs_type_map, lookup_recs_type, recs_type_for};

fn s(text: &str) -> JsonValue {
    JsonValue::Str(text.to_string())
}

fn obj(members: Vec<(&str, JsonValue)>) -> JsonValue {
    JsonValue::Object(members.into_iter().map(|(k, v)| (k.to_string(), v)).collect())
}

fn node(tag: &str, content: JsonValue) -> JsonValue {
    obj(vec![("type", s(tag)), ("content", content)])
}

fn primitive(scalar: &str) -> JsonValue {
    node("primitive", obj(vec![("scalar_type", s(scalar))]))
}

fn member(name: &str, ty: JsonValue) -> JsonValue {
    obj(vec![("name", s(name)), ("member_type", ty)])
}

fn structure(name: &str, members: Vec<JsonValue>) -> JsonValue {
    node("struct", obj(vec![("name", s(name)), ("children", JsonValue::Array(members))]))
}

fn strings(v: &[&str]) -> Vec<String> {
    v.iter().map(|x| x.to_string()).collect()
}

#[test]
fn primitive_u64_is_big_integer() {
    let t = parse_model_schema_to_recs_impl(&primitive("u64")).unwrap();
    assert_eq!(t.type_expr, "RecsType.BigInt");
    assert_eq!(t.types, strings(&["u64"]));
    assert!(t.custom_types.is_empty());
}

#[test]
fn primitive_scalar_is_case_folded() {
    let t = parse_model_schema_to_recs_impl(&primitive("ContractAddress")).unwrap();
    assert_eq!(t.type_expr, "RecsType.BigInt");
    assert_eq!(t.types, strings(&["contractaddress"]));
}

#[test]
fn unknown_scalar_falls_back_to_string() {
    let t = parse_model_schema_to_recs_impl(&primitive("unknown_type")).unwrap();
    assert_eq!(t.type_expr, "RecsType.String");
    assert_eq!(t.types, strings(&["unknown_type"]));
}

#[test]
fn struct_members_in_order() {
    let st = structure(
        "Pair",
        vec![member("a", primitive("bool")), member("b", primitive("u32"))],
    );
    let t = parse_model_schema_to_recs_impl(&st).unwrap();
    assert_eq!(t.type_expr, "{ a: RecsType.Boolean, b: RecsType.Number }");
    assert_eq!(t.types, strings(&["bool", "u32"]));
    assert_eq!(t.custom_types, strings(&["Pair"]));
}

#[test]
fn root_struct_name_listed_first() {
    let st = structure(
        "Pair",
        vec![member("a", primitive("bool")), member("b", primitive("u32"))],
    );
    let t = parse_model_schema_to_recs(&st).unwrap();
    assert_eq!(t.type_expr, "{ a: RecsType.Boolean, b: RecsType.Number }");
    assert_eq!(t.types, strings(&["bool", "u32"]));
    assert_eq!(t.custom_types, strings(&["Pair"]));
}

#[test]
fn enum_is_number_and_listed_twice() {
    let e = node("enum", obj(vec![("name", s("Status")), ("children", JsonValue::Array(vec![]))]));
    let t = parse_model_schema_to_recs_impl(&e).unwrap();
    assert_eq!(t.type_expr, "RecsType.Number");
    assert_eq!(t.types, strings(&["enum"]));
    assert_eq!(t.custom_types, strings(&["Status"]));
    let direct = parse_schema_enum(&obj(vec![("name", s("Status"))]));
    assert_eq!(direct.custom_types, strings(&["Status"]));
}

#[test]
fn enum_without_name_lists_empty_name() {
    let t = parse_model_schema_to_recs_impl(&node("enum", JsonValue::Null)).unwrap();
    assert_eq!(t.custom_types, strings(&[""]));
}

#[test]
fn primitive_root_is_rejected() {
    assert_eq!(
        parse_model_schema_to_recs(&primitive("u8")).unwrap_err(),
        SchemaError::UnsupportedRootType
    );
    assert_eq!(
        parse_model_schema_to_recs(&JsonValue::Null).unwrap_err(),
        SchemaError::UnsupportedRootType
    );
}

#[test]
fn tuple_elements_in_order() {
    let tup = node("tuple", JsonValue::Array(vec![primitive("u8"), primitive("felt252")]));
    let t = parse_model_schema_to_recs_impl(&tup).unwrap();
    assert_eq!(t.type_expr, "[ RecsType.Number, RecsType.BigInt ]");
    assert_eq!(t.types, strings(&["u8", "felt252"]));
}

#[test]
fn tuple_content_must_be_array() {
    let tup = node("tuple", obj(vec![]));
    assert_eq!(
        parse_model_schema_to_recs_impl(&tup).unwrap_err(),
        SchemaError::TupleShapeError
    );
    let bare = obj(vec![("type", s("tuple"))]);
    assert_eq!(
        parse_model_schema_to_recs_impl(&bare).unwrap_err(),
        SchemaError::TupleShapeError
    );
}

#[test]
fn array_and_bytearray_tags() {
    let a = parse_model_schema_to_recs_impl(&node("array", JsonValue::Array(vec![primitive("u8")])))
        .unwrap();
    assert_eq!(a.type_expr, "RecsType.StringArray");
    assert!(a.types.is_empty() && a.custom_types.is_empty());
    let b = parse_model_schema_to_recs_impl(&node("bytearray", JsonValue::Null)).unwrap();
    assert_eq!(b.type_expr, "RecsType.String");
    assert!(b.types.is_empty() && b.custom_types.is_empty());
}

#[test]
fn unknown_tag_is_rejected() {
    assert_eq!(
        parse_model_schema_to_recs_impl(&node("fixed_array", JsonValue::Null)).unwrap_err(),
        SchemaError::UnsupportedSchemaType("fixed_array".to_string())
    );
}

#[test]
fn missing_fields_are_reported() {
    assert_eq!(
        parse_model_schema_to_recs_impl(&obj(vec![])).unwrap_err(),
        SchemaError::MissingField(SchemaField::Type)
    );
    assert_eq!(
        parse_model_schema_to_recs_impl(&node("primitive", obj(vec![]))).unwrap_err(),
        SchemaError::MissingField(SchemaField::ScalarType)
    );
    assert_eq!(
        parse_schema_primitive(&JsonValue::Null).unwrap_err(),
        SchemaError::MissingField(SchemaField::ScalarType)
    );
    assert_eq!(
        parse_model_schema_to_recs_impl(&node("struct", obj(vec![("name", s("S"))]))).unwrap_err(),
        SchemaError::MissingField(SchemaField::Children)
    );
    let nameless = structure("S", vec![obj(vec![("member_type", primitive("u8"))])]);
    assert_eq!(
        parse_model_schema_to_recs_impl(&nameless).unwrap_err(),
        SchemaError::MissingField(SchemaField::Name)
    );
    let typeless = structure("S", vec![obj(vec![("name", s("x"))])]);
    assert_eq!(
        parse_model_schema_to_recs_impl(&typeless).unwrap_err(),
        SchemaError::MissingField(SchemaField::Type)
    );
}

#[test]
fn first_error_in_member_order_wins() {
    let st = structure(
        "S",
        vec![
            member("a", primitive("u8")),
            member("b", node("weird", JsonValue::Null)),
            obj(vec![("member_type", primitive("u8"))]),
        ],
    );
    assert_eq!(
        parse_model_schema_to_recs(&st).unwrap_err(),
        SchemaError::UnsupportedSchemaType("weird".to_string())
    );
}

#[test]
fn nested_types_in_visit_order() {
    let inner = structure("Vec2", vec![member("x", primitive("u32")), member("y", primitive("u32"))]);
    let dir = node("enum", obj(vec![("name", s("Direction"))]));
    let outer = structure(
        "Position",
        vec![
            member("player", primitive("ContractAddress")),
            member("vec", inner),
            member("last", dir),
            member("pair", node("tuple", JsonValue::Array(vec![primitive("bool"), primitive("u128")]))),
        ],
    );
    let t = parse_model_schema_to_recs(&outer).unwrap();
    assert_eq!(
        t.type_expr,
        "{ player: RecsType.BigInt, vec: { x: RecsType.Number, y: RecsType.Number }, last: RecsType.Number, pair: [ RecsType.Boolean, RecsType.BigInt ] }"
    );
    assert_eq!(t.types, strings(&["contractaddress", "u32", "u32", "enum", "bool", "u128"]));
    assert_eq!(t.custom_types, strings(&["Position", "Vec2", "Direction"]));
}

#[test]
fn empty_struct_record() {
    let t = parse_model_schema_to_recs(&structure("E", vec![])).unwrap();
    assert_eq!(t.type_expr, "{  }");
    assert!(t.types.is_empty());
    assert_eq!(t.custom_types, strings(&["E"]));
}

#[test]
fn type_table_entries() {
    let map = create_cairo_to_recs_type_map();
    assert_eq!(map.len(), 13);
    assert_eq!(lookup_recs_type(&map, "bool"), "RecsType.Boolean");
    assert_eq!(lookup_recs_type(&map, "usize"), "RecsType.Number");
    assert_eq!(lookup_recs_type(&map, "u256"), "RecsType.BigInt");
    assert_eq!(lookup_recs_type(&map, "array"), "RecsType.StringArray");
    assert_eq!(lookup_recs_type(&map, "enum"), "RecsType.String");
    assert_eq!(lookup_recs_type(&map, "Bool"), "RecsType.String");
    assert_eq!(recs_type_for("u16"), "RecsType.Number");
    assert_eq!(recs_type_for("i64"), "RecsType.String");
}
