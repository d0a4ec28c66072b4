use dojo_recs_gen::emit::{
    generate_typescript_content, model_declaration, model_names, render_model_block, GenerateError,
};
use dojo_recs_gen::json::JsonValue;
use dojo_recs_gen::profile::{profile_settings, ProfileError};
use dojo_recs_gen::schema::{SchemaError, SchemaField};

fn s(text: &str) -> JsonValue {
    JsonValue::Str(text.to_string())
}

fn obj(members: Vec<(&str, JsonValue)>) -> JsonValue {
    JsonValue::Object(members.into_iter().map(|(k, v)| (k.to_string(), v)).collect())
}

fn node(tag: &str, content: JsonValue) -> JsonValue {
    obj(vec![("type", s(tag)), ("content", content)])
}

fn primitive(scalar: &str) -> JsonValue {
    node("primitive", obj(vec![("scalar_type", s(scalar))]))
}

fn member(name: &str, ty: JsonValue) -> JsonValue {
    obj(vec![("name", s(name)), ("member_type", ty)])
}

fn structure(name: &str, members: Vec<JsonValue>) -> JsonValue {
    node("struct", obj(vec![("name", s(name)), ("children", JsonValue::Array(members))]))
}

const HEADER: &str = "/* Autogenerated file. Do not edit manually. */\n\nimport { defineComponent, Type as RecsType, World } from \"@dojoengine/recs\";\n\nexport type ContractComponents = Awaited<ReturnType<typeof defineContractComponents>>;\n\nexport function defineContractComponents(world: World) {\n  return {\n";
const FOOTER: &str = "  };\n}\n";

fn moves_schema() -> JsonValue {
    structure(
        "Moves",
        vec![
            member("player", primitive("ContractAddress")),
            member("remaining", primitive("u8")),
            member("last_direction", node("enum", obj(vec![("name", s("Direction"))]))),
        ],
    )
}

const MOVES_BLOCK: &str = "    Moves: (() => {\n      return defineComponent(\n        world,\n        { player: RecsType.BigInt, remaining: RecsType.Number, last_direction: RecsType.Number },\n        {\n          metadata: {\n            name: \"Moves\",\n            types: [\"contractaddress\",\"u8\",\"enum\"],\n            customTypes: [\"Moves\",\"Direction\"],\n          },\n        }\n      );\n    })(),\n";

fn block_with(name: &str, customs: &str) -> String {
    format!(
        "    {}: (() => {{\n      return defineComponent(\n        world,\n        {{ v: RecsType.Boolean }},\n        {{\n          metadata: {{\n            name: \"{}\",\n            types: [\"bool\"],\n            customTypes: {},\n          }},\n        }}\n      );\n    }})(),\n",
        name, name, customs
    )
}

fn block_for(name: &str) -> String {
    block_with(name, "[\"X\"]")
}

fn simple_schema() -> JsonValue {
    structure("X", vec![member("v", primitive("bool"))])
}

#[test]
fn declaration_block_exact_text() {
    assert_eq!(model_declaration("Moves", &moves_schema()).unwrap(), MOVES_BLOCK);
}

#[test]
fn render_block_layout() {
    let block = render_model_block("M", "{ v: RecsType.Boolean }", "[\"bool\"]", "[]");
    assert_eq!(block, block_with("M", "[]"));
}

#[test]
fn declaration_escapes_type_names_as_json() {
    let schema = structure("X", vec![member("v", primitive("a\"b"))]);
    let block = model_declaration("Q", &schema).unwrap();
    assert!(block.contains("types: [\"a\\\"b\"],\n"));
}

#[test]
fn document_with_one_model() {
    let doc = generate_typescript_content(&vec![("Moves".to_string(), Some(moves_schema()))]).unwrap();
    assert_eq!(doc, format!("{}{}{}", HEADER, MOVES_BLOCK, FOOTER));
}

#[test]
fn document_without_models() {
    assert_eq!(generate_typescript_content(&vec![]).unwrap(), format!("{}{}", HEADER, FOOTER));
}

#[test]
fn unfetched_model_is_skipped() {
    let models = vec![
        ("A".to_string(), Some(simple_schema())),
        ("B".to_string(), None),
        ("C".to_string(), Some(simple_schema())),
    ];
    let doc = generate_typescript_content(&models).unwrap();
    assert_eq!(doc, format!("{}{}{}{}", HEADER, block_for("A"), block_for("C"), FOOTER));
    assert!(!doc.contains("B: (() =>"));
}

#[test]
fn every_fetch_failed_gives_empty_document() {
    let models = vec![("A".to_string(), None), ("B".to_string(), None)];
    assert_eq!(generate_typescript_content(&models).unwrap(), format!("{}{}", HEADER, FOOTER));
}

#[test]
fn generation_is_repeatable() {
    let models = vec![
        ("Moves".to_string(), Some(moves_schema())),
        ("A".to_string(), Some(simple_schema())),
    ];
    let first = generate_typescript_content(&models).unwrap();
    let second = generate_typescript_content(&models).unwrap();
    assert_eq!(first, second);
}

#[test]
fn bad_schema_fails_the_run() {
    let models = vec![
        ("A".to_string(), Some(simple_schema())),
        ("B".to_string(), Some(primitive("u8"))),
        ("C".to_string(), Some(obj(vec![]))),
    ];
    assert_eq!(
        generate_typescript_content(&models).unwrap_err(),
        GenerateError::Schema(SchemaError::UnsupportedRootType)
    );
    assert_eq!(
        model_declaration("C", &structure("C", vec![obj(vec![("name", s("x"))])])).unwrap_err(),
        GenerateError::Schema(SchemaError::MissingField(SchemaField::Type))
    );
}

#[test]
fn manifest_model_names() {
    let manifest = obj(vec![(
        "models",
        JsonValue::Array(vec![
            obj(vec![("name", s("dojo_starter::models::moves"))]),
            obj(vec![("name", s("dojo_starter::models::ERC_20_balance"))]),
            obj(vec![("kind", s("Model"))]),
        ]),
    )]);
    assert_eq!(
        model_names(&manifest).unwrap(),
        vec!["Moves".to_string(), "ERC20Balance".to_string(), "".to_string()]
    );
}

#[test]
fn manifest_without_models() {
    assert_eq!(model_names(&obj(vec![])).unwrap_err(), GenerateError::NoModels);
    assert_eq!(
        model_names(&obj(vec![("models", s("none"))])).unwrap_err(),
        GenerateError::NoModels
    );
}

fn scarb(profile: JsonValue) -> JsonValue {
    obj(vec![("tool", obj(vec![("dojo", obj(vec![("dev", profile)]))]))])
}

#[test]
fn profile_settings_found() {
    let config = scarb(obj(vec![
        ("rpc_url", s("http://localhost:5050/")),
        ("world_address", s("0x1")),
    ]));
    let p = profile_settings(&config, "dev").unwrap();
    assert_eq!(p.rpc_url, "http://localhost:5050/");
    assert_eq!(p.world_address, "0x1");
}

#[test]
fn profile_settings_missing_parts() {
    let config = scarb(obj(vec![("rpc_url", s("http://x"))]));
    assert_eq!(profile_settings(&config, "dev").err(), Some(ProfileError::MissingWorldAddress));
    assert_eq!(profile_settings(&config, "sepolia").err(), Some(ProfileError::MissingProfile));
    let no_url = scarb(obj(vec![("world_address", s("0x1"))]));
    assert_eq!(profile_settings(&no_url, "dev").err(), Some(ProfileError::MissingRpcUrl));
    assert_eq!(profile_settings(&scarb(s("dev")), "dev").err(), Some(ProfileError::MissingProfile));
}
