//! Assembly of the generated component module from the models' translations.

use vstd::prelude::*;
use crate::json::{JsonValue, field_of, str_field_of};
use crate::naming::{views, model_name_of, parse_model_name};
use crate::schema::{SchemaError, walk_model, parse_model_schema_to_recs};

verus! {

#[verifier::external_type_specification]
#[verifier::external_body]
pub struct ExJsonError(serde_json::Error);

/// What `serde_json::to_string` makes of a list of strings.
pub uninterp spec fn json_of_strings(v: Seq<Seq<char>>) -> Seq<char>;

/// Relies on `serde_json::to_string` on a `Vec<String>`: the JSON array of the
/// strings, which depends on their characters alone. It cannot fail here: each
/// string goes through `serialize_str` into an in-memory buffer, and the failures
/// it documents (a failing `Serialize` impl, a map with non-string keys) cannot
/// arise from a list of strings.
#[verifier::external_body]
fn to_json_list(v: &Vec<String>) -> (r: Result<String, serde_json::Error>)
    ensures
        r is Ok,
        r->Ok_0@ == json_of_strings(views(v@)),
{
    serde_json::to_string(v)
}

/// Why no document could be generated.
#[derive(Debug, PartialEq, Eq)]
pub enum GenerateError {
    /// The manifest has no `models` array.
    NoModels,
    /// A fetched schema could not be translated.
    Schema(SchemaError),
}

/// The fixed opening of the generated module.
pub open spec fn header() -> Seq<char> {
    "/* Autogenerated file. Do not edit manually. */\n\n"@
        + "import { defineComponent, Type as RecsType, World } from \"@dojoengine/recs\";\n\n"@
        + "export type ContractComponents = Awaited<ReturnType<typeof defineContractComponents>>;\n\n"@
        + "export function defineContractComponents(world: World) {\n  return {\n"@
}

/// The fixed closing of the generated module.
pub open spec fn footer() -> Seq<char> {
    "  };\n}\n"@
}

/// The declaration block of one model.
pub open spec fn model_block(
    name: Seq<char>,
    expr: Seq<char>,
    types_json: Seq<char>,
    customs_json: Seq<char>,
) -> Seq<char> {
    "    "@ + name + ": (() => {\n"@ + "      return defineComponent(\n"@ + "        world,\n"@
        + "        "@ + expr + ",\n"@ + "        {\n"@ + "          metadata: {\n"@
        + "            name: \""@ + name + "\",\n"@ + "            types: "@ + types_json + ",\n"@
        + "            customTypes: "@ + customs_json + ",\n"@ + "          },\n"@ + "        }\n"@
        + "      );\n"@ + "    })(),\n"@
}

/// The declaration block of a model from its schema.
pub open spec fn declaration_of(name: Seq<char>, schema: JsonValue) -> Result<Seq<char>, SchemaError> {
    match walk_model(schema) {
        Ok(w) => Ok(model_block(name, w.expr, json_of_strings(w.types), json_of_strings(w.customs))),
        Err(e) => Err(e),
    }
}

/// The blocks of the models in order; a model whose schema could not be fetched
/// (`None`) is skipped; the first untranslatable schema fails the whole.
pub open spec fn blocks_of(models: Seq<(Seq<char>, Option<JsonValue>)>) -> Result<Seq<char>, SchemaError>
    decreases models.len(),
{
    if models.len() == 0 {
        Ok(seq![])
    } else {
        match blocks_of(models.drop_last()) {
            Err(e) => Err(e),
            Ok(prev) => match models.last().1 {
                None => Ok(prev),
                Some(schema) => match declaration_of(models.last().0, schema) {
                    Ok(block) => Ok(prev + block),
                    Err(e) => Err(e),
                },
            },
        }
    }
}

/// The whole generated module.
pub open spec fn document_of(models: Seq<(Seq<char>, Option<JsonValue>)>) -> Result<Seq<char>, SchemaError> {
    match blocks_of(models) {
        Ok(blocks) => Ok(header() + blocks + footer()),
        Err(e) => Err(e),
    }
}

/// The models' names and schemas, the names as character sequences.
pub open spec fn model_views(models: Seq<(String, Option<JsonValue>)>) -> Seq<(Seq<char>, Option<JsonValue>)> {
    models.map_values(|m: (String, Option<JsonValue>)| (m.0@, m.1))
}

/// The model entries of a manifest, when it has a `models` array.
pub open spec fn model_entries(manifest: JsonValue) -> Option<Seq<JsonValue>> {
    match field_of(manifest, "models"@) {
        Some(JsonValue::Array(models)) => Some(models@),
        _ => None,
    }
}

/// The raw identifier of a manifest entry; empty when absent.
pub open spec fn raw_name_of(model: JsonValue) -> Seq<char> {
    match str_field_of(model, "name"@) {
        Some(n) => n,
        None => seq![],
    }
}

/// The canonical name of each manifest entry, in order.
pub open spec fn canonical_names(models: Seq<JsonValue>) -> Seq<Seq<char>> {
    models.map_values(|m: JsonValue| model_name_of(raw_name_of(m)))
}

/// Once a prefix of the models fails, the whole fails with the same error.
pub proof fn lemma_blocks_error_persists(models: Seq<(Seq<char>, Option<JsonValue>)>, k: int)
    requires
        0 <= k <= models.len(),
        blocks_of(models.take(k)) is Err,
    ensures
        blocks_of(models) == blocks_of(models.take(k)),
    decreases models.len() - k,
{
    if k < models.len() {
        assert(models.take(k + 1).drop_last() =~= models.take(k));
        lemma_blocks_error_persists(models, k + 1);
    } else {
        assert(models.take(k) =~= models);
    }
}

/// A model whose schema could not be fetched leaves no trace: the document is the
/// one generated without it, the other models keeping their order.
pub proof fn lemma_unfetched_model_skipped(models: Seq<(Seq<char>, Option<JsonValue>)>, i: int)
    requires
        0 <= i < models.len(),
        models[i].1 is None,
    ensures
        document_of(models) == document_of(models.remove(i)),
{
    lemma_unfetched_block_skipped(models, i);
}

proof fn lemma_unfetched_block_skipped(models: Seq<(Seq<char>, Option<JsonValue>)>, i: int)
    requires
        0 <= i < models.len(),
        models[i].1 is None,
    ensures
        blocks_of(models) == blocks_of(models.remove(i)),
    decreases models.len(),
{
    if i == models.len() - 1 {
        assert(models.remove(i) =~= models.drop_last());
    } else {
        assert(models.drop_last().remove(i) =~= models.remove(i).drop_last());
        assert(models.remove(i).last() == models.last());
        lemma_unfetched_block_skipped(models.drop_last(), i);
    }
}

/// Generation depends on the models' names and schemas alone: equal inputs give
/// the same document, byte for byte.
pub proof fn lemma_generation_deterministic(a: Seq<(String, Option<JsonValue>)>, b: Seq<(String, Option<JsonValue>)>)
    requires
        model_views(a) == model_views(b),
    ensures
        document_of(model_views(a)) == document_of(model_views(b)),
{
}

/// The declaration block of one model, from its name, type expression and the two
/// lists of type names already written as JSON.
pub fn render_model_block(name: &str, expr: &str, types_json: &str, customs_json: &str) -> (r: String)
    ensures
        r@ == model_block(name@, expr@, types_json@, customs_json@),
{
    let mut out = String::from_str("    ");
    out.append(name);
    out.append(": (() => {\n");
    out.append("      return defineComponent(\n");
    out.append("        world,\n");
    out.append("        ");
    out.append(expr);
    out.append(",\n");
    out.append("        {\n");
    out.append("          metadata: {\n");
    out.append("            name: \"");
    out.append(name);
    out.append("\",\n");
    out.append("            types: ");
    out.append(types_json);
    out.append(",\n");
    out.append("            customTypes: ");
    out.append(customs_json);
    out.append(",\n");
    out.append("          },\n");
    out.append("        }\n");
    out.append("      );\n");
    out.append("    })(),\n");
    out
}

/// The declaration block of one model from its fetched schema.
pub fn model_declaration(name: &str, schema: &JsonValue) -> (r: Result<String, GenerateError>)
    ensures
        match declaration_of(name@, *schema) {
            Ok(block) => r is Ok && r->Ok_0@ == block,
            Err(e) => r is Err && r->Err_0 == GenerateError::Schema(e),
        },
{
    match parse_model_schema_to_recs(schema) {
        Err(e) => Err(GenerateError::Schema(e)),
        Ok(t) => {
            let types_json = to_json_list(&t.types).unwrap();
            let customs_json = to_json_list(&t.custom_types).unwrap();
            Ok(
                render_model_block(
                    name,
                    t.type_expr.as_str(),
                    types_json.as_str(),
                    customs_json.as_str(),
                ),
            )
        },
    }
}

fn raw_name(model: &JsonValue) -> (r: &str)
    ensures
        r@ == raw_name_of(*model),
{
    match model.str_field("name") {
        Some(n) => n,
        None => {
            proof {
                reveal_strlit("");
            }
            assert(""@ =~= Seq::<char>::empty());
            ""
        },
    }
}

/// The canonical names of the models that a manifest lists, in order.
pub fn model_names(manifest: &JsonValue) -> (r: Result<Vec<String>, GenerateError>)
    ensures
        match model_entries(*manifest) {
            None => r is Err && r->Err_0 is NoModels,
            Some(models) => r is Ok && views(r->Ok_0@) == canonical_names(models),
        },
{
    let models = match manifest.field("models") {
        Some(JsonValue::Array(models)) => models,
        _ => {
            return Err(GenerateError::NoModels);
        },
    };
    let mut names: Vec<String> = Vec::new();
    let mut i: usize = 0;
    while i < models.len()
        invariant
            0 <= i <= models@.len(),
            views(names@) == canonical_names(models@.take(i as int)),
        decreases models@.len() - i,
    {
        let raw = raw_name(&models[i]);
        let name = parse_model_name(raw);
        proof {
            assert(views(names@.push(name)) =~= views(names@).push(name@));
            assert(canonical_names(models@.take(i + 1)) =~= canonical_names(
                models@.take(i as int),
            ).push(model_name_of(raw_name_of(models@[i as int]))));
        }
        names.push(name);
        i += 1;
    }
    assert(models@.take(models@.len() as int) =~= models@);
    Ok(names)
}

/// Generates the component module: the fixed header, one declaration block per
/// model whose schema was fetched, in order, and the fixed closing. Each entry is
/// a model's canonical name and its schema, or `None` where fetching failed.
pub fn generate_typescript_content(models: &Vec<(String, Option<JsonValue>)>) -> (r: Result<
    String,
    GenerateError,
>)
    ensures
        match document_of(model_views(models@)) {
            Ok(doc) => r is Ok && r->Ok_0@ == doc,
            Err(e) => r is Err && r->Err_0 == GenerateError::Schema(e),
        },
{
    let mut out = String::from_str("/* Autogenerated file. Do not edit manually. */\n\n");
    out.append("import { defineComponent, Type as RecsType, World } from \"@dojoengine/recs\";\n\n");
    out.append(
        "export type ContractComponents = Awaited<ReturnType<typeof defineContractComponents>>;\n\n",
    );
    out.append("export function defineContractComponents(world: World) {\n  return {\n");
    let ghost mv = model_views(models@);
    let mut i: usize = 0;
    assert(mv.take(0) =~= seq![]);
    while i < models.len()
        invariant
            0 <= i <= models@.len(),
            mv == model_views(models@),
            blocks_of(mv.take(i as int)) is Ok,
            out@ == header() + blocks_of(mv.take(i as int))->Ok_0,
        decreases models@.len() - i,
    {
        proof {
            assert(mv.take(i + 1).drop_last() =~= mv.take(i as int));
            assert(mv.take(i + 1).last() == mv[i as int]);
        }
        match &models[i].1 {
            None => {},
            Some(schema) => {
                match model_declaration(models[i].0.as_str(), schema) {
                    Ok(block) => {
                        out.append(block.as_str());
                    },
                    Err(e) => {
                        proof {
                            lemma_blocks_error_persists(mv, i + 1);
                        }
                        return Err(e);
                    },
                }
            },
        }
        i += 1;
    }
    assert(mv.take(models@.len() as int) =~= mv);
    out.append("  };\n}\n");
    Ok(out)
}

} // verus!
