//! The recursive walk from a model schema to a type expression, with the primitive
//! and custom type names met on the way, in visit order.

use vstd::prelude::*;
use crate::json::{JsonValue, field_of, str_field_of, member_index};
use crate::naming::views;
use crate::type_map::{recs_type_of, recs_type_for};

verus! {

/// What `str::to_lowercase` makes of a string.
pub uninterp spec fn lower_of(s: Seq<char>) -> Seq<char>;

/// Relies on `str::to_lowercase`: the lower-case form of a string, which depends
/// on its characters alone; an empty string stays empty.
#[verifier::external_body]
fn lowercase(s: &str) -> (r: String)
    ensures
        r@ == lower_of(s@),
        s@.len() == 0 ==> r@.len() == 0,
{
    s.to_lowercase()
}

/// A schema key that a node of a given tag must have.
#[derive(PartialEq, Eq, Structural, Debug, Clone, Copy)]
pub enum SchemaField {
    Type,
    ScalarType,
    Children,
    Name,
}

/// Why a schema could not be translated.
#[derive(Debug, Clone, PartialEq, Eq)]
pub enum SchemaError {
    /// A key that the node's tag requires is absent or of the wrong kind.
    MissingField(SchemaField),
    /// A node's tag is none of the known ones; the tag is kept.
    UnsupportedSchemaType(String),
    /// The root of a model schema is not a struct.
    UnsupportedRootType,
    /// The content of a tuple node is not an array.
    TupleShapeError,
}

/// The outcome of translating one node: its type expression, and the primitive and
/// custom type names met, in visit order.
#[derive(Debug)]
pub struct Translation {
    pub type_expr: String,
    pub types: Vec<String>,
    pub custom_types: Vec<String>,
}

/// A translation as character sequences.
pub struct TypeWalk {
    pub expr: Seq<char>,
    pub types: Seq<Seq<char>>,
    pub customs: Seq<Seq<char>>,
}

/// The translations of a list of nodes: the text of each, and the names met.
pub struct ListWalk {
    pub texts: Seq<Seq<char>>,
    pub types: Seq<Seq<char>>,
    pub customs: Seq<Seq<char>>,
}

impl View for Translation {
    type V = TypeWalk;

    open spec fn view(&self) -> TypeWalk {
        TypeWalk {
            expr: self.type_expr@,
            types: views(self.types@),
            customs: views(self.custom_types@),
        }
    }
}

/// A translation result as character sequences.
pub open spec fn walk_of(r: Result<Translation, SchemaError>) -> Result<TypeWalk, SchemaError> {
    match r {
        Ok(t) => Ok(t@),
        Err(e) => Err(e),
    }
}

/// `texts` with `sep` between each two.
pub open spec fn join_with(texts: Seq<Seq<char>>, sep: Seq<char>) -> Seq<char>
    decreases texts.len(),
{
    if texts.len() == 0 {
        seq![]
    } else if texts.len() == 1 {
        texts[0]
    } else {
        join_with(texts.drop_last(), sep) + sep + texts.last()
    }
}

/// The tag of a node, when it has one that is a string.
pub open spec fn tag_of(node: JsonValue) -> Option<String> {
    match field_of(node, "type"@) {
        Some(JsonValue::Str(t)) => Some(t),
        _ => None,
    }
}

/// The content of a node; null when it has none.
pub open spec fn content_of(node: JsonValue) -> JsonValue {
    match field_of(node, "content"@) {
        Some(c) => c,
        None => JsonValue::Null,
    }
}

/// The `name` of a struct or enum content; empty when absent.
pub open spec fn name_or_empty(content: JsonValue) -> Seq<char> {
    match str_field_of(content, "name"@) {
        Some(n) => n,
        None => seq![],
    }
}

/// The member list of a struct content, when it is an array.
pub open spec fn children_of(content: JsonValue) -> Option<Seq<JsonValue>> {
    match field_of(content, "children"@) {
        Some(JsonValue::Array(items)) => Some(items@),
        _ => None,
    }
}

/// The elements of a tuple content, when it is an array.
pub open spec fn elements_of(content: JsonValue) -> Option<Seq<JsonValue>> {
    match content {
        JsonValue::Array(items) => Some(items@),
        _ => None,
    }
}

/// A record type expression from the walk of its members.
pub open spec fn record_of(r: Result<ListWalk, SchemaError>) -> Result<TypeWalk, SchemaError> {
    match r {
        Ok(l) => Ok(
            TypeWalk {
                expr: "{ "@ + join_with(l.texts, ", "@) + " }"@,
                types: l.types,
                customs: l.customs,
            },
        ),
        Err(e) => Err(e),
    }
}

/// The walk of a struct content: its members as a record.
pub open spec fn walk_record(content: JsonValue) -> Result<TypeWalk, SchemaError> {
    match children_of(content) {
        Some(members) => record_of(walk_list(members, true)),
        None => Err(SchemaError::MissingField(SchemaField::Children)),
    }
}

pub proof fn lemma_field_decreases(v: JsonValue, key: Seq<char>)
    requires
        field_of(v, key) is Some,
    ensures
        decreases_to!(v => field_of(v, key)->0),
{
    if let JsonValue::Object(members) = v {
        crate::json::lemma_member_index_range(members@, key, 0);
        let i = member_index(members@, key, 0);
        assert(decreases_to!(v => members));
        assert(decreases_to!(members => members@));
        assert(decreases_to!(members@ => members@[i]));
        assert(decreases_to!(members@[i] => members@[i].1));
    }
}

/// The walk of one node, by its tag.
pub open spec fn walk_node(node: JsonValue) -> Result<TypeWalk, SchemaError>
    decreases node,
{
    match tag_of(node) {
        None => Err(SchemaError::MissingField(SchemaField::Type)),
        Some(tag) => {
            let content = content_of(node);
            if tag@ == "primitive"@ {
                match str_field_of(content, "scalar_type"@) {
                    None => Err(SchemaError::MissingField(SchemaField::ScalarType)),
                    Some(s) => Ok(
                        TypeWalk {
                            expr: recs_type_of(lower_of(s)),
                            types: seq![lower_of(s)],
                            customs: seq![],
                        },
                    ),
                }
            } else if tag@ == "struct"@ {
                match children_of(content) {
                    None => Err(SchemaError::MissingField(SchemaField::Children)),
                    Some(members) => {
                        proof {
                            lemma_field_decreases(node, "content"@);
                            lemma_field_decreases(content, "children"@);
                        }
                        match record_of(walk_list(members, true)) {
                            Ok(w) => Ok(
                                TypeWalk {
                                    expr: w.expr,
                                    types: w.types,
                                    customs: seq![name_or_empty(content)] + w.customs,
                                },
                            ),
                            Err(e) => Err(e),
                        }
                    },
                }
            } else if tag@ == "enum"@ {
                Ok(
                    TypeWalk {
                        expr: "RecsType.Number"@,
                        types: seq!["enum"@],
                        customs: seq![name_or_empty(content)],
                    },
                )
            } else if tag@ == "tuple"@ {
                match elements_of(content) {
                    None => Err(SchemaError::TupleShapeError),
                    Some(items) => {
                        proof {
                            lemma_field_decreases(node, "content"@);
                        }
                        match walk_list(items, false) {
                            Ok(l) => Ok(
                                TypeWalk {
                                    expr: "[ "@ + join_with(l.texts, ", "@) + " ]"@,
                                    types: l.types,
                                    customs: l.customs,
                                },
                            ),
                            Err(e) => Err(e),
                        }
                    },
                }
            } else if tag@ == "array"@ {
                Ok(TypeWalk { expr: "RecsType.StringArray"@, types: seq![], customs: seq![] })
            } else if tag@ == "bytearray"@ {
                Ok(TypeWalk { expr: "RecsType.String"@, types: seq![], customs: seq![] })
            } else {
                Err(SchemaError::UnsupportedSchemaType(tag))
            }
        },
    }
}

/// The walk of the elements of a list, in order, stopping at the first error. For
/// struct members (`members`) each element names itself and holds its type under
/// `member_type`, and its text is `name: type`.
pub open spec fn walk_list(items: Seq<JsonValue>, members: bool) -> Result<ListWalk, SchemaError>
    decreases items,
{
    if items.len() == 0 {
        Ok(ListWalk { texts: seq![], types: seq![], customs: seq![] })
    } else {
        match walk_list(items.drop_last(), members) {
            Err(e) => Err(e),
            Ok(prev) => {
                let item = items.last();
                let elem: Result<(Seq<char>, TypeWalk), SchemaError> = if members {
                    match str_field_of(item, "name"@) {
                        None => Err(SchemaError::MissingField(SchemaField::Name)),
                        Some(name) => match field_of(item, "member_type"@) {
                            None => Err(SchemaError::MissingField(SchemaField::Type)),
                            Some(ty) => {
                                proof {
                                    lemma_field_decreases(item, "member_type"@);
                                }
                                match walk_node(ty) {
                                    Ok(w) => Ok((name + ": "@ + w.expr, w)),
                                    Err(e) => Err(e),
                                }
                            },
                        },
                    }
                } else {
                    match walk_node(item) {
                        Ok(w) => Ok((w.expr, w)),
                        Err(e) => Err(e),
                    }
                };
                match elem {
                    Err(e) => Err(e),
                    Ok((text, w)) => Ok(
                        ListWalk {
                            texts: prev.texts.push(text),
                            types: prev.types + w.types,
                            customs: prev.customs + w.customs,
                        },
                    ),
                }
            },
        }
    }
}

/// The walk of a model schema: its root must be a struct, walked as any struct is,
/// its own name first among the custom types.
pub open spec fn walk_model(schema: JsonValue) -> Result<TypeWalk, SchemaError> {
    match tag_of(schema) {
        Some(tag) if tag@ == "struct"@ => match walk_record(content_of(schema)) {
            Ok(w) => Ok(
                TypeWalk {
                    expr: w.expr,
                    types: w.types,
                    customs: seq![name_or_empty(content_of(schema))] + w.customs,
                },
            ),
            Err(e) => Err(e),
        },
        _ => Err(SchemaError::UnsupportedRootType),
    }
}

/// A list translation result as character sequences.
pub open spec fn list_walk_of(r: Result<(Vec<String>, Vec<String>, Vec<String>), SchemaError>) -> Result<
    ListWalk,
    SchemaError,
> {
    match r {
        Ok((texts, types, customs)) => Ok(
            ListWalk { texts: views(texts@), types: views(types@), customs: views(customs@) },
        ),
        Err(e) => Err(e),
    }
}

/// Once a prefix of a list fails, the whole list fails with the same error.
pub proof fn lemma_list_error_persists(items: Seq<JsonValue>, members: bool, k: int)
    requires
        0 <= k <= items.len(),
        walk_list(items.take(k), members) is Err,
    ensures
        walk_list(items, members) == walk_list(items.take(k), members),
    decreases items.len() - k,
{
    if k < items.len() {
        assert(items.take(k + 1).drop_last() =~= items.take(k));
        lemma_list_error_persists(items, members, k + 1);
    } else {
        assert(items.take(k) =~= items);
    }
}

/// A model schema whose root is not a struct is rejected as such, whatever the root
/// is: a primitive, a tuple, an untagged value.
pub proof fn lemma_non_struct_root_rejected(schema: JsonValue)
    requires
        tag_of(schema) is None || tag_of(schema)->0@ != "struct"@,
    ensures
        walk_model(schema) == Err::<TypeWalk, SchemaError>(SchemaError::UnsupportedRootType),
{
}

fn is_tag(tag: &str, lit: &str) -> (r: bool)
    ensures
        r == (tag@ == lit@),
{
    String::from_str(tag) == String::from_str(lit)
}

/// `texts` with `sep` between each two.
pub fn join_texts(texts: &Vec<String>, sep: &str) -> (r: String)
    ensures
        r@ == join_with(views(texts@), sep@),
{
    let mut out = String::new();
    let mut i: usize = 0;
    while i < texts.len()
        invariant
            0 <= i <= texts@.len(),
            out@ == join_with(views(texts@).take(i as int), sep@),
        decreases texts@.len() - i,
    {
        proof {
            let tv = views(texts@);
            assert(tv.take(i + 1).drop_last() =~= tv.take(i as int));
            assert(tv.take(i + 1).last() == texts@[i as int]@);
        }
        if i > 0 {
            out.append(sep);
        }
        out.append(texts[i].as_str());
        i += 1;
    }
    assert(views(texts@).take(texts@.len() as int) =~= views(texts@));
    out
}

/// The `name` of a struct or enum content; empty when absent.
fn name_of(content: &JsonValue) -> (r: String)
    ensures
        r@ == name_or_empty(*content),
{
    match content.str_field("name") {
        Some(n) => String::from_str(n),
        None => String::new(),
    }
}

fn single(s: String) -> (r: Vec<String>)
    ensures
        views(r@) == seq![s@],
{
    let r = vec![s];
    assert(views(r@) =~= seq![s@]);
    r
}

fn no_names() -> (r: Vec<String>)
    ensures
        views(r@) == Seq::<Seq<char>>::empty(),
{
    let r: Vec<String> = Vec::new();
    assert(views(r@) =~= Seq::<Seq<char>>::empty());
    r
}

/// Translates a primitive node's content: the container tag of its scalar type,
/// and that type, in lower case, as the one primitive met.
pub fn parse_schema_primitive(content: &JsonValue) -> (r: Result<Translation, SchemaError>)
    ensures
        walk_of(r) == match str_field_of(*content, "scalar_type"@) {
            None => Err(SchemaError::MissingField(SchemaField::ScalarType)),
            Some(s) => Ok(
                TypeWalk { expr: recs_type_of(lower_of(s)), types: seq![lower_of(s)], customs: seq![] },
            ),
        },
{
    match content.str_field("scalar_type") {
        None => Err(SchemaError::MissingField(SchemaField::ScalarType)),
        Some(s) => {
            let lower = lowercase(s);
            let expr = recs_type_for(lower.as_str());
            Ok(Translation { type_expr: expr, types: single(lower), custom_types: no_names() })
        },
    }
}

/// Translates an enum node's content: the number tag, with the enum marker among
/// the primitives and the enum's name among the custom types.
pub fn parse_schema_enum(content: &JsonValue) -> (r: Translation)
    ensures
        r@ == (TypeWalk {
            expr: "RecsType.Number"@,
            types: seq!["enum"@],
            customs: seq![name_or_empty(*content)],
        }),
{
    Translation {
        type_expr: String::from_str("RecsType.Number"),
        types: single(String::from_str("enum")),
        custom_types: single(name_of(content)),
    }
}

/// Translates the elements of a list in order, stopping at the first error. For
/// struct members (`members`) each element gives `name: type`.
fn parse_list(items: &Vec<JsonValue>, members: bool) -> (r: Result<
    (Vec<String>, Vec<String>, Vec<String>),
    SchemaError,
>)
    ensures
        list_walk_of(r) == walk_list(items@, members),
    decreases items,
{
    let mut texts: Vec<String> = Vec::new();
    let mut types: Vec<String> = Vec::new();
    let mut customs: Vec<String> = Vec::new();
    let mut i: usize = 0;
    assert(items@.take(0) =~= seq![]);
    assert(views(texts@) =~= seq![]);
    assert(views(types@) =~= seq![]);
    assert(views(customs@) =~= seq![]);
    while i < items.len()
        invariant
            0 <= i <= items@.len(),
            walk_list(items@.take(i as int), members) == Ok::<ListWalk, SchemaError>(
                ListWalk { texts: views(texts@), types: views(types@), customs: views(customs@) },
            ),
        decreases items@.len() - i,
    {
        let item = &items[i];
        proof {
            assert(items@.take(i + 1).drop_last() =~= items@.take(i as int));
            assert(items@.take(i + 1).last() == items@[i as int]);
            assert(decreases_to!(items => items@[i as int]));
        }
        let elem: Result<(String, Translation), SchemaError> = if members {
            match item.str_field("name") {
                None => Err(SchemaError::MissingField(SchemaField::Name)),
                Some(name) => match item.field("member_type") {
                    None => Err(SchemaError::MissingField(SchemaField::Type)),
                    Some(ty) => {
                        proof {
                            lemma_field_decreases(*item, "member_type"@);
                        }
                        match parse_model_schema_to_recs_impl(ty) {
                            Ok(sub) => {
                                let mut text = String::from_str(name);
                                text.append(": ");
                                text.append(sub.type_expr.as_str());
                                Ok((text, sub))
                            },
                            Err(e) => Err(e),
                        }
                    },
                },
            }
        } else {
            match parse_model_schema_to_recs_impl(item) {
                Ok(sub) => Ok((sub.type_expr.clone(), sub)),
                Err(e) => Err(e),
            }
        };
        match elem {
            Err(e) => {
                proof {
                    lemma_list_error_persists(items@, members, i + 1);
                }
                return Err(e);
            },
            Ok((text, sub)) => {
                let mut sub = sub;
                proof {
                    assert(views(texts@.push(text)) =~= views(texts@).push(text@));
                    assert(views(types@ + sub.types@) =~= views(types@) + views(sub.types@));
                    assert(views(customs@ + sub.custom_types@) =~= views(customs@) + views(
                        sub.custom_types@,
                    ));
                }
                texts.push(text);
                types.append(&mut sub.types);
                customs.append(&mut sub.custom_types);
            },
        }
        i += 1;
    }
    assert(items@.take(items@.len() as int) =~= items@);
    Ok((texts, types, customs))
}

/// Translates a struct content: its members as a record `{ name: type, ... }`.
pub fn parse_schema_struct(content: &JsonValue) -> (r: Result<Translation, SchemaError>)
    ensures
        walk_of(r) == walk_record(*content),
    decreases content,
{
    match content.field("children") {
        Some(JsonValue::Array(children)) => {
            proof {
                lemma_field_decreases(*content, "children"@);
            }
            match parse_list(children, true) {
                Ok((texts, types, custom_types)) => {
                    let joined = join_texts(&texts, ", ");
                    let mut expr = String::from_str("{ ");
                    expr.append(joined.as_str());
                    expr.append(" }");
                    Ok(Translation { type_expr: expr, types, custom_types })
                },
                Err(e) => Err(e),
            }
        },
        _ => Err(SchemaError::MissingField(SchemaField::Children)),
    }
}

/// Translates a tuple content: its elements as a list `[ type, ... ]`.
pub fn parse_schema_tuple(content: &JsonValue) -> (r: Result<Translation, SchemaError>)
    ensures
        walk_of(r) == match elements_of(*content) {
            None => Err(SchemaError::TupleShapeError),
            Some(items) => match walk_list(items, false) {
                Ok(l) => Ok(
                    TypeWalk {
                        expr: "[ "@ + join_with(l.texts, ", "@) + " ]"@,
                        types: l.types,
                        customs: l.customs,
                    },
                ),
                Err(e) => Err(e),
            },
        },
    decreases content,
{
    match content {
        JsonValue::Array(items) => match parse_list(items, false) {
            Ok((texts, types, custom_types)) => {
                let joined = join_texts(&texts, ", ");
                let mut expr = String::from_str("[ ");
                expr.append(joined.as_str());
                expr.append(" ]");
                Ok(Translation { type_expr: expr, types, custom_types })
            },
            Err(e) => Err(e),
        },
        _ => Err(SchemaError::TupleShapeError),
    }
}

/// Translates one schema node by its tag.
pub fn parse_model_schema_to_recs_impl(node: &JsonValue) -> (r: Result<Translation, SchemaError>)
    ensures
        walk_of(r) == walk_node(*node),
    decreases node,
{
    let tag = match node.field("type") {
        Some(JsonValue::Str(t)) => t,
        _ => {
            return Err(SchemaError::MissingField(SchemaField::Type));
        },
    };
    let null = JsonValue::Null;
    let content_field = node.field("content");
    let content: &JsonValue = match content_field {
        Some(c) => c,
        None => &null,
    };
    if is_tag(tag.as_str(), "primitive") {
        parse_schema_primitive(content)
    } else if is_tag(tag.as_str(), "struct") {
        match content_field {
            None => Err(SchemaError::MissingField(SchemaField::Children)),
            Some(c) => {
                proof {
                    lemma_field_decreases(*node, "content"@);
                }
                let name = name_of(c);
                match parse_schema_struct(c) {
                    Ok(t) => {
                        let mut t = t;
                        let mut custom_types = single(name);
                        proof {
                            assert(views(custom_types@ + t.custom_types@) =~= views(custom_types@)
                                + views(t.custom_types@));
                        }
                        custom_types.append(&mut t.custom_types);
                        Ok(Translation { type_expr: t.type_expr, types: t.types, custom_types })
                    },
                    Err(e) => Err(e),
                }
            },
        }
    } else if is_tag(tag.as_str(), "enum") {
        Ok(parse_schema_enum(content))
    } else if is_tag(tag.as_str(), "tuple") {
        match content_field {
            None => Err(SchemaError::TupleShapeError),
            Some(c) => {
                proof {
                    lemma_field_decreases(*node, "content"@);
                }
                parse_schema_tuple(c)
            },
        }
    } else if is_tag(tag.as_str(), "array") {
        Ok(
            Translation {
                type_expr: String::from_str("RecsType.StringArray"),
                types: no_names(),
                custom_types: no_names(),
            },
        )
    } else if is_tag(tag.as_str(), "bytearray") {
        Ok(
            Translation {
                type_expr: String::from_str("RecsType.String"),
                types: no_names(),
                custom_types: no_names(),
            },
        )
    } else {
        Err(SchemaError::UnsupportedSchemaType(tag.clone()))
    }
}

/// Translates a model schema, whose root must be a struct.
pub fn parse_model_schema_to_recs(schema: &JsonValue) -> (r: Result<Translation, SchemaError>)
    ensures
        walk_of(r) == walk_model(*schema),
{
    let is_struct = match schema.field("type") {
        Some(JsonValue::Str(t)) => is_tag(t.as_str(), "struct"),
        _ => false,
    };
    if !is_struct {
        return Err(SchemaError::UnsupportedRootType);
    }
    let null = JsonValue::Null;
    let content: &JsonValue = match schema.field("content") {
        Some(c) => c,
        None => &null,
    };
    let name = name_of(content);
    match parse_schema_struct(content) {
        Ok(t) => {
            let mut t = t;
            let mut custom_types = single(name);
            proof {
                assert(views(custom_types@ + t.custom_types@) =~= views(custom_types@) + views(
                    t.custom_types@,
                ));
            }
            custom_types.append(&mut t.custom_types);
            Ok(Translation { type_expr: t.type_expr, types: t.types, custom_types })
        },
        Err(e) => Err(e),
    }
}

} // verus!
