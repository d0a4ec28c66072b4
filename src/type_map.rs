//! The fixed table from scalar type names to container tags.

use vstd::prelude::*;

verus! {

/// The container tag that unlisted scalar types fall back to.
pub open spec fn fallback_tag() -> Seq<char> {
    "RecsType.String"@
}

/// The scalar type names, in lower case, and the container tag of each.
pub open spec fn recs_type_table() -> Seq<(Seq<char>, Seq<char>)> {
    seq![
        ("bool"@, "RecsType.Boolean"@),
        ("u8"@, "RecsType.Number"@),
        ("u16"@, "RecsType.Number"@),
        ("u32"@, "RecsType.Number"@),
        ("u64"@, "RecsType.BigInt"@),
        ("usize"@, "RecsType.Number"@),
        ("u128"@, "RecsType.BigInt"@),
        ("u256"@, "RecsType.BigInt"@),
        ("felt252"@, "RecsType.BigInt"@),
        ("contractaddress"@, "RecsType.BigInt"@),
        ("enum"@, "RecsType.String"@),
        ("array"@, "RecsType.StringArray"@),
        ("bytearray"@, "RecsType.String"@),
    ]
}

/// The tag of the first entry at or after `i` whose name is `key`, if any.
pub open spec fn table_lookup(table: Seq<(Seq<char>, Seq<char>)>, key: Seq<char>, i: int) -> Option<
    Seq<char>,
>
    decreases table.len() - i,
{
    if i < 0 || i >= table.len() {
        None
    } else if table[i].0 == key {
        Some(table[i].1)
    } else {
        table_lookup(table, key, i + 1)
    }
}

/// The container tag of a scalar type name, already folded to lower case.
pub open spec fn recs_type_of(scalar: Seq<char>) -> Seq<char> {
    match table_lookup(recs_type_table(), scalar, 0) {
        Some(tag) => tag,
        None => fallback_tag(),
    }
}

/// What a table of owned strings holds, as pairs of character sequences.
pub open spec fn table_view(entries: Seq<(String, String)>) -> Seq<(Seq<char>, Seq<char>)> {
    entries.map_values(|e: (String, String)| (e.0@, e.1@))
}

/// An unlisted scalar type gets the string tag: the table never rejects a name.
pub proof fn lemma_unlisted_scalar_is_string(scalar: Seq<char>)
    requires
        forall|i: int| 0 <= i < recs_type_table().len() ==> recs_type_table()[i].0 != scalar,
    ensures
        recs_type_of(scalar) == fallback_tag(),
{
    lemma_lookup_absent(recs_type_table(), scalar, 0);
}

proof fn lemma_lookup_absent(table: Seq<(Seq<char>, Seq<char>)>, key: Seq<char>, i: int)
    requires
        0 <= i,
        forall|j: int| 0 <= j < table.len() ==> table[j].0 != key,
    ensures
        table_lookup(table, key, i) is None,
    decreases table.len() - i,
{
    if i < table.len() {
        lemma_lookup_absent(table, key, i + 1);
    }
}

fn entry(name: &str, tag: &str) -> (r: (String, String))
    ensures
        r.0@ == name@,
        r.1@ == tag@,
{
    (String::from_str(name), String::from_str(tag))
}

/// Builds the table from scalar type names to container tags.
pub fn create_cairo_to_recs_type_map() -> (r: Vec<(String, String)>)
    ensures
        table_view(r@) == recs_type_table(),
{
    let mut map: Vec<(String, String)> = Vec::new();
    map.push(entry("bool", "RecsType.Boolean"));
    map.push(entry("u8", "RecsType.Number"));
    map.push(entry("u16", "RecsType.Number"));
    map.push(entry("u32", "RecsType.Number"));
    map.push(entry("u64", "RecsType.BigInt"));
    map.push(entry("usize", "RecsType.Number"));
    map.push(entry("u128", "RecsType.BigInt"));
    map.push(entry("u256", "RecsType.BigInt"));
    map.push(entry("felt252", "RecsType.BigInt"));
    map.push(entry("contractaddress", "RecsType.BigInt"));
    map.push(entry("enum", "RecsType.String"));
    map.push(entry("array", "RecsType.StringArray"));
    map.push(entry("bytearray", "RecsType.String"));
    assert(table_view(map@) =~= recs_type_table());
    map
}

/// The tag of `scalar` in `map`, or the string tag when `map` does not list it.
pub fn lookup_recs_type(map: &Vec<(String, String)>, scalar: &str) -> (r: String)
    ensures
        r@ == match table_lookup(table_view(map@), scalar@, 0) {
            Some(tag) => tag,
            None => fallback_tag(),
        },
{
    let key = String::from_str(scalar);
    let mut i: usize = 0;
    while i < map.len()
        invariant
            0 <= i <= map@.len(),
            key@ == scalar@,
            table_lookup(table_view(map@), scalar@, 0) == table_lookup(
                table_view(map@),
                scalar@,
                i as int,
            ),
        decreases map@.len() - i,
    {
        if map[i].0 == key {
            return map[i].1.clone();
        }
        i += 1;
    }
    String::from_str("RecsType.String")
}

/// The container tag of a scalar type name, already folded to lower case.
pub fn recs_type_for(scalar: &str) -> (r: String)
    ensures
        r@ == recs_type_of(scalar@),
{
    let map = create_cairo_to_recs_type_map();
    lookup_recs_type(&map, scalar)
}

} // verus!
