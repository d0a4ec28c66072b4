//! Canonical model names: the last namespace segment of an identifier, in PascalCase.

use vstd::prelude::*;

verus! {

/// What `str::to_uppercase` makes of a string.
pub uninterp spec fn upper_of(s: Seq<char>) -> Seq<char>;

/// What `char::to_uppercase` makes of a character, collected into a string.
pub uninterp spec fn char_upper_of(c: char) -> Seq<char>;

/// What `char::to_lowercase` makes of a character, collected into a string.
pub uninterp spec fn char_lower_of(c: char) -> Seq<char>;

/// Relies on `str::to_uppercase`: the upper-case form of a string, which depends
/// on its characters alone; an empty string stays empty.
#[verifier::external_body]
fn uppercase(s: &str) -> (r: String)
    ensures
        r@ == upper_of(s@),
        s@.len() == 0 ==> r@.len() == 0,
{
    s.to_uppercase()
}

/// Relies on `char::to_uppercase`: the one or more characters of a character's
/// upper-case form, gathered into a string.
#[verifier::external_body]
fn char_uppercase(c: char) -> (r: String)
    ensures
        r@ == char_upper_of(c),
{
    c.to_uppercase().collect()
}

/// Relies on `char::to_lowercase`: the one or more characters of a character's
/// lower-case form, gathered into a string.
#[verifier::external_body]
fn char_lowercase(c: char) -> (r: String)
    ensures
        r@ == char_lower_of(c),
{
    c.to_lowercase().collect()
}

/// An ASCII decimal digit.
pub open spec fn is_decimal_digit(c: char) -> bool {
    '0' <= c <= '9'
}

/// The value of a run of decimal digits.
pub open spec fn decimal_value(d: Seq<char>) -> int
    decreases d.len(),
{
    if d.len() == 0 {
        0
    } else {
        decimal_value(d.drop_last()) * 10 + (d.last() as u32 - '0' as u32)
    }
}

/// Whether `s` is the text of an `i32`: an optional sign, then one or more decimal
/// digits whose value fits the type.
pub open spec fn is_i32_text(s: Seq<char>) -> bool {
    let signed = s.len() > 0 && (s[0] == '+' || s[0] == '-');
    let digits = if signed {
        s.drop_first()
    } else {
        s
    };
    &&& digits.len() > 0
    &&& forall|i: int| 0 <= i < digits.len() ==> is_decimal_digit(#[trigger] digits[i])
    &&& if signed && s[0] == '-' {
        decimal_value(digits) <= 0x8000_0000
    } else {
        decimal_value(digits) <= 0x7fff_ffff
    }
}

/// Relies on `str::parse::<i32>`: it succeeds exactly on an optional `+` or `-`
/// followed by ASCII decimal digits whose value is in range.
#[verifier::external_body]
fn parses_as_i32(s: &str) -> (r: bool)
    ensures
        r == is_i32_text(s@),
{
    s.parse::<i32>().is_ok()
}

/// Parts that stay fully upper case.
pub open spec fn is_acronym(s: Seq<char>) -> bool {
    s == "ERC"@
}

/// Each character in its lower-case form, in order.
pub open spec fn lower_each(s: Seq<char>) -> Seq<char>
    decreases s.len(),
{
    if s.len() == 0 {
        seq![]
    } else {
        lower_each(s.drop_last()) + char_lower_of(s.last())
    }
}

/// The first character upper case and the rest lower case.
pub open spec fn capitalized(p: Seq<char>) -> Seq<char> {
    if p.len() == 0 {
        seq![]
    } else {
        char_upper_of(p[0]) + lower_each(p.drop_first())
    }
}

/// The form that a part takes, given its upper-case form, whether it reads as a
/// number, and its capitalized form.
pub open spec fn part_form(part: Seq<char>, upper: Seq<char>, numeric: bool, cap: Seq<char>) -> Seq<
    char,
> {
    if is_acronym(upper) {
        upper
    } else if numeric {
        part
    } else {
        cap
    }
}

/// The canonical form of one underscore-delimited part.
pub open spec fn normalized_part(p: Seq<char>) -> Seq<char> {
    part_form(p, upper_of(p), is_i32_text(p), capitalized(p))
}

/// The text after the last `::` of `s`, matching separators from the left; `start`
/// is where the current segment began and `i` where the scan stands.
pub open spec fn last_segment_from(s: Seq<char>, start: int, i: int) -> Seq<char>
    decreases s.len() - i,
{
    if i < 0 || i + 1 >= s.len() {
        s.subrange(start, s.len() as int)
    } else if s[i] == ':' && s[i + 1] == ':' {
        last_segment_from(s, i + 2, i + 2)
    } else {
        last_segment_from(s, start, i + 1)
    }
}

/// The text after the last `::` of `s`.
pub open spec fn last_segment(s: Seq<char>) -> Seq<char> {
    last_segment_from(s, 0, 0)
}

/// The pieces of `s` between underscores, empty pieces included; `start` is where
/// the current piece began and `i` where the scan stands.
pub open spec fn split_underscores_from(s: Seq<char>, start: int, i: int) -> Seq<Seq<char>>
    decreases s.len() - i,
{
    if i < 0 || i >= s.len() {
        seq![s.subrange(start, s.len() as int)]
    } else if s[i] == '_' {
        seq![s.subrange(start, i)] + split_underscores_from(s, i + 1, i + 1)
    } else {
        split_underscores_from(s, start, i + 1)
    }
}

/// The pieces of `s` between underscores, empty pieces included.
pub open spec fn split_underscores(s: Seq<char>) -> Seq<Seq<char>> {
    split_underscores_from(s, 0, 0)
}

/// The canonical forms of `parts`, concatenated.
pub open spec fn join_normalized(parts: Seq<Seq<char>>) -> Seq<char>
    decreases parts.len(),
{
    if parts.len() == 0 {
        seq![]
    } else {
        join_normalized(parts.drop_last()) + normalized_part(parts.last())
    }
}

/// The canonical name of a namespaced model identifier.
pub open spec fn model_name_of(model: Seq<char>) -> Seq<char> {
    join_normalized(split_underscores(last_segment(model)))
}

/// The character sequences of a list of strings.
pub open spec fn views(v: Seq<String>) -> Seq<Seq<char>> {
    v.map_values(|s: String| s@)
}

/// Without a `:` in `s`, the scan finds no separator and keeps all from `start`.
proof fn lemma_no_separator(s: Seq<char>, start: int, i: int)
    requires
        0 <= start <= i <= s.len(),
        forall|j: int| 0 <= j < s.len() ==> s[j] != ':',
    ensures
        last_segment_from(s, start, i) == s.subrange(start, s.len() as int),
    decreases s.len() - i,
{
    if i + 1 < s.len() {
        lemma_no_separator(s, start, i + 1);
    }
}

/// Splitting the part of `a + ['_'] + b` after the underscore is splitting `b`.
proof fn lemma_split_suffix(a: Seq<char>, b: Seq<char>, k0: int, k: int)
    requires
        0 <= k0 <= k <= b.len(),
    ensures
        split_underscores_from(a + seq!['_'] + b, a.len() + 1 + k0, a.len() + 1 + k)
            == split_underscores_from(b, k0, k),
    decreases b.len() - k,
{
    let s = a + seq!['_'] + b;
    let off = a.len() + 1;
    if k < b.len() {
        assert(s[off + k] == b[k]);
        if b[k] == '_' {
            assert(s.subrange(off + k0, off + k) =~= b.subrange(k0, k));
            lemma_split_suffix(a, b, k + 1, k + 1);
        } else {
            lemma_split_suffix(a, b, k0, k + 1);
        }
    } else {
        assert(s.subrange(off + k0, s.len() as int) =~= b.subrange(k0, b.len() as int));
    }
}

/// Splitting `a + ['_'] + b` from a point inside `a` splits the rest of `a`, then `b`.
proof fn lemma_split_prefix(a: Seq<char>, b: Seq<char>, start: int, i: int)
    requires
        0 <= start <= i <= a.len(),
    ensures
        split_underscores_from(a + seq!['_'] + b, start, i) == split_underscores_from(a, start, i)
            + split_underscores(b),
    decreases a.len() - i,
{
    let s = a + seq!['_'] + b;
    if i < a.len() {
        assert(s[i] == a[i]);
        if a[i] == '_' {
            assert(s.subrange(start, i) =~= a.subrange(start, i));
            lemma_split_prefix(a, b, i + 1, i + 1);
            assert(seq![a.subrange(start, i)] + split_underscores_from(a, i + 1, i + 1)
                + split_underscores(b) =~= seq![a.subrange(start, i)] + (split_underscores_from(
                a,
                i + 1,
                i + 1,
            ) + split_underscores(b)));
        } else {
            lemma_split_prefix(a, b, start, i + 1);
        }
    } else {
        assert(s[i] == '_');
        assert(s.subrange(start, i) =~= a.subrange(start, a.len() as int));
        lemma_split_suffix(a, b, 0, 0);
    }
}

/// Normalizing two lists of parts one after the other concatenates the results.
proof fn lemma_join_concat(p: Seq<Seq<char>>, q: Seq<Seq<char>>)
    ensures
        join_normalized(p + q) == join_normalized(p) + join_normalized(q),
    decreases q.len(),
{
    if q.len() == 0 {
        assert(p + q =~= p);
        assert(join_normalized(p) + seq![] =~= join_normalized(p));
    } else {
        assert((p + q).drop_last() =~= p + q.drop_last());
        assert((p + q).last() == q.last());
        lemma_join_concat(p, q.drop_last());
        assert(join_normalized(p) + join_normalized(q.drop_last()) + normalized_part(q.last())
            =~= join_normalized(p) + (join_normalized(q.drop_last()) + normalized_part(
            q.last(),
        )));
    }
}

/// Each underscore-delimited part is normalized on its own: the name of `a_b` is the
/// name of `a` followed by the name of `b`, for identifiers without a `:`.
pub proof fn lemma_name_of_joined_parts(a: Seq<char>, b: Seq<char>)
    requires
        forall|j: int| 0 <= j < a.len() ==> a[j] != ':',
        forall|j: int| 0 <= j < b.len() ==> b[j] != ':',
    ensures
        model_name_of(a + seq!['_'] + b) == model_name_of(a) + model_name_of(b),
{
    let s = a + seq!['_'] + b;
    assert forall|j: int| 0 <= j < s.len() implies s[j] != ':' by {
        if j < a.len() {
            assert(s[j] == a[j]);
        } else if j > a.len() {
            assert(s[j] == b[j - a.len() - 1]);
        }
    }
    lemma_no_separator(s, 0, 0);
    lemma_no_separator(a, 0, 0);
    lemma_no_separator(b, 0, 0);
    assert(s.subrange(0, s.len() as int) =~= s);
    assert(a.subrange(0, a.len() as int) =~= a);
    assert(b.subrange(0, b.len() as int) =~= b);
    lemma_split_prefix(a, b, 0, 0);
    lemma_join_concat(split_underscores(a), split_underscores(b));
}

/// Picks the form of a part from its upper-case form, whether it reads as a
/// number, and its capitalized form.
pub fn choose_part_form(part: &str, upper: &str, numeric: bool, cap: &str) -> (r: String)
    ensures
        r@ == part_form(part@, upper@, numeric, cap@),
{
    let acronym = String::from_str("ERC");
    let upper_owned = String::from_str(upper);
    if upper_owned == acronym {
        upper_owned
    } else if numeric {
        String::from_str(part)
    } else {
        String::from_str(cap)
    }
}

/// The first character of `part` upper case and the rest lower case.
pub fn capitalize(part: &str) -> (r: String)
    ensures
        r@ == capitalized(part@),
{
    let n = part.unicode_len();
    if n == 0 {
        return String::new();
    }
    let mut out = char_uppercase(part.get_char(0));
    let mut i: usize = 1;
    while i < n
        invariant
            1 <= i <= n,
            n == part@.len(),
            out@ == char_upper_of(part@[0]) + lower_each(part@.subrange(1, i as int)),
        decreases n - i,
    {
        let c = part.get_char(i);
        let lower = char_lowercase(c);
        proof {
            let next = part@.subrange(1, i + 1);
            assert(next.drop_last() =~= part@.subrange(1, i as int));
            assert(next.last() == c);
        }
        out.append(lower.as_str());
        i += 1;
    }
    assert(part@.subrange(1, n as int) =~= part@.drop_first());
    out
}

/// The canonical form of one underscore-delimited part: an acronym upper case, a
/// number as it stands, anything else capitalized.
pub fn normalize_part(part: &str) -> (r: String)
    ensures
        r@ == normalized_part(part@),
{
    let upper = uppercase(part);
    let numeric = parses_as_i32(part);
    let cap = capitalize(part);
    choose_part_form(part, upper.as_str(), numeric, cap.as_str())
}

/// The text after the last `::` separator.
pub fn last_segment_of(model: &str) -> (r: String)
    ensures
        r@ == last_segment(model@),
{
    let n = model.unicode_len();
    let mut start: usize = 0;
    let mut i: usize = 0;
    while i < n && i + 1 < n
        invariant
            start <= i <= n,
            n == model@.len(),
            last_segment_from(model@, start as int, i as int) == last_segment(model@),
        decreases n - i,
    {
        if model.get_char(i) == ':' && model.get_char(i + 1) == ':' {
            i = i + 2;
            start = i;
        } else {
            i = i + 1;
        }
    }
    String::from_str(model.substring_char(start, n))
}

/// The pieces between underscores, empty pieces included.
pub fn split_underscores_of(s: &str) -> (r: Vec<String>)
    ensures
        views(r@) == split_underscores(s@),
{
    let n = s.unicode_len();
    let mut parts: Vec<String> = Vec::new();
    let mut start: usize = 0;
    let mut i: usize = 0;
    while i < n
        invariant
            start <= i <= n,
            n == s@.len(),
            views(parts@) + split_underscores_from(s@, start as int, i as int) == split_underscores(
                s@,
            ),
        decreases n - i,
    {
        if s.get_char(i) == '_' {
            let piece = String::from_str(s.substring_char(start, i));
            proof {
                assert(views(parts@.push(piece)) =~= views(parts@).push(piece@));
                assert(views(parts@) + split_underscores_from(s@, start as int, i as int) =~= views(
                    parts@.push(piece),
                ) + split_underscores_from(s@, i + 1, i + 1));
            }
            parts.push(piece);
            i = i + 1;
            start = i;
        } else {
            i = i + 1;
        }
    }
    let piece = String::from_str(s.substring_char(start, n));
    proof {
        assert(views(parts@.push(piece)) =~= views(parts@) + split_underscores_from(
            s@,
            start as int,
            i as int,
        ));
    }
    parts.push(piece);
    parts
}

/// Converts a namespaced, snake-cased model identifier into its PascalCase name:
/// the last `::` segment, split on underscores, each part normalized, joined.
pub fn parse_model_name(model: &str) -> (r: String)
    ensures
        r@ == model_name_of(model@),
{
    let segment = last_segment_of(model);
    let parts = split_underscores_of(segment.as_str());
    let mut out = String::new();
    let mut k: usize = 0;
    while k < parts.len()
        invariant
            0 <= k <= parts@.len(),
            views(parts@) == split_underscores(segment@),
            out@ == join_normalized(views(parts@).take(k as int)),
        decreases parts@.len() - k,
    {
        let form = normalize_part(parts[k].as_str());
        proof {
            let pv = views(parts@);
            assert(pv.take(k + 1).drop_last() =~= pv.take(k as int));
            assert(pv.take(k + 1).last() == parts@[k as int]@);
        }
        out.append(form.as_str());
        k += 1;
    }
    assert(views(parts@).take(parts@.len() as int) =~= views(parts@));
    out
}

} // verus!
