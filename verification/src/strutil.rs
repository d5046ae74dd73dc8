//! Small string helpers shared by the resolver and the renderer: joining
//! path segments with a separator, equality of string slices, and the fixed
//! list of primitive scalar type names.
use vstd::prelude::*;

verus! {

/// The characters of `parts` joined by `sep`: empty for no parts, the single
/// part alone, and otherwise each part separated from the next by `sep`.
pub open spec fn seq_join(parts: Seq<Seq<char>>, sep: Seq<char>) -> Seq<char>
    decreases parts.len(),
{
    if parts.len() == 0 {
        Seq::empty()
    } else if parts.len() == 1 {
        parts[0]
    } else {
        parts[0] + sep + seq_join(parts.subrange(1, parts.len() as int), sep)
    }
}

/// Appending one more part to a non-empty list appends the separator and the
/// part to the joined text.
pub proof fn lemma_seq_join_push(parts: Seq<Seq<char>>, sep: Seq<char>, part: Seq<char>)
    ensures
        parts.len() == 0 ==> seq_join(parts.push(part), sep) == part,
        parts.len() > 0 ==> seq_join(parts.push(part), sep) == seq_join(parts, sep) + sep + part,
    decreases parts.len(),
{
    if parts.len() == 0 {
        assert(parts.push(part)[0] == part);
    } else if parts.len() == 1 {
        assert(parts.push(part).subrange(1, 2) =~= seq![part]);
        assert(seq_join(seq![part], sep) == part);
    } else {
        let rest = parts.subrange(1, parts.len() as int);
        lemma_seq_join_push(rest, sep, part);
        assert(parts.push(part).subrange(1, parts.len() as int + 1) =~= rest.push(part));
    }
}

/// Relies on str's `PartialEq`: two string slices are equal exactly when
/// their byte sequences, and so their character sequences, are equal.
#[verifier::external_body]
pub fn str_eq(a: &str, b: &str) -> (r: bool)
    ensures
        r == (a@ == b@),
{
    a == b
}

/// Joins the given segments with the separator, in order.
pub fn join_segments(parts: &Vec<String>, sep: &str) -> (res: String)
    ensures
        res@ == seq_join(parts.deep_view(), sep@),
{
    let mut res = String::new();
    let mut i: usize = 0;
    while i < parts.len()
        invariant
            i <= parts.len(),
            parts.deep_view().len() == parts.len(),
            forall|j: int| 0 <= j < parts.len() ==> parts.deep_view()[j] == parts@[j]@,
            res@ == seq_join(parts.deep_view().take(i as int), sep@),
        decreases parts.len() - i,
    {
        proof {
            lemma_seq_join_push(parts.deep_view().take(i as int), sep@, parts.deep_view()[i as int]);
            assert(parts.deep_view().take(i + 1) =~= parts.deep_view().take(i as int).push(
                parts.deep_view()[i as int],
            ));
        }
        if i > 0 {
            res.append(sep);
        }
        res.append(parts[i].as_str());
        i = i + 1;
    }
    proof {
        assert(parts.deep_view().take(parts.len() as int) =~= parts.deep_view());
    }
    res
}

/// The fixed primitive scalar type names: rendered without cross-reference
/// brackets when primitive linking is disabled.
pub open spec fn is_primitive_name(s: Seq<char>) -> bool {
    ||| s == "u8"@
    ||| s == "u16"@
    ||| s == "u32"@
    ||| s == "u64"@
    ||| s == "u128"@
    ||| s == "usize"@
    ||| s == "i8"@
    ||| s == "i16"@
    ||| s == "i32"@
    ||| s == "i64"@
    ||| s == "i128"@
    ||| s == "isize"@
    ||| s == "f32"@
    ||| s == "f64"@
    ||| s == "bool"@
    ||| s == "char"@
    ||| s == "str"@
}

/// Decides whether `s` names a primitive scalar type.
pub fn primitive_name(s: &str) -> (r: bool)
    ensures
        r == is_primitive_name(s@),
{
    str_eq(s, "u8") || str_eq(s, "u16") || str_eq(s, "u32") || str_eq(s, "u64") || str_eq(
        s,
        "u128",
    ) || str_eq(s, "usize") || str_eq(s, "i8") || str_eq(s, "i16") || str_eq(s, "i32") || str_eq(
        s,
        "i64",
    ) || str_eq(s, "i128") || str_eq(s, "isize") || str_eq(s, "f32") || str_eq(s, "f64") || str_eq(
        s,
        "bool",
    ) || str_eq(s, "char") || str_eq(s, "str")
}

/// Whether a changed path names a source file: its last component ends in
/// the source extension. The watch loop triggers a new pass only on such
/// a change.
pub fn is_source_file(name: &str) -> (r: bool)
    ensures
        r == (name@.len() >= 3 && name@.subrange(name@.len() - 3, name@.len() as int) == ".rs"@),
{
    let n = name.unicode_len();
    if n < 3 {
        return false;
    }
    let suffix = name.substring_char(n - 3, n);
    str_eq(suffix, ".rs")
}

} // verus!
