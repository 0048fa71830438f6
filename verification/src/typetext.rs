//! Type expressions as text: the optional wrapper, its two spellings, and the
//! notions of "the same type" and "compatible types".
//!
//! A type is kept as the text that declares it. The only structure the
//! library reads from that text is the optional wrapper, `Option<T>`, which a
//! token printer may also spell `Option < T >`.

use vstd::prelude::*;
use vstd::string::*;
use crate::text::{
    concat3, is_prefix, is_space, lemma_trim_bounds, replace, replace_all, same_text, skip_spaces,
    drop_spaces, starts_with, sub_string, to_chars, trim, trim_begin, trim_end, trim_range,
};

verus! {

/// `ty` inside the optional wrapper.
pub open spec fn wrap_optional(ty: Seq<char>) -> Seq<char> {
    "Option<"@ + ty + ">"@
}

/// `ty` begins like an optional type, in either spelling.
pub open spec fn is_optional_text(ty: Seq<char>) -> bool {
    is_prefix("Option<"@, ty) || is_prefix("Option <"@, ty)
}

/// What the optional wrapper of `ty` holds, without surrounding white space;
/// `None` where `ty` is not a closed optional wrapper.
pub open spec fn optional_inner(ty: Seq<char>) -> Option<Seq<char>> {
    if ty.len() > 0 && ty.last() == '>' {
        if is_prefix("Option <"@, ty) {
            Some(trim(ty.subrange(8, ty.len() - 1)))
        } else if is_prefix("Option<"@, ty) {
            Some(trim(ty.subrange(7, ty.len() - 1)))
        } else {
            None
        }
    } else {
        None
    }
}

/// `ty` without its optional wrapper, if it has one.
pub open spec fn unwrapped(ty: Seq<char>) -> Seq<char> {
    match optional_inner(ty) {
        Some(inner) => inner,
        None => ty,
    }
}

/// `ty` made optional: wrapped, unless it is optional already.
pub open spec fn optional_form(ty: Seq<char>) -> Seq<char> {
    if is_optional_text(ty) {
        ty
    } else {
        wrap_optional(ty)
    }
}

/// `ty` with a doubled optional wrapper reduced to a single one.
pub open spec fn collapsed(ty: Seq<char>) -> Seq<char> {
    match optional_inner(ty) {
        Some(inner) => if is_optional_text(inner) {
            inner
        } else {
            ty
        },
        None => ty,
    }
}

/// `ty` without the spaces that a token printer puts around angle brackets.
pub open spec fn normalized(ty: Seq<char>) -> Seq<char> {
    replace_all(
        replace_all(replace_all(replace_all(ty, " < "@, "<"@), " >"@, ">"@), "< "@, "<"@),
        " >"@,
        ">"@,
    )
}

/// The integer types that are ranked by width: whether the type is signed,
/// and its rank (a smaller rank is a narrower type).
pub open spec fn integer_rank(ty: Seq<char>) -> Option<(bool, nat)> {
    if ty == "i16"@ {
        Some((true, 1nat))
    } else if ty == "i32"@ {
        Some((true, 2nat))
    } else if ty == "i64"@ {
        Some((true, 3nat))
    } else if ty == "u16"@ {
        Some((false, 1nat))
    } else if ty == "u32"@ {
        Some((false, 2nat))
    } else if ty == "u64"@ {
        Some((false, 3nat))
    } else {
        None
    }
}

/// The names of the primitive number types.
pub open spec fn is_numeric_text(ty: Seq<char>) -> bool {
    ty == "i8"@ || ty == "i16"@ || ty == "i32"@ || ty == "i64"@ || ty == "i128"@ || ty == "isize"@
        || ty == "u8"@ || ty == "u16"@ || ty == "u32"@ || ty == "u64"@ || ty == "u128"@ || ty
        == "usize"@ || ty == "f32"@ || ty == "f64"@
}

/// The pairs of different types that may stand for one another when
/// candidates are only ranked: a number type and `f64`, and any two of
/// `String`, `i64`, `f64`.
pub open spec fn cross_compatible(a: Seq<char>, b: Seq<char>) -> bool {
    ||| (is_numeric_text(a) && b == "f64"@)
    ||| (is_numeric_text(b) && a == "f64"@)
    ||| (a == "String"@ && (b == "i64"@ || b == "f64"@))
    ||| (b == "String"@ && (a == "i64"@ || a == "f64"@))
}

/// Compatibility of two type texts, once normalized: equal; or one of them the
/// optional wrapper of a type compatible with the other; or, where `cross`
/// is set, one of the pairs of `cross_compatible`.
pub open spec fn compatible_texts(a: Seq<char>, b: Seq<char>, cross: bool) -> bool
    decreases a.len() + b.len(),
{
    if a == b {
        true
    } else if is_optional_text(a) && !is_optional_text(b) && optional_inner(a) is Some
        && optional_inner(a).unwrap().len() < a.len() {
        compatible_texts(optional_inner(a).unwrap(), b, cross)
    } else if !is_optional_text(a) && is_optional_text(b) && optional_inner(b) is Some
        && optional_inner(b).unwrap().len() < b.len() {
        compatible_texts(a, optional_inner(b).unwrap(), cross)
    } else {
        cross && cross_compatible(a, b)
    }
}

/// Strict compatibility: the same type up to spacing and optional wrapping.
pub open spec fn strictly_compatible(a: Seq<char>, b: Seq<char>) -> bool {
    compatible_texts(normalized(a), normalized(b), false)
}

/// Loose compatibility: strict compatibility, or a pair of the cross table.
pub open spec fn loosely_compatible(a: Seq<char>, b: Seq<char>) -> bool {
    compatible_texts(normalized(a), normalized(b), true)
}

/// What stands inside a closed optional wrapper is shorter than the wrapper.
pub proof fn lemma_optional_inner_shorter(ty: Seq<char>)
    requires
        optional_inner(ty) is Some,
    ensures
        optional_inner(ty).unwrap().len() < ty.len(),
{
    reveal_strlit("Option <");
    reveal_strlit("Option<");
    if is_prefix("Option <"@, ty) {
        let inside = ty.subrange(8, ty.len() - 1);
        assert(ty.subrange(0, 8)[7] == '<');
        lemma_trim_bounds(inside);
    } else {
        let inside = ty.subrange(7, ty.len() - 1);
        assert(ty.subrange(0, 7)[6] == '<');
        lemma_trim_bounds(inside);
    }
}

/// A text that neither begins nor ends with white space is its own trimmed form.
pub proof fn lemma_trim_keeps(s: Seq<char>)
    requires
        s.len() > 0,
        !is_space(s[0]),
        !is_space(s.last()),
    ensures
        trim(s) == s,
{
    assert(skip_spaces(s, 0) == 0);
    assert(drop_spaces(s, 0, s.len() as int) == s.len());
    assert(s.subrange(0, s.len() as int) =~= s);
}

/// Wrapping is undone by unwrapping, for a type that has no white space at
/// its ends.
pub proof fn lemma_inner_of_wrapped(ty: Seq<char>)
    requires
        ty.len() > 0,
        !is_space(ty[0]),
        !is_space(ty.last()),
    ensures
        optional_inner(wrap_optional(ty)) == Some(ty),
        is_optional_text(wrap_optional(ty)),
{
    reveal_strlit("Option <");
    reveal_strlit("Option<");
    reveal_strlit(">");
    let w = wrap_optional(ty);
    assert(w.len() == ty.len() + 8);
    assert(w.last() == '>');
    assert(w.subrange(0, 7) =~= "Option<"@);
    assert(w.subrange(0, 8)[6] == '<');
    assert(!is_prefix("Option <"@, w));
    assert(w.subrange(7, w.len() - 1) =~= ty);
    lemma_trim_keeps(ty);
}

/// Double-optional collapse: a type wrapped twice in the optional wrapper
/// collapses to the type wrapped once.
pub proof fn law_double_optional_collapses(ty: Seq<char>)
    ensures
        collapsed(wrap_optional(wrap_optional(ty))) == wrap_optional(ty),
{
    reveal_strlit("Option <");
    reveal_strlit("Option<");
    reveal_strlit(">");
    let once = wrap_optional(ty);
    assert(once.len() == ty.len() + 8);
    assert(once[0] == 'O');
    assert(once.last() == '>');
    lemma_inner_of_wrapped(once);
    assert(once.subrange(0, 7) =~= "Option<"@);
}

/// Making a type optional twice is the same as making it optional once: an
/// optional type is never wrapped again.
pub proof fn law_optional_form_idempotent(ty: Seq<char>)
    ensures
        optional_form(optional_form(ty)) == optional_form(ty),
        is_optional_text(optional_form(ty)),
{
    if !is_optional_text(ty) {
        let w = wrap_optional(ty);
        assert(w.subrange(0, "Option<"@.len() as int) =~= "Option<"@);
    }
}

/// Whether `ty` begins like an optional type.
pub fn is_optional(ty: &str) -> (r: bool)
    ensures
        r == is_optional_text(ty@),
{
    starts_with(ty, "Option<") || starts_with(ty, "Option <")
}

/// `ty` made optional: wrapped, unless it is optional already.
pub fn make_optional(ty: &str) -> (r: String)
    ensures
        r@ == optional_form(ty@),
{
    if is_optional(ty) {
        String::from_str(ty)
    } else {
        concat3("Option<", ty, ">")
    }
}

/// What the optional wrapper of `ty` holds.
pub fn option_inner(ty: &str) -> (r: Option<String>)
    ensures
        r.deep_view() == optional_inner(ty@),
{
    let v = to_chars(ty);
    let n = v.len();
    if n == 0 || v[n - 1] != '>' {
        return None;
    }
    proof {
        reveal_strlit("Option <");
        reveal_strlit("Option<");
    }
    let skip: usize = if starts_with(ty, "Option <") {
        assert(v@.subrange(0, 8)[7] == '<');
        8
    } else if starts_with(ty, "Option<") {
        assert(v@.subrange(0, 7)[6] == '<');
        7
    } else {
        return None;
    };
    let (a, b) = trim_range(&v, skip, n - 1);
    let r = sub_string(&v, a, b);
    proof {
        let inside = v@.subrange(skip as int, n - 1);
        lemma_trim_bounds(inside);
        assert(inside.subrange(trim_begin(inside), trim_end(inside)) =~= v@.subrange(
            a as int,
            b as int,
        ));
    }
    Some(r)
}

/// `ty` without its optional wrapper, if it has one.
pub fn unwrap_option(ty: &str) -> (r: String)
    ensures
        r@ == unwrapped(ty@),
{
    match option_inner(ty) {
        Some(inner) => inner,
        None => String::from_str(ty),
    }
}

/// `ty` with a doubled optional wrapper reduced to a single one.
pub fn collapse_optional(ty: &str) -> (r: String)
    ensures
        r@ == collapsed(ty@),
{
    match option_inner(ty) {
        Some(inner) => {
            if is_optional(inner.as_str()) {
                inner
            } else {
                String::from_str(ty)
            }
        },
        None => String::from_str(ty),
    }
}

/// `ty` without the spaces that a token printer puts around angle brackets.
pub fn normalize_type(ty: &str) -> (r: String)
    ensures
        r@ == normalized(ty@),
{
    let a = replace(ty, " < ", "<");
    let b = replace(a.as_str(), " >", ">");
    let c = replace(b.as_str(), "< ", "<");
    replace(c.as_str(), " >", ">")
}

/// Whether `ty` names a primitive number type.
pub fn is_numeric_type(ty: &str) -> (r: bool)
    ensures
        r == is_numeric_text(ty@),
{
    same_text(ty, "i8") || same_text(ty, "i16") || same_text(ty, "i32") || same_text(ty, "i64")
        || same_text(ty, "i128") || same_text(ty, "isize") || same_text(ty, "u8") || same_text(
        ty,
        "u16",
    ) || same_text(ty, "u32") || same_text(ty, "u64") || same_text(ty, "u128") || same_text(
        ty,
        "usize",
    ) || same_text(ty, "f32") || same_text(ty, "f64")
}

/// Whether the two types are a pair of the cross table.
pub fn in_cross_table(a: &str, b: &str) -> (r: bool)
    ensures
        r == cross_compatible(a@, b@),
{
    (is_numeric_type(a) && same_text(b, "f64")) || (is_numeric_type(b) && same_text(a, "f64")) || (
    same_text(a, "String") && (same_text(b, "i64") || same_text(b, "f64"))) || (same_text(
        b,
        "String",
    ) && (same_text(a, "i64") || same_text(a, "f64")))
}

/// Compatibility of two normalized type texts.
pub fn compatible_normalized(a: &str, b: &str, cross: bool) -> (r: bool)
    ensures
        r == compatible_texts(a@, b@, cross),
    decreases a@.len() + b@.len(),
{
    if same_text(a, b) {
        return true;
    }
    let oa = is_optional(a);
    let ob = is_optional(b);
    if oa && !ob {
        if let Some(inner) = option_inner(a) {
            proof {
                lemma_optional_inner_shorter(a@);
            }
            return compatible_normalized(inner.as_str(), b, cross);
        }
    } else if !oa && ob {
        if let Some(inner) = option_inner(b) {
            proof {
                lemma_optional_inner_shorter(b@);
            }
            return compatible_normalized(a, inner.as_str(), cross);
        }
    }
    cross && in_cross_table(a, b)
}

/// Strict compatibility of two types.
pub fn types_strictly_compatible(a: &str, b: &str) -> (r: bool)
    ensures
        r == strictly_compatible(a@, b@),
{
    let x = normalize_type(a);
    let y = normalize_type(b);
    compatible_normalized(x.as_str(), y.as_str(), false)
}

/// Loose compatibility of two types.
pub fn types_loosely_compatible(a: &str, b: &str) -> (r: bool)
    ensures
        r == loosely_compatible(a@, b@),
{
    let x = normalize_type(a);
    let y = normalize_type(b);
    compatible_normalized(x.as_str(), y.as_str(), true)
}

/// The rank of an integer type that is ranked by width.
pub fn rank_of(ty: &str) -> (r: Option<(bool, u8)>)
    ensures
        match r {
            Some((signed, rank)) => integer_rank(ty@) == Some((signed, rank as nat)),
            None => integer_rank(ty@) is None,
        },
{
    if same_text(ty, "i16") {
        Some((true, 1))
    } else if same_text(ty, "i32") {
        Some((true, 2))
    } else if same_text(ty, "i64") {
        Some((true, 3))
    } else if same_text(ty, "u16") {
        Some((false, 1))
    } else if same_text(ty, "u32") {
        Some((false, 2))
    } else if same_text(ty, "u64") {
        Some((false, 3))
    } else {
        None
    }
}

} // verus!
