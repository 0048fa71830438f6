//! Replacing declarations in a source text, each in its own stretch, with
//! everything between them kept as it is.

use vstd::prelude::*;
use vstd::string::*;
use crate::error::EvolutionError;
use crate::parser::{TypeDecl, TypeInfo};
use crate::spans::{
    definition_start, find_definition_start, find_line_rest_end, line_rest_end,
};
use crate::text::{concat3, sub_string, to_chars};
use crate::views::lemma_push_view;

verus! {

/// A declaration to replace, and the text to put in its place.
#[derive(Debug, Clone)]
pub struct TypeReplacement {
    pub type_info: TypeInfo,
    pub new_code: String,
}

/// The mathematical value of a `TypeReplacement`.
pub struct ReplacementModel {
    pub decl: TypeDecl,
    pub text: Seq<char>,
}

impl DeepView for TypeReplacement {
    type V = ReplacementModel;

    open spec fn deep_view(&self) -> ReplacementModel {
        ReplacementModel { decl: self.type_info.deep_view(), text: self.new_code@ }
    }
}

/// The whole stretch of a declaration that stands in `start..end`: from the
/// first of the lines above that belong to it, to the end of the line on
/// which it ends, if nothing but white space follows there.
pub open spec fn full_span(s: Seq<char>, start: int, end: int) -> (int, int) {
    (definition_start(s, start), line_rest_end(s, end, end))
}

/// The text `s` with `text` in place of the stretch `a..b`.
pub open spec fn with_replaced(s: Seq<char>, a: int, b: int, text: Seq<char>) -> Seq<char> {
    s.subrange(0, a) + text + s.subrange(b, s.len() as int)
}

/// What replacing one declaration gives: the text with the new declaration
/// in the whole stretch of the old one; for a declaration whose place is not
/// known, the text with the new declaration behind an empty line at its
/// end; an error for a stretch that does not lie in the text.
pub open spec fn replace_one(s: Seq<char>, span: Option<(usize, usize)>, text: Seq<char>) -> Result<
    Seq<char>,
    EvolutionError,
> {
    match span {
        None => Ok(s + "\n\n"@ + text),
        Some((start, end)) => if start <= end <= s.len() {
            let full = full_span(s, start as int, end as int);
            Ok(with_replaced(s, full.0, full.1, text))
        } else {
            Err(EvolutionError::SpanOutOfRange)
        },
    }
}

/// The stretches and new texts of the first `n` replacements whose place is
/// known, in order.
pub open spec fn edits_of(replacements: Seq<ReplacementModel>, n: nat) -> Seq<
    (usize, usize, Seq<char>),
>
    decreases n,
{
    if n == 0 || n > replacements.len() {
        Seq::empty()
    } else {
        let prev = edits_of(replacements, (n - 1) as nat);
        match replacements[n - 1].decl.span {
            Some((a, b)) => prev.push((a, b, replacements[n - 1].text)),
            None => prev,
        }
    }
}

/// Where an edit that starts at `start` goes into the first `p` edits of a
/// list in order: behind the last edit that does not start after it.
pub open spec fn edit_position(sorted: Seq<(usize, usize, Seq<char>)>, start: usize, p: nat) -> nat
    decreases p,
{
    if p == 0 || p > sorted.len() || sorted[p - 1].0 <= start {
        p
    } else {
        edit_position(sorted, start, (p - 1) as nat)
    }
}

/// The first `n` edits ordered by their start; edits of one start keep
/// their order.
pub open spec fn sorted_edits(edits: Seq<(usize, usize, Seq<char>)>, n: nat) -> Seq<
    (usize, usize, Seq<char>),
>
    decreases n,
{
    if n == 0 || n > edits.len() {
        Seq::empty()
    } else {
        let prev = sorted_edits(edits, (n - 1) as nat);
        prev.insert(edit_position(prev, edits[n - 1].0, prev.len()) as int, edits[n - 1])
    }
}

/// Among the first `n` edits, one begins before the edit in front of it ends.
pub open spec fn overlapping(sorted: Seq<(usize, usize, Seq<char>)>, n: nat) -> bool
    decreases n,
{
    if n <= 1 || n > sorted.len() {
        false
    } else {
        overlapping(sorted, (n - 1) as nat) || sorted[n - 2].1 > sorted[n - 1].0
    }
}

/// The text built from the first `n` edits, and the position in `s` up to
/// which it is built: before each edit the text of `s` that lies between
/// it and the edit before it, then the new text of the edit.
pub open spec fn spliced(s: Seq<char>, sorted: Seq<(usize, usize, Seq<char>)>, n: nat) -> Result<
    (Seq<char>, int),
    EvolutionError,
>
    decreases n,
{
    if n == 0 || n > sorted.len() {
        Ok((Seq::empty(), 0int))
    } else {
        match spliced(s, sorted, (n - 1) as nat) {
            Err(e) => Err(e),
            Ok((text, last)) => {
                let edit = sorted[n - 1];
                if !(edit.0 <= edit.1 <= s.len()) {
                    Err(EvolutionError::SpanOutOfRange)
                } else {
                    let full = full_span(s, edit.0 as int, edit.1 as int);
                    if full.0 < last {
                        Err(EvolutionError::OverlappingDefinitions)
                    } else {
                        Ok((text + s.subrange(last, full.0) + edit.2, full.1))
                    }
                }
            },
        }
    }
}

/// What replacing several declarations gives: the text as it is, if there
/// is nothing to replace; an error, if two of the stretches overlap or one
/// does not lie in the text; else the text with each declaration replaced.
/// Replacements whose place is not known are left out.
pub open spec fn replace_many(s: Seq<char>, replacements: Seq<ReplacementModel>) -> Result<
    Seq<char>,
    EvolutionError,
> {
    if replacements.len() == 0 {
        Ok(s)
    } else {
        let edits = edits_of(replacements, replacements.len());
        let sorted = sorted_edits(edits, edits.len());
        if overlapping(sorted, sorted.len()) {
            Err(EvolutionError::OverlappingDefinitions)
        } else {
            match spliced(s, sorted, sorted.len()) {
                Err(e) => Err(e),
                Ok((text, last)) => Ok(text + s.subrange(last, s.len() as int)),
            }
        }
    }
}

/// The whole stretch of a declaration that stands in `start..end`.
pub fn find_full_span(v: &Vec<char>, start: usize, end: usize) -> (r: (usize, usize))
    requires
        start <= end <= v.len(),
    ensures
        (r.0 as int, r.1 as int) == full_span(v@, start as int, end as int),
        r.0 <= start,
        end <= r.1 <= v.len(),
{
    (find_definition_start(v, start), find_line_rest_end(v, end))
}

/// The stretches and new texts of the replacements whose place is known.
fn collect_edits(replacements: &Vec<TypeReplacement>) -> (r: Vec<(usize, usize, String)>)
    ensures
        r.deep_view() == edits_of(replacements.deep_view(), replacements.len() as nat),
{
    let mut r: Vec<(usize, usize, String)> = Vec::new();
    assert(r.deep_view() =~= Seq::<(usize, usize, Seq<char>)>::empty());
    let mut i: usize = 0;
    while i < replacements.len()
        invariant
            i <= replacements.len(),
            r.deep_view() == edits_of(replacements.deep_view(), i as nat),
        decreases replacements.len() - i,
    {
        match replacements[i].type_info.span {
            Some((a, b)) => {
                let e = (a, b, replacements[i].new_code.clone());
                let ghost before = r;
                let ghost added = e;
                r.push(e);
                proof {
                    lemma_push_view(before, r, added);
                }
            },
            None => {},
        }
        i += 1;
    }
    r
}

/// The edits ordered by their start.
pub fn sort_edits(edits: Vec<(usize, usize, String)>) -> (r: Vec<(usize, usize, String)>)
    ensures
        r.deep_view() == sorted_edits(edits.deep_view(), edits.len() as nat),
{
    let mut r: Vec<(usize, usize, String)> = Vec::new();
    assert(r.deep_view() =~= Seq::<(usize, usize, Seq<char>)>::empty());
    let mut i: usize = 0;
    while i < edits.len()
        invariant
            i <= edits.len(),
            r.deep_view() == sorted_edits(edits.deep_view(), i as nat),
        decreases edits.len() - i,
    {
        let mut p: usize = r.len();
        while p > 0 && r[p - 1].0 > edits[i].0
            invariant
                p <= r.len(),
                i < edits.len(),
                edit_position(r.deep_view(), edits@[i as int].0, r.len() as nat) == edit_position(
                    r.deep_view(),
                    edits@[i as int].0,
                    p as nat,
                ),
            decreases p,
        {
            p -= 1;
        }
        let e = (edits[i].0, edits[i].1, edits[i].2.clone());
        let ghost before = r.deep_view();
        let ghost added = e.deep_view();
        r.insert(p, e);
        assert(r.deep_view() =~= before.insert(p as int, added));
        i += 1;
    }
    r
}

/// Whether one of the edits, in order, begins before the edit in front of it ends.
fn any_overlap(sorted: &Vec<(usize, usize, String)>) -> (r: bool)
    ensures
        r == overlapping(sorted.deep_view(), sorted.len() as nat),
{
    let mut i: usize = 1;
    while i < sorted.len()
        invariant
            1 <= i,
            i <= sorted.len() || sorted.len() == 0,
            !overlapping(sorted.deep_view(), i as nat),
        decreases sorted.len() - i,
    {
        if sorted[i - 1].1 > sorted[i].0 {
            proof {
                lemma_overlap_grows(sorted.deep_view(), (i + 1) as nat, sorted.len() as nat);
            }
            return true;
        }
        i += 1;
    }
    false
}

/// An overlap among the first `k` edits is an overlap among the first `n >= k`.
pub proof fn lemma_overlap_grows(sorted: Seq<(usize, usize, Seq<char>)>, k: nat, n: nat)
    requires
        k <= n <= sorted.len(),
        overlapping(sorted, k),
    ensures
        overlapping(sorted, n),
    decreases n,
{
    if k < n {
        lemma_overlap_grows(sorted, k, (n - 1) as nat);
    }
}

/// Replaces declarations in a source text.
pub struct CodeSurgeon {
    original_source: String,
}

impl CodeSurgeon {
    /// The source text.
    pub closed spec fn source(&self) -> Seq<char> {
        self.original_source@
    }

    /// A surgeon for the source text given.
    pub fn new(source: String) -> (r: Self)
        ensures
            r.source() == source@,
    {
        CodeSurgeon { original_source: source }
    }

    /// The source text with one declaration replaced.
    pub fn replace_type_definition(&self, type_info: &TypeInfo, new_definition: &str) -> (r: Result<
        String,
        EvolutionError,
    >)
        ensures
            match r {
                Ok(text) => replace_one(self.source(), type_info.span, new_definition@) == Ok::<
                    Seq<char>,
                    EvolutionError,
                >(text@),
                Err(e) => replace_one(self.source(), type_info.span, new_definition@) == Err::<
                    Seq<char>,
                    EvolutionError,
                >(e),
            },
    {
        match type_info.span {
            None => Ok(concat3(self.original_source.as_str(), "\n\n", new_definition)),
            Some((start, end)) => {
                let v = to_chars(self.original_source.as_str());
                if !(start <= end && end <= v.len()) {
                    return Err(EvolutionError::SpanOutOfRange);
                }
                let (a, b) = find_full_span(&v, start, end);
                let mut out = sub_string(&v, 0, a);
                out.append(new_definition);
                let tail = sub_string(&v, b, v.len());
                out.append(tail.as_str());
                Ok(out)
            },
        }
    }

    /// The source text with several declarations replaced in one pass.
    pub fn replace_multiple_type_definitions(&self, replacements: Vec<TypeReplacement>) -> (r:
        Result<String, EvolutionError>)
        ensures
            match r {
                Ok(text) => replace_many(self.source(), replacements.deep_view()) == Ok::<
                    Seq<char>,
                    EvolutionError,
                >(text@),
                Err(e) => replace_many(self.source(), replacements.deep_view()) == Err::<
                    Seq<char>,
                    EvolutionError,
                >(e),
            },
    {
        if replacements.len() == 0 {
            return Ok(self.original_source.clone());
        }
        let sorted = sort_edits(collect_edits(&replacements));
        if any_overlap(&sorted) {
            return Err(EvolutionError::OverlappingDefinitions);
        }
        let v = to_chars(self.original_source.as_str());
        let mut out = String::new();
        let mut last: usize = 0;
        let mut i: usize = 0;
        while i < sorted.len()
            invariant
                i <= sorted.len(),
                last <= v.len(),
                v@ == self.source(),
                replacements.len() > 0,
                sorted.deep_view() == sorted_edits(
                    edits_of(replacements.deep_view(), replacements.len() as nat),
                    edits_of(replacements.deep_view(), replacements.len() as nat).len(),
                ),
                !overlapping(sorted.deep_view(), sorted.len() as nat),
                spliced(v@, sorted.deep_view(), i as nat) == Ok::<(Seq<char>, int), EvolutionError>(
                    (out@, last as int),
                ),
            decreases sorted.len() - i,
        {
            let start = sorted[i].0;
            let end = sorted[i].1;
            if !(start <= end && end <= v.len()) {
                proof {
                    lemma_splice_error(v@, sorted.deep_view(), (i + 1) as nat, sorted.len() as nat);
                }
                return Err(EvolutionError::SpanOutOfRange);
            }
            let (a, b) = find_full_span(&v, start, end);
            if a < last {
                proof {
                    lemma_splice_error(v@, sorted.deep_view(), (i + 1) as nat, sorted.len() as nat);
                }
                return Err(EvolutionError::OverlappingDefinitions);
            }
            let between = sub_string(&v, last, a);
            out.append(between.as_str());
            out.append(sorted[i].2.as_str());
            last = b;
            i += 1;
        }
        let tail = sub_string(&v, last, v.len());
        out.append(tail.as_str());
        Ok(out)
    }

    /// The whole stretch of a declaration that stands in `start..end`.
    pub fn find_full_definition_span(&self, start: usize, end: usize) -> (r: Result<
        (usize, usize),
        EvolutionError,
    >)
        ensures
            match r {
                Ok(span) => start <= end <= self.source().len() && (span.0 as int, span.1 as int)
                    == full_span(self.source(), start as int, end as int),
                Err(e) => e == EvolutionError::SpanOutOfRange && !(start <= end
                    <= self.source().len()),
            },
    {
        let v = to_chars(self.original_source.as_str());
        if !(start <= end && end <= v.len()) {
            return Err(EvolutionError::SpanOutOfRange);
        }
        Ok(find_full_span(&v, start, end))
    }

    /// The source text, as it was given.
    pub fn original_source(&self) -> (r: &str)
        ensures
            r@ == self.source(),
    {
        self.original_source.as_str()
    }
}

/// An error among the first `k` edits is the error of the first `n >= k`.
pub proof fn lemma_splice_error(s: Seq<char>, sorted: Seq<(usize, usize, Seq<char>)>, k: nat, n: nat)
    requires
        k <= n <= sorted.len(),
        spliced(s, sorted, k) is Err,
    ensures
        spliced(s, sorted, n) == spliced(s, sorted, k),
    decreases n,
{
    if k < n {
        lemma_splice_error(s, sorted, k, (n - 1) as nat);
    }
}

} // verus!
