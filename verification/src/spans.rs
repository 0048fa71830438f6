//! Where a declaration stands in a source text: from the lines of
//! attributes and comments above it to the brace that closes it.
//!
//! Positions are counted in characters.

use vstd::prelude::*;
use vstd::string::*;
use crate::text::{
    is_prefix, is_space, is_whitespace, lemma_trim_bounds, matches_at, to_chars, trim,
    trim_range,
};

verus! {

/// The start of the line that holds the position `pos`: the position behind
/// the last line feed before `pos`.
pub open spec fn line_start(s: Seq<char>, pos: int) -> int
    decreases pos,
{
    if pos <= 0 || pos > s.len() {
        0
    } else if s[pos - 1] == '\n' {
        pos
    } else {
        line_start(s, pos - 1)
    }
}

/// A line that belongs to the declaration below it: an attribute, a
/// documentation comment, or a blank line.
pub open spec fn is_lead_line(line: Seq<char>) -> bool {
    let t = trim(line);
    t.len() == 0 || is_prefix("#["@, t) || is_prefix("///"@, t) || is_prefix("//!"@, t)
        || is_prefix("/**"@, t)
}

/// Walks upwards from the line that ends at `end`, over the lines that
/// belong to the declaration below; `current` is the start of the last such
/// line met so far. The walk ends at the first other line, or at the start
/// of the text.
pub open spec fn lead_start(s: Seq<char>, end: int, current: int) -> int
    decreases end,
{
    if end < 0 || end > s.len() {
        current
    } else {
        let ls = line_start(s, end);
        if 0 <= ls <= end && is_lead_line(s.subrange(ls, end)) {
            if ls == 0 {
                0
            } else {
                lead_start(s, ls - 1, ls)
            }
        } else {
            current
        }
    }
}

/// Where a declaration begins whose keyword stands at `pos`: at `pos`, or at
/// the start of the first of the lines above that belong to it.
pub open spec fn definition_start(s: Seq<char>, pos: int) -> int {
    lead_start(s, pos, pos)
}

/// The position behind the brace that closes the first block opened at or
/// after `i`, with `count` blocks open so far.
pub open spec fn close_of(s: Seq<char>, i: int, count: int, opened: bool) -> Option<int>
    decreases s.len() - i,
{
    if i < 0 || i >= s.len() {
        None
    } else if s[i] == '{' {
        close_of(s, i + 1, count + 1, true)
    } else if s[i] == '}' {
        if opened && count == 1 {
            Some(i + 1)
        } else {
            close_of(s, i + 1, count - 1, opened)
        }
    } else {
        close_of(s, i + 1, count, opened)
    }
}

/// Where a declaration ends whose keyword stands at `pos`: behind the brace
/// that closes its block and the line feed that follows it, if one does; at
/// `pos` if the block is never closed.
pub open spec fn definition_end(s: Seq<char>, pos: int) -> int {
    match close_of(s, pos, 0, false) {
        Some(e) => if e < s.len() && s[e] == '\n' {
            e + 1
        } else {
            e
        },
        None => pos,
    }
}

/// Where the rest of the line ends that follows position `end`, if that rest
/// holds nothing but white space up to its line feed; `end` otherwise.
pub open spec fn line_rest_end(s: Seq<char>, end: int, i: int) -> int
    decreases s.len() - i,
{
    if i < 0 || i >= s.len() {
        end
    } else if s[i] == '\n' {
        i + 1
    } else if is_space(s[i]) {
        line_rest_end(s, end, i + 1)
    } else {
        end
    }
}

/// The start of the line that holds the position `pos`.
pub fn find_line_start(v: &Vec<char>, pos: usize) -> (r: usize)
    requires
        pos <= v.len(),
    ensures
        r == line_start(v@, pos as int),
        r <= pos,
{
    let mut p: usize = pos;
    while p > 0 && v[p - 1] != '\n'
        invariant
            p <= pos <= v.len(),
            line_start(v@, pos as int) == line_start(v@, p as int),
        decreases p,
    {
        p -= 1;
    }
    p
}

/// Whether the text `v[a..b]`, without surrounding white space, begins with `p`.
pub fn trimmed_starts_with(v: &Vec<char>, a: usize, b: usize, p: &str) -> (r: bool)
    requires
        a <= b <= v.len(),
    ensures
        r == is_prefix(p@, trim(v@.subrange(a as int, b as int))),
{
    let (x, y) = trim_range(v, a, b);
    let pv = to_chars(p);
    let ghost line = v@.subrange(a as int, b as int);
    proof {
        lemma_trim_bounds(line);
        assert(trim(line) =~= v@.subrange(x as int, y as int));
    }
    if pv.len() > y - x {
        return false;
    }
    let r = matches_at(v, &pv, x);
    proof {
        let t = v@.subrange(x as int, y as int);
        assert(t.subrange(0, pv.len() as int) =~= v@.subrange(x as int, x + pv.len()));
    }
    r
}

/// Whether the line `v[a..b]` belongs to the declaration below it.
pub fn is_lead(v: &Vec<char>, a: usize, b: usize) -> (r: bool)
    requires
        a <= b <= v.len(),
    ensures
        r == is_lead_line(v@.subrange(a as int, b as int)),
{
    let (x, y) = trim_range(v, a, b);
    proof {
        let line = v@.subrange(a as int, b as int);
        lemma_trim_bounds(line);
        assert(trim(line) =~= v@.subrange(x as int, y as int));
    }
    x == y || trimmed_starts_with(v, a, b, "#[") || trimmed_starts_with(v, a, b, "///")
        || trimmed_starts_with(v, a, b, "//!") || trimmed_starts_with(v, a, b, "/**")
}

/// Where a declaration begins whose keyword stands at `pos`.
pub fn find_definition_start(v: &Vec<char>, pos: usize) -> (r: usize)
    requires
        pos <= v.len(),
    ensures
        r == definition_start(v@, pos as int),
        r <= pos,
{
    let mut end: usize = pos;
    let mut current: usize = pos;
    loop
        invariant
            end <= current <= pos <= v.len(),
            definition_start(v@, pos as int) == lead_start(v@, end as int, current as int),
        decreases end,
    {
        let ls = find_line_start(v, end);
        if !is_lead(v, ls, end) {
            return current;
        }
        if ls == 0 {
            return 0;
        }
        current = ls;
        end = ls - 1;
    }
}

/// Where a declaration ends whose keyword stands at `pos`.
pub fn find_definition_end(v: &Vec<char>, pos: usize) -> (r: usize)
    requires
        pos <= v.len(),
    ensures
        r == definition_end(v@, pos as int),
        pos <= r <= v.len(),
{
    let mut count: i128 = 0;
    let mut opened = false;
    let mut i: usize = pos;
    while i < v.len()
        invariant
            pos <= i <= v.len(),
            -(i - pos) <= count <= i - pos,
            close_of(v@, pos as int, 0, false) == close_of(v@, i as int, count as int, opened),
        decreases v.len() - i,
    {
        if v[i] == '{' {
            count += 1;
            opened = true;
        } else if v[i] == '}' {
            if opened && count == 1 {
                let e = i + 1;
                if e < v.len() && v[e] == '\n' {
                    return e + 1;
                }
                return e;
            }
            count -= 1;
        }
        i += 1;
    }
    pos
}

/// Where the rest of the line ends that follows position `end`.
pub fn find_line_rest_end(v: &Vec<char>, end: usize) -> (r: usize)
    requires
        end <= v.len(),
    ensures
        r == line_rest_end(v@, end as int, end as int),
        end <= r <= v.len(),
{
    let mut i: usize = end;
    while i < v.len()
        invariant
            end <= i <= v.len(),
            line_rest_end(v@, end as int, end as int) == line_rest_end(v@, end as int, i as int),
        decreases v.len() - i,
    {
        if v[i] == '\n' {
            return i + 1;
        }
        if !is_whitespace(v[i]) {
            return end;
        }
        i += 1;
    }
    end
}

} // verus!
