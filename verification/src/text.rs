//! Text as sequences of characters: the searches, cuts and rewrites that the
//! rest of the library performs on type names and source text.
//!
//! Every function states its result over `Seq<char>`, the view of `str` and
//! `String`. Positions are counted in characters.

use vstd::prelude::*;
use vstd::string::*;

verus! {

/// `p` is the beginning of `s`.
pub open spec fn is_prefix(p: Seq<char>, s: Seq<char>) -> bool {
    p.len() <= s.len() && s.subrange(0, p.len() as int) == p
}

/// `p` is the end of `s`.
pub open spec fn is_suffix(p: Seq<char>, s: Seq<char>) -> bool {
    p.len() <= s.len() && s.subrange(s.len() - p.len(), s.len() as int) == p
}

/// `p` stands in `s` at position `i`.
pub open spec fn occurs_at(s: Seq<char>, p: Seq<char>, i: int) -> bool {
    0 <= i && i + p.len() <= s.len() && s.subrange(i, i + p.len()) == p
}

/// `p` stands somewhere in `s`.
pub open spec fn contains_text(s: Seq<char>, p: Seq<char>) -> bool {
    exists|i: int| occurs_at(s, p, i)
}

/// `r` is the first position at or after `from` where `p` stands in `s`, or
/// `None` if there is no such position.
pub open spec fn is_first_occurrence(s: Seq<char>, p: Seq<char>, from: int, r: Option<int>) -> bool {
    match r {
        Some(i) => from <= i && occurs_at(s, p, i) && forall|j: int|
            from <= j < i ==> !occurs_at(s, p, j),
        None => forall|j: int| from <= j ==> !occurs_at(s, p, j),
    }
}

/// `r` is the last position where `p` stands in `s`, or `None` if there is none.
pub open spec fn is_last_occurrence(s: Seq<char>, p: Seq<char>, r: Option<int>) -> bool {
    match r {
        Some(i) => occurs_at(s, p, i) && forall|j: int| i < j ==> !occurs_at(s, p, j),
        None => forall|j: int| !occurs_at(s, p, j),
    }
}

/// The first position at or after `from` where `p` stands in `s`.
pub open spec fn find_text(s: Seq<char>, p: Seq<char>, from: int) -> Option<int>
    decreases s.len() - from,
{
    if from < 0 || from + p.len() > s.len() {
        None
    } else if occurs_at(s, p, from) {
        Some(from)
    } else if from >= s.len() {
        None
    } else {
        find_text(s, p, from + 1)
    }
}

/// What `find_text` finds is the first occurrence; it finds nothing only if
/// there is none.
pub proof fn lemma_find_text(s: Seq<char>, p: Seq<char>, from: int)
    requires
        0 <= from,
    ensures
        is_first_occurrence(s, p, from, find_text(s, p, from)),
    decreases s.len() - from,
{
    if from + p.len() <= s.len() && !occurs_at(s, p, from) {
        if from < s.len() {
            lemma_find_text(s, p, from + 1);
        } else {
            assert(s.subrange(from, from + p.len()) =~= p);
        }
    }
}

/// The white-space characters of Unicode.
pub open spec fn is_space(c: char) -> bool {
    let n = c as u32;
    (0x09 <= n <= 0x0D) || n == 0x20 || n == 0x85 || n == 0xA0 || n == 0x1680 || (0x2000 <= n
        <= 0x200A) || n == 0x2028 || n == 0x2029 || n == 0x202F || n == 0x205F || n == 0x3000
}

/// The first position at or after `i` that holds no white space (the length
/// of `s` if there is none).
pub open spec fn skip_spaces(s: Seq<char>, i: int) -> int
    decreases s.len() - i,
{
    if 0 <= i < s.len() && is_space(s[i]) {
        skip_spaces(s, i + 1)
    } else {
        i
    }
}

/// The end of `s` without the white space before position `j`, never below `lo`.
pub open spec fn drop_spaces(s: Seq<char>, lo: int, j: int) -> int
    decreases j,
{
    if 0 <= lo < j <= s.len() && is_space(s[j - 1]) {
        drop_spaces(s, lo, j - 1)
    } else {
        j
    }
}

/// Where the text of `s` without surrounding white space begins.
pub open spec fn trim_begin(s: Seq<char>) -> int {
    skip_spaces(s, 0)
}

/// Where the text of `s` without surrounding white space ends.
pub open spec fn trim_end(s: Seq<char>) -> int {
    drop_spaces(s, trim_begin(s), s.len() as int)
}

/// `s` without the white space at its two ends.
pub open spec fn trim(s: Seq<char>) -> Seq<char> {
    s.subrange(trim_begin(s), trim_end(s))
}

/// `s` with every occurrence of `from` replaced by `to`, reading from the left
/// and never looking twice at a replaced stretch. An empty `from` changes
/// nothing.
pub open spec fn replace_all(s: Seq<char>, from: Seq<char>, to: Seq<char>) -> Seq<char>
    decreases s.len(),
{
    if from.len() == 0 || s.len() < from.len() {
        s
    } else if is_prefix(from, s) {
        to + replace_all(s.skip(from.len() as int), from, to)
    } else {
        seq![s[0]] + replace_all(s.skip(1), from, to)
    }
}

/// `s` with every trailing repetition of `p` taken off. An empty `p` changes
/// nothing.
pub open spec fn strip_suffix_all(s: Seq<char>, p: Seq<char>) -> Seq<char>
    decreases s.len(),
{
    if p.len() > 0 && is_suffix(p, s) {
        strip_suffix_all(s.subrange(0, s.len() - p.len()), p)
    } else {
        s
    }
}

/// The character of the digit `d`.
pub open spec fn digit_char(d: nat) -> char {
    (('0' as u8) + (d % 10) as u8) as char
}

/// `n` written in base ten.
pub open spec fn decimal(n: nat) -> Seq<char>
    decreases n,
{
    if n < 10 {
        seq![digit_char(n)]
    } else {
        decimal(n / 10).push(digit_char(n % 10))
    }
}

pub proof fn lemma_skip_spaces_bounds(s: Seq<char>, i: int)
    requires
        0 <= i <= s.len(),
    ensures
        i <= skip_spaces(s, i) <= s.len(),
    decreases s.len() - i,
{
    if i < s.len() && is_space(s[i]) {
        lemma_skip_spaces_bounds(s, i + 1);
    }
}

pub proof fn lemma_drop_spaces_bounds(s: Seq<char>, lo: int, j: int)
    requires
        0 <= lo <= j <= s.len(),
    ensures
        lo <= drop_spaces(s, lo, j) <= j,
    decreases j,
{
    if lo < j && is_space(s[j - 1]) {
        lemma_drop_spaces_bounds(s, lo, j - 1);
    }
}

/// The trimmed stretch lies inside the text.
pub proof fn lemma_trim_bounds(s: Seq<char>)
    ensures
        0 <= trim_begin(s) <= trim_end(s) <= s.len(),
{
    lemma_skip_spaces_bounds(s, 0);
    lemma_drop_spaces_bounds(s, trim_begin(s), s.len() as int);
}

/// The lower-case form of a text, as `str::to_lowercase` gives it.
pub uninterp spec fn lowercase_of(s: Seq<char>) -> Seq<char>;

/// The lower-case form of a text (`str::to_lowercase`), which follows the
/// case tables of Unicode; the contract names the result.
#[verifier::external_body]
pub(crate) fn to_lowercase(s: &str) -> (r: String)
    ensures
        r@ == lowercase_of(s@),
{
    s.to_lowercase()
}

/// Appends one character to a string (`String::push`): afterwards the string
/// is the old one followed by `c`.
#[verifier::external_body]
pub(crate) fn push_char(s: &mut String, c: char)
    ensures
        final(s)@ == old(s)@.push(c),
{
    s.push(c)
}

/// The characters of a text, one by one.
pub fn to_chars(s: &str) -> (v: Vec<char>)
    ensures
        v@ == s@,
{
    let mut v: Vec<char> = Vec::new();
    for c in it: s.chars()
        invariant
            v@ == it.seq().take(it.index() as int),
    {
        v.push(c);
    }
    v
}

/// The string of the characters `v[a..b]`.
pub fn sub_string(v: &Vec<char>, a: usize, b: usize) -> (r: String)
    requires
        a <= b <= v.len(),
    ensures
        r@ == v@.subrange(a as int, b as int),
{
    let mut r = String::new();
    let mut i: usize = a;
    while i < b
        invariant
            a <= i <= b <= v.len(),
            r@ == v@.subrange(a as int, i as int),
        decreases b - i,
    {
        push_char(&mut r, v[i]);
        assert(v@.subrange(a as int, i as int).push(v@[i as int]) =~= v@.subrange(
            a as int,
            i + 1,
        ));
        i += 1;
    }
    r
}

/// The string of the characters of `v`.
pub fn from_chars(v: &Vec<char>) -> (r: String)
    ensures
        r@ == v@,
{
    let r = sub_string(v, 0, v.len());
    assert(v@.subrange(0, v.len() as int) =~= v@);
    r
}

/// Whether two texts hold the same characters.
pub fn same_text(a: &str, b: &str) -> (r: bool)
    ensures
        r == (a@ == b@),
{
    let x = to_chars(a);
    let y = to_chars(b);
    if x.len() != y.len() {
        return false;
    }
    let mut i: usize = 0;
    while i < x.len()
        invariant
            i <= x.len(),
            x.len() == y.len(),
            x@ == a@,
            y@ == b@,
            forall|j: int| 0 <= j < i ==> x@[j] == y@[j],
        decreases x.len() - i,
    {
        if x[i] != y[i] {
            assert(x@[i as int] != y@[i as int]);
            return false;
        }
        i += 1;
    }
    assert(x@ =~= y@);
    true
}

/// Whether `p` stands in `s` at position `i`.
pub fn matches_at(s: &Vec<char>, p: &Vec<char>, i: usize) -> (r: bool)
    ensures
        r == occurs_at(s@, p@, i as int),
{
    if p.len() > s.len() || i > s.len() - p.len() {
        return false;
    }
    let mut k: usize = 0;
    while k < p.len()
        invariant
            k <= p.len(),
            i + p.len() <= s.len(),
            forall|j: int| 0 <= j < k ==> s@[i + j] == #[trigger] p@[j],
        decreases p.len() - k,
    {
        if s[i + k] != p[k] {
            assert(s@.subrange(i as int, i + p.len())[k as int] == s@[i + k]);
            return false;
        }
        k += 1;
    }
    assert(s@.subrange(i as int, i + p.len()) =~= p@);
    true
}

/// The first position at or after `from` where `p` stands in `s`.
pub fn find_from(s: &Vec<char>, p: &Vec<char>, from: usize) -> (r: Option<usize>)
    ensures
        is_first_occurrence(
            s@,
            p@,
            from as int,
            match r {
                Some(i) => Some(i as int),
                None => None,
            },
        ),
{
    if p.len() > s.len() || from > s.len() - p.len() {
        return None;
    }
    let last: usize = s.len() - p.len();
    let mut i: usize = from;
    loop
        invariant
            from <= i <= last,
            last == s.len() - p.len(),
            forall|j: int| from <= j < i ==> !occurs_at(s@, p@, j),
        decreases last - i,
    {
        if matches_at(s, p, i) {
            return Some(i);
        }
        if i == last {
            return None;
        }
        i += 1;
    }
}

/// The first position at or after `from` where the text `p` stands in `s`.
pub fn find_in(s: &Vec<char>, p: &str, from: usize) -> (r: Option<usize>)
    ensures
        match r {
            Some(i) => find_text(s@, p@, from as int) == Some(i as int) && from <= i && i + p@.len()
                <= s.len(),
            None => find_text(s@, p@, from as int) is None,
        },
{
    let pv = to_chars(p);
    proof {
        lemma_find_text(s@, p@, from as int);
    }
    match find_from(s, &pv, from) {
        Some(i) => {
            assert(find_text(s@, p@, from as int) == Some(i as int)) by {
                match find_text(s@, p@, from as int) {
                    Some(j) => {
                        assert(!(j < i));
                        assert(!(i < j));
                    },
                    None => {
                        assert(occurs_at(s@, p@, i as int));
                    },
                }
            }
            Some(i)
        },
        None => {
            assert(find_text(s@, p@, from as int) is None) by {
                match find_text(s@, p@, from as int) {
                    Some(j) => {
                        assert(occurs_at(s@, p@, j));
                    },
                    None => {},
                }
            }
            None
        },
    }
}

/// The last position where `p` stands in `s`.
pub fn find_last(s: &Vec<char>, p: &Vec<char>) -> (r: Option<usize>)
    ensures
        is_last_occurrence(
            s@,
            p@,
            match r {
                Some(i) => Some(i as int),
                None => None,
            },
        ),
{
    if p.len() > s.len() {
        return None;
    }
    let mut i: usize = s.len() - p.len();
    loop
        invariant
            i <= s.len() - p.len(),
            p.len() <= s.len(),
            forall|j: int| i < j ==> !occurs_at(s@, p@, j),
        decreases i,
    {
        if matches_at(s, p, i) {
            return Some(i);
        }
        if i == 0 {
            return None;
        }
        i -= 1;
    }
}

/// Whether `s` begins with `p`.
pub fn starts_with(s: &str, p: &str) -> (r: bool)
    ensures
        r == is_prefix(p@, s@),
{
    let sv = to_chars(s);
    let pv = to_chars(p);
    matches_at(&sv, &pv, 0)
}

/// Whether `s` ends with `p`.
pub fn ends_with(s: &str, p: &str) -> (r: bool)
    ensures
        r == is_suffix(p@, s@),
{
    let sv = to_chars(s);
    let pv = to_chars(p);
    if pv.len() > sv.len() {
        return false;
    }
    matches_at(&sv, &pv, sv.len() - pv.len())
}

/// Whether `p` stands somewhere in `s`.
pub fn contains(s: &str, p: &str) -> (r: bool)
    ensures
        r == contains_text(s@, p@),
{
    let sv = to_chars(s);
    let pv = to_chars(p);
    match find_from(&sv, &pv, 0) {
        Some(i) => {
            assert(occurs_at(s@, p@, i as int));
            true
        },
        None => false,
    }
}

/// Whether `c` is white space.
pub fn is_whitespace(c: char) -> (r: bool)
    ensures
        r == is_space(c),
{
    let n: u32 = c as u32;
    (0x09 <= n && n <= 0x0D) || n == 0x20 || n == 0x85 || n == 0xA0 || n == 0x1680 || (0x2000 <= n
        && n <= 0x200A) || n == 0x2028 || n == 0x2029 || n == 0x202F || n == 0x205F || n == 0x3000
}

/// The two ends of the text of `v[lo..hi]` without its surrounding white space.
pub fn trim_range(v: &Vec<char>, lo: usize, hi: usize) -> (r: (usize, usize))
    requires
        lo <= hi <= v.len(),
    ensures
        r.0 == lo + trim_begin(v@.subrange(lo as int, hi as int)),
        r.1 == lo + trim_end(v@.subrange(lo as int, hi as int)),
        lo <= r.0 <= r.1 <= hi,
{
    let ghost s = v@.subrange(lo as int, hi as int);
    let mut a: usize = lo;
    while a < hi && is_whitespace(v[a])
        invariant
            lo <= a <= hi <= v.len(),
            s == v@.subrange(lo as int, hi as int),
            skip_spaces(s, 0) == skip_spaces(s, a - lo),
        decreases hi - a,
    {
        a += 1;
    }
    let mut b: usize = hi;
    while b > a && is_whitespace(v[b - 1])
        invariant
            lo <= a <= b <= hi <= v.len(),
            s == v@.subrange(lo as int, hi as int),
            drop_spaces(s, a - lo, s.len() as int) == drop_spaces(s, a - lo, b - lo),
        decreases b,
    {
        b -= 1;
    }
    (a, b)
}

/// `s` without the white space at its two ends.
pub fn trimmed(s: &str) -> (r: String)
    ensures
        r@ == trim(s@),
{
    let v = to_chars(s);
    assert(v@.subrange(0, v.len() as int) =~= v@);
    let (a, b) = trim_range(&v, 0, v.len());
    sub_string(&v, a, b)
}

/// Whether `s` holds nothing but white space.
pub fn is_blank(s: &str) -> (r: bool)
    ensures
        r == (trim(s@).len() == 0),
{
    let v = to_chars(s);
    assert(v@.subrange(0, v.len() as int) =~= v@);
    let (a, b) = trim_range(&v, 0, v.len());
    a == b
}

/// `s` with every occurrence of `from` replaced by `to`.
pub fn replace(s: &str, from: &str, to: &str) -> (r: String)
    ensures
        r@ == replace_all(s@, from@, to@),
{
    let sv = to_chars(s);
    let fv = to_chars(from);
    let mut out = String::new();
    if fv.len() == 0 {
        return String::from_str(s);
    }
    let mut i: usize = 0;
    assert(out@ + replace_all(sv@.skip(0), fv@, to@) =~= replace_all(sv@, fv@, to@)) by {
        assert(sv@.skip(0) =~= sv@);
    }
    while i < sv.len() && sv.len() - i >= fv.len()
        invariant
            i <= sv.len(),
            fv.len() > 0,
            sv@ == s@,
            fv@ == from@,
            out@ + replace_all(sv@.skip(i as int), fv@, to@) == replace_all(sv@, fv@, to@),
        decreases sv.len() - i,
    {
        let ghost rest = sv@.skip(i as int);
        if matches_at(&sv, &fv, i) {
            assert(rest.subrange(0, fv.len() as int) =~= sv@.subrange(i as int, i + fv.len()));
            assert(rest.skip(fv.len() as int) =~= sv@.skip(i + fv.len()));
            let ghost before = out@;
            out.append(to);
            assert(before + (to@ + replace_all(sv@.skip(i + fv.len()), fv@, to@)) =~= (before
                + to@) + replace_all(sv@.skip(i + fv.len()), fv@, to@));
            i += fv.len();
        } else {
            assert(rest.subrange(0, fv.len() as int) =~= sv@.subrange(i as int, i + fv.len()));
            assert(rest.skip(1) =~= sv@.skip(i + 1));
            let ghost before = out@;
            push_char(&mut out, sv[i]);
            assert(before + (seq![rest[0]] + replace_all(sv@.skip(i + 1), fv@, to@)) =~= before.push(
                sv@[i as int],
            ) + replace_all(sv@.skip(i + 1), fv@, to@));
            i += 1;
        }
    }
    let tail = sub_string(&sv, i, sv.len());
    assert(sv@.subrange(i as int, sv.len() as int) =~= sv@.skip(i as int));
    out.append(tail.as_str());
    out
}

/// `s` with every trailing repetition of `p` taken off.
pub fn strip_suffix_repeated(s: &str, p: &str) -> (r: String)
    ensures
        r@ == strip_suffix_all(s@, p@),
{
    let sv = to_chars(s);
    let pv = to_chars(p);
    let mut end: usize = sv.len();
    if pv.len() == 0 {
        return String::from_str(s);
    }
    assert(sv@.subrange(0, end as int) =~= sv@);
    while end >= pv.len() && matches_at(&sv, &pv, end - pv.len())
        invariant
            end <= sv.len(),
            pv.len() > 0,
            strip_suffix_all(sv@, pv@) == strip_suffix_all(sv@.subrange(0, end as int), pv@),
        decreases end,
    {
        let ghost cur = sv@.subrange(0, end as int);
        assert(cur.subrange(cur.len() - pv.len(), cur.len() as int) =~= sv@.subrange(
            end - pv.len(),
            end as int,
        ));
        assert(cur.subrange(0, cur.len() - pv.len()) =~= sv@.subrange(0, end - pv.len()));
        end -= pv.len();
    }
    proof {
        let cur = sv@.subrange(0, end as int);
        if end >= pv.len() {
            assert(cur.subrange(cur.len() - pv.len(), cur.len() as int) =~= sv@.subrange(
                end - pv.len(),
                end as int,
            ));
        }
    }
    sub_string(&sv, 0, end)
}

/// Appends `n` in base ten to `s`.
pub fn push_decimal(s: &mut String, n: usize)
    ensures
        final(s)@ == old(s)@ + decimal(n as nat),
    decreases n,
{
    if n >= 10 {
        push_decimal(s, n / 10);
    }
    let d: u8 = (n % 10) as u8;
    let ghost before = s@;
    push_char(s, (48u8 + d) as char);
    assert(old(s)@ + decimal(n as nat) =~= before.push(digit_char((n % 10) as nat)));
}

/// The three texts one after the other.
pub fn concat3(a: &str, b: &str, c: &str) -> (r: String)
    ensures
        r@ == a@ + b@ + c@,
{
    let mut r = String::from_str(a);
    r.append(b);
    r.append(c);
    r
}

/// The two texts one after the other.
pub fn concat2(a: &str, b: &str) -> (r: String)
    ensures
        r@ == a@ + b@,
{
    let mut r = String::from_str(a);
    r.append(b);
    r
}

} // verus!
