//! Character-sequence utilities: substring search, digit runs, joining and
//! decimal formatting, plus the one case-folding helper the scanners share.
use vstd::prelude::*;

verus! {

/// `needle` occurs in `hay` starting exactly at position `i`.
pub open spec fn at_pos(hay: Seq<char>, needle: Seq<char>, i: int) -> bool {
    &&& 0 <= i
    &&& i + needle.len() <= hay.len()
    &&& hay.subrange(i, i + needle.len() as int) == needle
}

/// `needle` occurs somewhere in `hay`.
pub open spec fn has_sub(hay: Seq<char>, needle: Seq<char>) -> bool {
    exists|i: int| at_pos(hay, needle, i)
}

/// Position of the first occurrence of `needle` in `hay` at or after `i`.
pub open spec fn first_occ_from(hay: Seq<char>, needle: Seq<char>, i: int) -> Option<int>
    decreases hay.len() - i,
{
    if i < 0 || i + needle.len() > hay.len() {
        None
    } else if needle.len() == 0 {
        Some(i)
    } else if at_pos(hay, needle, i) {
        Some(i)
    } else {
        first_occ_from(hay, needle, i + 1)
    }
}

/// Position of the first occurrence of `needle` in `hay`.
pub open spec fn first_occ(hay: Seq<char>, needle: Seq<char>) -> Option<int> {
    first_occ_from(hay, needle, 0)
}

pub proof fn lemma_first_occ_from_props(hay: Seq<char>, needle: Seq<char>, i: int)
    requires
        0 <= i,
    ensures
        match first_occ_from(hay, needle, i) {
            Some(j) => i <= j && at_pos(hay, needle, j) && forall|k: int|
                i <= k < j ==> !at_pos(hay, needle, k),
            None => forall|k: int| k >= i ==> !at_pos(hay, needle, k),
        },
    decreases hay.len() - i,
{
    if i + needle.len() > hay.len() {
        assert forall|k: int| k >= i implies !at_pos(hay, needle, k) by {}
    } else if needle.len() == 0 {
        assert(hay.subrange(i, i + needle.len() as int) =~= needle);
    } else if at_pos(hay, needle, i) {
    } else {
        lemma_first_occ_from_props(hay, needle, i + 1);
    }
}

pub proof fn lemma_first_occ_props(hay: Seq<char>, needle: Seq<char>)
    ensures
        match first_occ(hay, needle) {
            Some(j) => at_pos(hay, needle, j) && forall|k: int| 0 <= k < j ==> !at_pos(
                hay,
                needle,
                k,
            ),
            None => !has_sub(hay, needle),
        },
{
    lemma_first_occ_from_props(hay, needle, 0);
    if first_occ(hay, needle) is None {
        assert(forall|k: int| at_pos(hay, needle, k) ==> k >= 0);
    }
}

/// Whether `needle` occurs at position `i` of `hay`, checked character by character.
pub(crate) fn check_at(hay: &str, needle: &str, i: usize, hay_len: usize, needle_len: usize) -> (b: bool)
    requires
        hay_len == hay@.len(),
        needle_len == needle@.len(),
        i + needle_len <= hay_len,
    ensures
        b == at_pos(hay@, needle@, i as int),
{
    let mut j: usize = 0;
    while j < needle_len
        invariant
            hay_len == hay@.len(),
            needle_len == needle@.len(),
            i + needle_len <= hay_len,
            0 <= j <= needle_len,
            forall|k: int| 0 <= k < j ==> hay@[i + k] == needle@[k],
        decreases needle_len - j,
    {
        if hay.get_char(i + j) != needle.get_char(j) {
            assert(!at_pos(hay@, needle@, i as int)) by {
                assert(hay@.subrange(i as int, i + needle@.len() as int)[j as int] == hay@[i + j]);
            }
            return false;
        }
        j += 1;
    }
    assert(hay@.subrange(i as int, i + needle@.len() as int) =~= needle@);
    true
}

/// Index of the first occurrence of `needle` in `hay`, if any.
pub fn str_index_of(hay: &str, needle: &str) -> (r: Option<usize>)
    ensures
        match r {
            Some(j) => first_occ(hay@, needle@) == Some(j as int),
            None => first_occ(hay@, needle@) is None,
        },
{
    let hay_len = hay.unicode_len();
    let needle_len = needle.unicode_len();
    if needle_len > hay_len {
        return None;
    }
    if needle_len == 0 {
        proof {
            assert(hay@.subrange(0, 0) =~= needle@);
        }
        return Some(0);
    }
    let mut i: usize = 0;
    loop
        invariant
            hay_len == hay@.len(),
            needle_len == needle@.len(),
            1 <= needle_len <= hay_len,
            0 <= i <= hay_len - needle_len + 1,
            first_occ(hay@, needle@) == first_occ_from(hay@, needle@, i as int),
        decreases hay_len - needle_len + 1 - i,
    {
        if i > hay_len - needle_len {
            return None;
        }
        if check_at(hay, needle, i, hay_len, needle_len) {
            return Some(i);
        }
        i += 1;
    }
}

/// Index of the first occurrence of `needle` in `hay` at or after `from`.
pub fn str_index_of_from(hay: &str, needle: &str, from: usize) -> (r: Option<usize>)
    ensures
        match r {
            Some(j) => first_occ_from(hay@, needle@, from as int) == Some(j as int),
            None => first_occ_from(hay@, needle@, from as int) is None,
        },
{
    let hay_len = hay.unicode_len();
    let needle_len = needle.unicode_len();
    if needle_len > hay_len || from > hay_len - needle_len {
        proof {
            lemma_first_occ_from_props(hay@, needle@, from as int);
            if first_occ_from(hay@, needle@, from as int) is Some {
                let j = first_occ_from(hay@, needle@, from as int).unwrap();
                assert(at_pos(hay@, needle@, j));
            }
        }
        return None;
    }
    if needle_len == 0 {
        proof {
            assert(hay@.subrange(from as int, from as int) =~= needle@);
        }
        return Some(from);
    }
    let mut i: usize = from;
    loop
        invariant
            hay_len == hay@.len(),
            needle_len == needle@.len(),
            1 <= needle_len <= hay_len,
            from <= i <= hay_len - needle_len + 1,
            first_occ_from(hay@, needle@, from as int) == first_occ_from(hay@, needle@, i as int),
        decreases hay_len - needle_len + 1 - i,
    {
        if i > hay_len - needle_len {
            return None;
        }
        if check_at(hay, needle, i, hay_len, needle_len) {
            return Some(i);
        }
        i += 1;
    }
}

/// Position of the last occurrence of `needle` in `hay` within `[from, e]`.
pub open spec fn last_occ_in(hay: Seq<char>, needle: Seq<char>, from: int, e: int) -> Option<int>
    decreases e - from + 1,
{
    if e < from || from < 0 || e + needle.len() > hay.len() {
        None
    } else if at_pos(hay, needle, e) {
        Some(e)
    } else {
        last_occ_in(hay, needle, from, e - 1)
    }
}

/// Position of the last occurrence of `needle` in `hay` at or after `from`.
pub open spec fn last_occ_from(hay: Seq<char>, needle: Seq<char>, from: int) -> Option<int> {
    last_occ_in(hay, needle, from, hay.len() - needle.len())
}

/// Index of the last occurrence of `needle` in `hay` at or after `from`.
pub fn str_last_index_of_from(hay: &str, needle: &str, from: usize) -> (r: Option<usize>)
    ensures
        match r {
            Some(j) => last_occ_from(hay@, needle@, from as int) == Some(j as int),
            None => last_occ_from(hay@, needle@, from as int) is None,
        },
{
    let hay_len = hay.unicode_len();
    let needle_len = needle.unicode_len();
    if needle_len > hay_len || from > hay_len - needle_len {
        return None;
    }
    let mut e: usize = hay_len - needle_len;
    loop
        invariant
            hay_len == hay@.len(),
            needle_len == needle@.len(),
            needle_len <= hay_len,
            from <= e <= hay_len - needle_len,
            last_occ_from(hay@, needle@, from as int) == last_occ_in(
                hay@,
                needle@,
                from as int,
                e as int,
            ),
        decreases e,
    {
        if check_at(hay, needle, e, hay_len, needle_len) {
            return Some(e);
        }
        if e == from {
            return None;
        }
        e -= 1;
    }
}

/// Whether `needle` occurs anywhere in `hay`.
pub fn str_contains(hay: &str, needle: &str) -> (b: bool)
    ensures
        b == has_sub(hay@, needle@),
{
    proof {
        lemma_first_occ_props(hay@, needle@);
    }
    str_index_of(hay, needle).is_some()
}

/// A decimal digit.
pub open spec fn is_digit(c: char) -> bool {
    '0' as u32 <= c as u32 && c as u32 <= '9' as u32
}

/// All characters of `s` in `[a, b)` are decimal digits.
pub open spec fn all_digits(s: Seq<char>, a: int, b: int) -> bool {
    forall|k: int| a <= k < b ==> is_digit(#[trigger] s[k])
}

/// Numeric value of a decimal digit string.
pub open spec fn dec_val(s: Seq<char>) -> int
    decreases s.len(),
{
    if s.len() == 0 {
        0
    } else {
        dec_val(s.drop_last()) * 10 + (s.last() as u32 - '0' as u32)
    }
}

/// The line separator inserted between joined lines.
pub open spec fn newline() -> Seq<char> {
    seq!['\n']
}

/// The lines `a` through `b`, inclusive, joined with the line separator.
pub open spec fn join_range(lines: Seq<Seq<char>>, a: int, b: int) -> Seq<char>
    decreases b - a,
{
    if a < 0 || b < a || b >= lines.len() {
        Seq::empty()
    } else if a == b {
        lines[a]
    } else {
        join_range(lines, a, b - 1) + newline() + lines[b]
    }
}

/// Joins `lines[a..=b]` with a newline between consecutive lines.
pub fn join_lines(lines: &Vec<String>, a: usize, b: usize) -> (r: String)
    requires
        a <= b < lines@.len(),
    ensures
        r@ == join_range(lines.deep_view(), a as int, b as int),
{
    proof {
        reveal_strlit("\n");
        assert("\n"@ =~= newline());
    }
    let mut s = String::new();
    s.append(lines[a].as_str());
    assert(s@ =~= join_range(lines.deep_view(), a as int, a as int));
    let mut k: usize = a;
    while k < b
        invariant
            a <= k <= b < lines@.len(),
            "\n"@ == newline(),
            s@ == join_range(lines.deep_view(), a as int, k as int),
        decreases b - k,
    {
        k += 1;
        s.append("\n");
        s.append(lines[k].as_str());
        assert(lines.deep_view()[k as int] == lines@[k as int]@);
    }
    s
}

/// An occurrence of a concatenation yields an occurrence of its first part.
pub proof fn lemma_has_sub_prefix(line: Seq<char>, a: Seq<char>, b: Seq<char>)
    requires
        has_sub(line, a + b),
    ensures
        has_sub(line, a),
{
    let i = choose|i: int| at_pos(line, a + b, i);
    assert(line.subrange(i, i + a.len() as int) =~= a) by {
        assert forall|k: int| 0 <= k < a.len() implies line.subrange(i, i + a.len() as int)[k]
            == a[k] by {
            assert(line.subrange(i, i + (a + b).len() as int)[k] == (a + b)[k]);
        }
    }
    assert(at_pos(line, a, i));
}

/// Splitting a joined range at an interior line boundary.
pub proof fn lemma_join_split(lines: Seq<Seq<char>>, a: int, m: int, b: int)
    requires
        0 <= a <= m < b < lines.len(),
    ensures
        join_range(lines, a, b) == join_range(lines, a, m) + newline() + join_range(
            lines,
            m + 1,
            b,
        ),
    decreases b - m,
{
    if m + 1 == b {
    } else {
        lemma_join_split(lines, a, m, b - 1);
        assert(join_range(lines, a, b) =~= join_range(lines, a, m) + newline() + join_range(
            lines,
            m + 1,
            b,
        ));
    }
}

/// Decimal digit characters of `n`, most significant first.
pub open spec fn dec_str(n: int) -> Seq<char>
    decreases n,
{
    if n < 0 {
        Seq::empty()
    } else if n < 10 {
        seq![dec_digit(n)]
    } else {
        dec_str(n / 10) + seq![dec_digit(n % 10)]
    }
}

/// The digit character for a value in `0..=9`.
pub open spec fn dec_digit(d: int) -> char {
    if d == 0 {
        '0'
    } else if d == 1 {
        '1'
    } else if d == 2 {
        '2'
    } else if d == 3 {
        '3'
    } else if d == 4 {
        '4'
    } else if d == 5 {
        '5'
    } else if d == 6 {
        '6'
    } else if d == 7 {
        '7'
    } else if d == 8 {
        '8'
    } else {
        '9'
    }
}

/// One-character string for a digit value.
fn digit_str(d: usize) -> (r: &'static str)
    requires
        d < 10,
    ensures
        r@ =~= seq![dec_digit(d as int)],
{
    proof {
        reveal_strlit("0");
        reveal_strlit("1");
        reveal_strlit("2");
        reveal_strlit("3");
        reveal_strlit("4");
        reveal_strlit("5");
        reveal_strlit("6");
        reveal_strlit("7");
        reveal_strlit("8");
        reveal_strlit("9");
    }
    match d {
        0 => "0",
        1 => "1",
        2 => "2",
        3 => "3",
        4 => "4",
        5 => "5",
        6 => "6",
        7 => "7",
        8 => "8",
        _ => "9",
    }
}

/// Formats `n` in decimal.
pub fn fmt_usize(n: usize) -> (r: String)
    ensures
        r@ == dec_str(n as int),
    decreases n,
{
    if n < 10 {
        let mut s = String::new();
        s.append(digit_str(n));
        assert(s@ =~= dec_str(n as int));
        s
    } else {
        let mut s = fmt_usize(n / 10);
        s.append(digit_str(n % 10));
        s
    }
}

/// The characters of `s`, collected into a vector.
pub fn chars_of(s: &str) -> (v: Vec<char>)
    ensures
        v@ == s@,
{
    let len = s.unicode_len();
    let mut v: Vec<char> = Vec::new();
    let mut i: usize = 0;
    while i < len
        invariant
            len == s@.len(),
            0 <= i <= len,
            v@ == s@.subrange(0, i as int),
        decreases len - i,
    {
        v.push(s.get_char(i));
        i += 1;
        assert(v@ =~= s@.subrange(0, i as int));
    }
    assert(v@ =~= s@);
    v
}

/// Whether two strings hold the same characters.
pub fn str_eq(a: &str, b: &str) -> (r: bool)
    ensures
        r == (a@ == b@),
{
    let a_len = a.unicode_len();
    let b_len = b.unicode_len();
    if a_len != b_len {
        return false;
    }
    let mut i: usize = 0;
    while i < a_len
        invariant
            a_len == a@.len(),
            b_len == b@.len(),
            a_len == b_len,
            0 <= i <= a_len,
            forall|k: int| 0 <= k < i ==> a@[k] == b@[k],
        decreases a_len - i,
    {
        if a.get_char(i) != b.get_char(i) {
            return false;
        }
        i += 1;
    }
    assert(a@ =~= b@);
    true
}

/// What `str::to_lowercase` returns: a function of the characters alone.
pub uninterp spec fn lower_of(s: Seq<char>) -> Seq<char>;

/// Relies on `str::to_lowercase`: the lowercase form of a string, which
/// depends on its characters alone.
#[verifier::external_body]
pub(crate) fn to_lowercase(s: &str) -> (r: String)
    ensures
        r@ == lower_of(s@),
{
    s.to_lowercase()
}

} // verus!
