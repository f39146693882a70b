//! Line-level scanners: plugin-loading banners, port numbers, the server
//! version banner and the leaked-add-on denylist.
use crate::analyzer::Plugin;
use crate::parser::delimiters::matches_any;
use crate::text::{
    all_digits, at_pos, dec_val, first_occ, first_occ_from, has_sub, is_digit, last_occ_from,
    lemma_first_occ_from_props, lemma_first_occ_props, lower_of, str_index_of, str_index_of_from,
    str_last_index_of_from, to_lowercase,
};
use vstd::prelude::*;

verus! {

/// A character the add-on name normalisation removes.
pub open spec fn is_sep(c: char) -> bool {
    c == '-' || c == '_' || c == ' '
}

/// `s` with every separator character removed.
pub open spec fn strip_seps(s: Seq<char>) -> Seq<char>
    decreases s.len(),
{
    if s.len() == 0 {
        Seq::empty()
    } else {
        (if is_sep(s[0]) {
            Seq::<char>::empty()
        } else {
            seq![s[0]]
        }) + strip_seps(s.drop_first())
    }
}

/// The normalised form of an add-on name: lower-cased, separators removed.
pub open spec fn normalize_spec(s: Seq<char>) -> Seq<char> {
    strip_seps(lower_of(s))
}

proof fn lemma_strip_push(s: Seq<char>, c: char)
    ensures
        strip_seps(s.push(c)) == strip_seps(s) + (if is_sep(c) {
            Seq::<char>::empty()
        } else {
            seq![c]
        }),
    decreases s.len(),
{
    let tail = if is_sep(c) {
        Seq::<char>::empty()
    } else {
        seq![c]
    };
    if s.len() == 0 {
        assert(s.push(c)[0] == c);
        assert(s.push(c).drop_first() =~= Seq::<char>::empty());
        assert(strip_seps(s.push(c)) == (if is_sep(c) {
            Seq::<char>::empty()
        } else {
            seq![c]
        }) + strip_seps(s.push(c).drop_first()));
        assert(strip_seps(s.push(c)) =~= strip_seps(s) + tail);
    } else {
        assert(s.push(c)[0] == s[0]);
        assert(s.push(c).drop_first() =~= s.drop_first().push(c));
        lemma_strip_push(s.drop_first(), c);
        assert(strip_seps(s.push(c)) == (if is_sep(s[0]) {
            Seq::<char>::empty()
        } else {
            seq![s[0]]
        }) + strip_seps(s.drop_first().push(c)));
        assert(strip_seps(s.push(c)) =~= strip_seps(s) + tail);
    }
}

/// The characters of the normalised add-on name.
fn normalized_chars(s: &str) -> (v: Vec<char>)
    ensures
        v@ == normalize_spec(s@),
{
    let low = to_lowercase(s);
    let len = low.as_str().unicode_len();
    let mut v: Vec<char> = Vec::new();
    let mut i: usize = 0;
    proof {
        assert(low@.subrange(0, 0) =~= Seq::<char>::empty());
        assert(v@ =~= strip_seps(low@.subrange(0, 0)));
    }
    while i < len
        invariant
            len == low@.len(),
            low@ == lower_of(s@),
            0 <= i <= len,
            v@ == strip_seps(low@.subrange(0, i as int)),
        decreases len - i,
    {
        let c = low.as_str().get_char(i);
        if !(c == '-' || c == '_' || c == ' ') {
            v.push(c);
        }
        i += 1;
        proof {
            assert(low@.subrange(0, i as int) =~= low@.subrange(0, i - 1).push(low@[i - 1]));
            lemma_strip_push(low@.subrange(0, i - 1), low@[i - 1]);
            if is_sep(low@[i - 1]) {
                assert(v@ =~= strip_seps(low@.subrange(0, i - 1)) + Seq::<char>::empty());
            } else {
                assert(v@ =~= strip_seps(low@.subrange(0, i - 1)) + seq![low@[i - 1]]);
            }
        }
    }
    proof {
        assert(low@.subrange(0, len as int) =~= low@);
    }
    v
}

/// Whether two character vectors hold the same sequence.
fn char_vecs_eq(a: &Vec<char>, b: &Vec<char>) -> (r: bool)
    ensures
        r == (a@ == b@),
{
    if a.len() != b.len() {
        return false;
    }
    let mut i: usize = 0;
    while i < a.len()
        invariant
            a@.len() == b@.len(),
            0 <= i <= a@.len(),
            forall|k: int| 0 <= k < i ==> a@[k] == b@[k],
        decreases a@.len() - i,
    {
        if a[i] != b[i] {
            return false;
        }
        i += 1;
    }
    assert(a@ =~= b@);
    true
}

/// The closing bracket, as a one-character needle.
pub open spec fn bracket_needle() -> Seq<char> {
    seq![']']
}

/// The space-`v` separator before an add-on version.
pub open spec fn v_needle() -> Seq<char> {
    seq![' ', 'v']
}

/// A plugin banner starts at `i`: an opening bracket whose first closing
/// bracket begins the literal `lit`, with a version separator after it.
pub open spec fn banner_at(line: Seq<char>, lit: Seq<char>, i: int) -> bool {
    &&& 0 <= i < line.len()
    &&& line[i] == '['
    &&& match first_occ_from(line, bracket_needle(), i + 1) {
        Some(j) => at_pos(line, lit, j) && last_occ_from(line, v_needle(), j + lit.len()) is Some,
        None => false,
    }
}

/// The first position where a plugin banner starts, at or after `i`.
pub open spec fn first_banner_from(line: Seq<char>, lit: Seq<char>, i: int) -> Option<int>
    decreases line.len() - i,
{
    if i < 0 || i >= line.len() {
        None
    } else if banner_at(line, lit, i) {
        Some(i)
    } else {
        first_banner_from(line, lit, i + 1)
    }
}

/// The three captured parts of the first plugin banner in the line: the
/// bracketed tag, the add-on name (up to the last version separator) and the
/// version text after it.
pub open spec fn banner_captures(line: Seq<char>, lit: Seq<char>) -> Option<
    (Seq<char>, Seq<char>, Seq<char>),
> {
    match first_banner_from(line, lit, 0) {
        None => None,
        Some(i) => {
            let j = first_occ_from(line, bracket_needle(), i + 1).unwrap();
            let k = last_occ_from(line, v_needle(), j + lit.len() as int).unwrap();
            Some(
                (
                    line.subrange(i + 1, j),
                    line.subrange(j + lit.len() as int, k),
                    line.subrange(k + 2, line.len() as int),
                ),
            )
        },
    }
}

/// Checks one candidate start position for the banner shape; returns the
/// positions of the closing bracket and of the version separator.
fn banner_at_exec(line: &str, lit: &str, i: usize, len: usize, lit_len: usize) -> (r: Option<
    (usize, usize),
>)
    requires
        len == line@.len(),
        lit_len == lit@.len(),
        i < len,
    ensures
        match r {
            Some(jk) => banner_at(line@, lit@, i as int) && first_occ_from(
                line@,
                bracket_needle(),
                i + 1,
            ) == Some(jk.0 as int) && last_occ_from(line@, v_needle(), jk.0 + lit_len)
                == Some(jk.1 as int) && jk.0 + lit_len <= jk.1 && jk.1 + 2 <= len && i < jk.0,
            None => !banner_at(line@, lit@, i as int),
        },
{
    proof {
        reveal_strlit("]");
        reveal_strlit(" v");
        assert("]"@ =~= bracket_needle());
        assert(" v"@ =~= v_needle());
    }
    if line.get_char(i) != '[' {
        return None;
    }
    let j = match str_index_of_from(line, "]", i + 1) {
        None => {
            return None;
        },
        Some(j) => j,
    };
    proof {
        lemma_first_occ_from_props(line@, bracket_needle(), i + 1);
    }
    if j >= len || lit_len > len - j {
        proof {
            assert(!at_pos(line@, lit@, j as int));
        }
        return None;
    }
    if !crate::text::check_at(line, lit, j, len, lit_len) {
        return None;
    }
    let k = match str_last_index_of_from(line, " v", j + lit_len) {
        None => {
            return None;
        },
        Some(k) => k,
    };
    proof {
        let jj = j as int;
        let kk = k as int;
        if last_occ_from(line@, v_needle(), jj + lit_len) == Some(kk) {
            lemma_last_occ_bounds(line@, v_needle(), jj + lit_len, kk);
        }
    }
    Some((j, k))
}

/// A `last_occ_from` hit lies within the searched range.
proof fn lemma_last_occ_bounds(hay: Seq<char>, needle: Seq<char>, from: int, j: int)
    requires
        crate::text::last_occ_from(hay, needle, from) == Some(j),
    ensures
        from <= j,
        j + needle.len() <= hay.len(),
        at_pos(hay, needle, j),
{
    lemma_last_occ_in_bounds(hay, needle, from, hay.len() - needle.len(), j);
}

proof fn lemma_last_occ_in_bounds(hay: Seq<char>, needle: Seq<char>, from: int, e: int, j: int)
    requires
        crate::text::last_occ_in(hay, needle, from, e) == Some(j),
    ensures
        from <= j <= e,
        j + needle.len() <= hay.len(),
        at_pos(hay, needle, j),
    decreases e - from + 1,
{
    if !(e < from || from < 0 || e + needle.len() > hay.len()) && !at_pos(hay, needle, e) {
        lemma_last_occ_in_bounds(hay, needle, from, e - 1, j);
    }
}

/// The captured parts of the first plugin banner in the line, if any.
fn banner_captures_exec(line: &str, lit: &str) -> (r: Option<(String, String, String)>)
    ensures
        match r {
            Some(t) => banner_captures(line@, lit@) == Some((t.0@, t.1@, t.2@)),
            None => banner_captures(line@, lit@) is None,
        },
{
    let len = line.unicode_len();
    let lit_len = lit.unicode_len();
    let mut i: usize = 0;
    while i < len
        invariant
            len == line@.len(),
            lit_len == lit@.len(),
            0 <= i <= len,
            first_banner_from(line@, lit@, 0) == first_banner_from(line@, lit@, i as int),
        decreases len - i,
    {
        match banner_at_exec(line, lit, i, len, lit_len) {
            Some((j, k)) => {
                let prefix = String::from_str(line.substring_char(i + 1, j));
                let name = String::from_str(line.substring_char(j + lit_len, k));
                let version = String::from_str(line.substring_char(k + 2, len));
                return Some((prefix, name, version));
            },
            None => {},
        }
        i += 1;
    }
    None
}

/// What `plugin_bukkit` extracts: the name and version of the first banner,
/// Paper-style banners preferred, accepted only when the bracketed tag and
/// the name agree after normalisation.
pub open spec fn plugin_bukkit_spec(line: Seq<char>) -> Option<(Seq<char>, Seq<char>)> {
    let c = if banner_captures(line, paper_plugin_lit()) is Some {
        banner_captures(line, paper_plugin_lit())
    } else {
        banner_captures(line, spigot_plugin_lit())
    };
    match c {
        None => None,
        Some(t) => {
            if normalize_spec(t.0) == normalize_spec(t.1) {
                Some((t.1, t.2))
            } else {
                None
            }
        },
    }
}

/// The literal after the bracketed tag in a Spigot-style loading banner.
pub open spec fn spigot_plugin_lit() -> Seq<char> {
    "] Loading "@
}

/// The literal after the bracketed tag in a Paper-style loading banner.
pub open spec fn paper_plugin_lit() -> Seq<char> {
    "] Loading server plugin "@
}

/// At least four digits start at `i`; reserved ports have fewer digits.
pub open spec fn port_digits_at(s: Seq<char>, i: int) -> bool {
    0 <= i && i + 4 <= s.len() && all_digits(s, i, i + 4)
}

/// A colon at `i` followed by a port-sized digit run.
pub open spec fn colon_port_at(s: Seq<char>, i: int) -> bool {
    0 <= i < s.len() && s[i] == ':' && port_digits_at(s, i + 1)
}

/// First position, at or after `i`, of a colon followed by a port run.
pub open spec fn first_colon_port_from(s: Seq<char>, i: int) -> Option<int>
    decreases s.len() - i,
{
    if i < 0 || i >= s.len() {
        None
    } else if colon_port_at(s, i) {
        Some(i)
    } else {
        first_colon_port_from(s, i + 1)
    }
}

/// First position, at or after `i`, of a bare port-sized digit run.
pub open spec fn first_port_run_from(s: Seq<char>, i: int) -> Option<int>
    decreases s.len() - i,
{
    if i < 0 || i >= s.len() {
        None
    } else if port_digits_at(s, i) {
        Some(i)
    } else {
        first_port_run_from(s, i + 1)
    }
}

/// The digits captured at `i`: five when five are there, else four.
pub open spec fn run_capture(s: Seq<char>, i: int) -> Seq<char> {
    if i + 5 <= s.len() && all_digits(s, i, i + 5) {
        s.subrange(i, i + 5)
    } else {
        s.subrange(i, i + 4)
    }
}

/// The captured digits as a port, when they fit one.
pub open spec fn port_value(cap: Seq<char>) -> Option<u16> {
    if dec_val(cap) <= 65535 {
        Some(dec_val(cap) as u16)
    } else {
        None
    }
}

/// What `vanilla_port` returns: for a line containing the banner text, the
/// first colon-pattern port, falling back to the first bare digit-run port
/// when no colon form matches; an oversized number yields nothing.
pub open spec fn vanilla_port_spec(line: Seq<char>, must: Seq<char>) -> Option<u16> {
    if has_sub(line, must) {
        match first_colon_port_from(line, 0) {
            Some(i) => port_value(run_capture(line, i + 1)),
            None => match first_port_run_from(line, 0) {
                Some(j) => port_value(run_capture(line, j)),
                None => None,
            },
        }
    } else {
        None
    }
}

/// What `port` returns: for a line containing the wanted text (compared
/// case-insensitively), the first colon-pattern port, else the first bare
/// digit-run port; an oversized number yields nothing.
pub open spec fn addon_port_spec(name: Seq<char>, line: Seq<char>, must: Seq<char>) -> Option<
    (Seq<char>, u16),
> {
    if has_sub(lower_of(line), lower_of(must)) {
        match first_colon_port_from(line, 0) {
            Some(i) => match port_value(run_capture(line, i + 1)) {
                Some(p) => Some((name, p)),
                None => None,
            },
            None => match first_port_run_from(line, 0) {
                Some(j) => match port_value(run_capture(line, j)) {
                    Some(p) => Some((name, p)),
                    None => None,
                },
                None => None,
            },
        }
    } else {
        None
    }
}

/// Powers of ten, for digit-run bounds.
pub open spec fn pow10(n: int) -> int
    decreases n,
{
    if n <= 0 {
        1
    } else {
        10 * pow10(n - 1)
    }
}

proof fn lemma_dec_val_bound(s: Seq<char>)
    requires
        all_digits(s, 0, s.len() as int),
    ensures
        0 <= dec_val(s) < pow10(s.len() as int),
    decreases s.len(),
{
    if s.len() > 0 {
        assert(forall|k: int|
            0 <= k < s.len() - 1 ==> is_digit(#[trigger] s.drop_last()[k]));
        lemma_dec_val_bound(s.drop_last());
        assert(is_digit(s.last()));
    }
}

/// Whether `c` is a decimal digit.
fn is_digit_exec(c: char) -> (b: bool)
    ensures
        b == is_digit(c),
{
    (c as u32) >= 48 && (c as u32) <= 57
}

/// Whether a port-sized digit run starts at `i`.
fn port_digits_at_exec(line: &str, i: usize, len: usize) -> (b: bool)
    requires
        len == line@.len(),
    ensures
        b == port_digits_at(line@, i as int),
{
    if i >= len || len - i < 4 {
        return false;
    }
    let b = is_digit_exec(line.get_char(i)) && is_digit_exec(line.get_char(i + 1))
        && is_digit_exec(line.get_char(i + 2)) && is_digit_exec(line.get_char(i + 3));
    proof {
        if b {
            assert forall|k: int| i <= k < i + 4 implies is_digit(line@[k]) by {}
        }
    }
    b
}

/// The captured digit run at `i`, as text.
fn run_capture_exec(line: &str, i: usize, len: usize) -> (cap: String)
    requires
        len == line@.len(),
        port_digits_at(line@, i as int),
    ensures
        cap@ == run_capture(line@, i as int),
        cap@.len() == 4 || cap@.len() == 5,
        all_digits(cap@, 0, cap@.len() as int),
{
    let five = len - i >= 5 && is_digit_exec(line.get_char(i + 4));
    proof {
        if five {
            assert forall|k: int| i <= k < i + 5 implies is_digit(line@[k]) by {}
        }
    }
    let cap = if five {
        String::from_str(line.substring_char(i, i + 5))
    } else {
        String::from_str(line.substring_char(i, i + 4))
    };
    proof {
        assert forall|k: int| 0 <= k < cap@.len() implies is_digit(#[trigger] cap@[k]) by {
            assert(cap@[k] == line@[i + k]);
        }
    }
    cap
}

/// Parses a captured digit run, rejecting numbers above the port range.
fn parse_port(cap: &str) -> (r: Option<u16>)
    requires
        cap@.len() == 4 || cap@.len() == 5,
        all_digits(cap@, 0, cap@.len() as int),
    ensures
        r == port_value(cap@),
{
    let len = cap.unicode_len();
    let mut v: u32 = 0;
    let mut i: usize = 0;
    proof {
        assert(cap@.subrange(0, 0) =~= Seq::<char>::empty());
    }
    while i < len
        invariant
            len == cap@.len(),
            len == 4 || len == 5,
            all_digits(cap@, 0, len as int),
            0 <= i <= len,
            v == dec_val(cap@.subrange(0, i as int)),
            v < 100000,
        decreases len - i,
    {
        let c = cap.get_char(i);
        proof {
            assert(is_digit(cap@[i as int]));
            let pre = cap@.subrange(0, i as int);
            assert(forall|k: int| 0 <= k < pre.len() ==> is_digit(#[trigger] pre[k]));
            lemma_dec_val_bound(pre);
            assert(pow10(0) == 1);
            assert(pow10(1) == 10);
            assert(pow10(2) == 100);
            assert(pow10(3) == 1000);
            assert(pow10(4) == 10000);
            assert(dec_val(pre) < 10000);
        }
        v = v * 10 + ((c as u32) - 48);
        i += 1;
        proof {
            let now = cap@.subrange(0, i as int);
            assert(now.drop_last() =~= cap@.subrange(0, i - 1));
            assert(now.last() == cap@[i - 1]);
        }
    }
    proof {
        assert(cap@.subrange(0, len as int) =~= cap@);
    }
    if v <= 65535 {
        Some(v as u16)
    } else {
        None
    }
}

/// First colon-pattern position in the line, if any.
fn find_colon_port(line: &str, len: usize) -> (r: Option<usize>)
    requires
        len == line@.len(),
    ensures
        match r {
            Some(i) => first_colon_port_from(line@, 0) == Some(i as int) && colon_port_at(
                line@,
                i as int,
            ),
            None => first_colon_port_from(line@, 0) is None,
        },
{
    let mut i: usize = 0;
    while i < len
        invariant
            len == line@.len(),
            0 <= i <= len,
            first_colon_port_from(line@, 0) == first_colon_port_from(line@, i as int),
        decreases len - i,
    {
        if line.get_char(i) == ':' && port_digits_at_exec(line, i + 1, len) {
            return Some(i);
        }
        i += 1;
    }
    None
}

/// First bare digit-run position in the line, if any.
fn find_port_run(line: &str, len: usize) -> (r: Option<usize>)
    requires
        len == line@.len(),
    ensures
        match r {
            Some(i) => first_port_run_from(line@, 0) == Some(i as int) && port_digits_at(
                line@,
                i as int,
            ),
            None => first_port_run_from(line@, 0) is None,
        },
{
    let mut i: usize = 0;
    while i < len
        invariant
            len == line@.len(),
            0 <= i <= len,
            first_port_run_from(line@, 0) == first_port_run_from(line@, i as int),
        decreases len - i,
    {
        if port_digits_at_exec(line, i, len) {
            return Some(i);
        }
        i += 1;
    }
    None
}

/// The banner announcing the server version, marker included.
pub open spec fn version_lit() -> Seq<char> {
    "Starting minecraft server version "@
}

/// What `noproxy_server_version` returns: the text after the first version
/// banner occurrence, to the end of the line.
pub open spec fn noproxy_version_spec(line: Seq<char>) -> Option<Seq<char>> {
    match first_occ(line, version_lit()) {
        None => None,
        Some(i) => Some(line.subrange(i + version_lit().len() as int, line.len() as int)),
    }
}

/// The denylist of phrases suggesting a leaked or cracked add-on.
pub open spec fn sus_names() -> Seq<Seq<char>> {
    seq![
        "directleaks"@,
        "blackspigot"@,
        "nulled"@,
        "spigotunlocked"@,
        "plugin integrity has been compromised"@,
        "cracked"@,
    ]
}

/// Known false positives: names that merely contain a denylisted phrase.
pub open spec fn allowed_names() -> Seq<Seq<char>> {
    seq!["crackshot"@]
}

/// What `leaked_plugin` returns: the unchanged line when it contains a
/// denylisted phrase (case-insensitively) and no allow-listed name.
pub open spec fn leaked_spec(line: Seq<char>) -> Option<Seq<char>> {
    if matches_any(lower_of(line), sus_names()) && !matches_any(line, allowed_names()) {
        Some(line)
    } else {
        None
    }
}

/// A banner whose bracketed tag and add-on name normalise to different
/// strings yields no extracted add-on, whatever else the line holds.
pub proof fn lemma_mismatched_prefix_rejected(
    line: Seq<char>,
    t: (Seq<char>, Seq<char>, Seq<char>),
)
    requires
        (if banner_captures(line, paper_plugin_lit()) is Some {
            banner_captures(line, paper_plugin_lit())
        } else {
            banner_captures(line, spigot_plugin_lit())
        }) == Some(t),
        normalize_spec(t.0) != normalize_spec(t.1),
    ensures
        plugin_bukkit_spec(line) is None,
{
}

/// Lines scanned for plugin banners, ports and versions.
pub struct StaticAnalyzer;

impl StaticAnalyzer {
    /// Extracts an add-on from a plugin-loading banner line: Paper-style
    /// banners win over Spigot-style ones, and the bracketed tag must equal
    /// the add-on name after normalisation.
    pub fn plugin_bukkit(line: &str) -> (r: Option<Plugin>)
        ensures
            match r {
                Some(p) => plugin_bukkit_spec(line@) == Some((p.name@, p.version@)),
                None => plugin_bukkit_spec(line@) is None,
            },
    {
        let c = match banner_captures_exec(line, "] Loading server plugin ") {
            Some(t) => Some(t),
            None => banner_captures_exec(line, "] Loading "),
        };
        match c {
            None => None,
            Some((prefix, name, version)) => {
                let pn = normalized_chars(prefix.as_str());
                let nn = normalized_chars(name.as_str());
                if char_vecs_eq(&pn, &nn) {
                    Some(Plugin { name, version })
                } else {
                    None
                }
            },
        }
    }

    /// Finds a named add-on port: the line must contain the wanted text,
    /// compared case-insensitively, and hold a colon-pattern or bare
    /// digit-run port.
    pub fn port(name: String, line: &str, must_contain: String) -> (r: Option<(String, u16)>)
        ensures
            match r {
                Some(p) => addon_port_spec(name@, line@, must_contain@) == Some((p.0@, p.1)),
                None => addon_port_spec(name@, line@, must_contain@) is None,
            },
    {
        let line_low = to_lowercase(line);
        let must_low = to_lowercase(must_contain.as_str());
        if !crate::text::str_contains(line_low.as_str(), must_low.as_str()) {
            return None;
        }
        let len = line.unicode_len();
        match find_colon_port(line, len) {
            Some(i) => {
                let cap = run_capture_exec(line, i + 1, len);
                match parse_port(cap.as_str()) {
                    Some(p) => Some((name, p)),
                    None => None,
                }
            },
            None => {
                match find_port_run(line, len) {
                    Some(j) => {
                        let cap = run_capture_exec(line, j, len);
                        match parse_port(cap.as_str()) {
                            Some(p) => Some((name, p)),
                            None => None,
                        }
                    },
                    None => None,
                }
            },
        }
    }

    /// Finds a vanilla port: the line must contain the banner text and hold
    /// a colon-pattern port, or failing that a bare digit-run port.
    pub fn vanilla_port(line: &str, must_contain: &str) -> (r: Option<u16>)
        ensures
            r == vanilla_port_spec(line@, must_contain@),
    {
        if !crate::text::str_contains(line, must_contain) {
            return None;
        }
        let len = line.unicode_len();
        match find_colon_port(line, len) {
            Some(i) => {
                let cap = run_capture_exec(line, i + 1, len);
                parse_port(cap.as_str())
            },
            None => {
                match find_port_run(line, len) {
                    Some(j) => {
                        let cap = run_capture_exec(line, j, len);
                        parse_port(cap.as_str())
                    },
                    None => None,
                }
            },
        }
    }

    /// Extracts the version text following the server version banner.
    pub fn noproxy_server_version(line: &str) -> (r: Option<String>)
        ensures
            match r {
                Some(v) => noproxy_version_spec(line@) == Some(v@),
                None => noproxy_version_spec(line@) is None,
            },
    {
        let lit = "Starting minecraft server version ";
        match str_index_of(line, lit) {
            None => None,
            Some(i) => {
                proof {
                    lemma_first_occ_props(line@, lit@);
                }
                let len = line.unicode_len();
                let lit_len = lit.unicode_len();
                Some(String::from_str(line.substring_char(i + lit_len, len)))
            },
        }
    }

    /// Returns the line itself when it looks like a leaked or cracked
    /// add-on notice and is not a known false positive.
    pub fn leaked_plugin(line: &str) -> (r: Option<String>)
        ensures
            match r {
                Some(s) => leaked_spec(line@) == Some(s@),
                None => leaked_spec(line@) is None,
            },
    {
        let sus: Vec<String> = vec![
            String::from_str("directleaks"),
            String::from_str("blackspigot"),
            String::from_str("nulled"),
            String::from_str("spigotunlocked"),
            String::from_str("plugin integrity has been compromised"),
            String::from_str("cracked"),
        ];
        let allowed: Vec<String> = vec![String::from_str("crackshot")];
        proof {
            assert(sus.deep_view() =~~= sus_names());
            assert(allowed.deep_view() =~~= allowed_names());
        }
        let low = to_lowercase(line);
        if crate::parser::delimiters::line_matches_any(low.as_str(), &sus)
            && !crate::parser::delimiters::line_matches_any(line, &allowed) {
            Some(String::from_str(line))
        } else {
            None
        }
    }
}

} // verus!
