//! Scrubbing of addresses from log lines before they are shown: every
//! dotted four-group number is replaced, except on lines a denylist keeps
//! verbatim.  Reading the lines from their source is host work.
use crate::analyzer::static_analyzer::plugin_bukkit_spec;
use crate::analyzer::static_analyzer::StaticAnalyzer;
use crate::parser::delimiters::{line_matches_any, matches_any};
use crate::text::{all_digits, has_sub, str_contains};
use vstd::prelude::*;

verus! {

/// A run of `a` digits starts at `i`, one to three of them.
pub open spec fn seg_match(s: Seq<char>, i: int, a: int) -> bool {
    1 <= a <= 3 && 0 <= i && i + a <= s.len() && all_digits(s, i, i + a)
}

/// A dot at position `i`.
pub open spec fn dot_at(s: Seq<char>, i: int) -> bool {
    0 <= i < s.len() && s[i] == '.'
}

/// End of a greedy match of `k` remaining digit groups starting at `i`,
/// groups separated by dots, each group preferring three digits, then two,
/// then one.
pub open spec fn groups_from(s: Seq<char>, i: int, k: int) -> Option<int>
    decreases k, 4int,
{
    try_group(s, i, k, 3)
}

/// Tries the group widths from `a` downward.
pub open spec fn try_group(s: Seq<char>, i: int, k: int, a: int) -> Option<int>
    decreases k, a,
{
    if a < 1 || k < 1 {
        None
    } else if k == 1 {
        if seg_match(s, i, a) {
            Some(i + a)
        } else {
            try_group(s, i, k, a - 1)
        }
    } else if seg_match(s, i, a) && dot_at(s, i + a) && groups_from(s, i + a + 1, k - 1) is Some {
        groups_from(s, i + a + 1, k - 1)
    } else {
        try_group(s, i, k, a - 1)
    }
}

/// End of an address-shaped match starting at `i`: four digit groups
/// separated by dots.
pub open spec fn ipv4_at(s: Seq<char>, i: int) -> Option<int> {
    groups_from(s, i, 4)
}

/// First position at or after `i` where an address-shaped match starts.
pub open spec fn first_ip_from(s: Seq<char>, i: int) -> Option<int>
    decreases s.len() - i,
{
    if i < 0 || i >= s.len() {
        None
    } else if ipv4_at(s, i) is Some {
        Some(i)
    } else {
        first_ip_from(s, i + 1)
    }
}

/// The text an address is replaced with.
pub open spec fn ip_placeholder() -> Seq<char> {
    "{ipv4}"@
}

/// The line with every address-shaped run replaced, matches found left to
/// right without overlap.
pub open spec fn redact_ips(s: Seq<char>) -> Seq<char>
    decreases s.len(),
{
    match first_ip_from(s, 0) {
        None => s,
        Some(i) => {
            let end = ipv4_at(s, i).unwrap();
            if 0 <= i && i < end <= s.len() {
                s.subrange(0, i) + ip_placeholder() + redact_ips(
                    s.subrange(end, s.len() as int),
                )
            } else {
                s
            }
        },
    }
}

/// Lines kept verbatim: known non-address dotted numbers and loader banners.
pub open spec fn ignore_markers() -> Seq<Seq<char>> {
    seq![
        "plugins/"@,
        "Forge Mod Loader version"@,
        "MinecraftForge v"@,
        "127.0.0.1"@,
        "0.0.0.0"@,
        "openjdk"@,
        "OpenJDK"@,
    ]
}

/// Lines scrubbed even when a keep-marker or known version matched.
pub open spec fn replace_markers() -> Seq<Seq<char>> {
    seq!["at ("@, "logged in with entity id"@]
}

/// A known add-on version occurs in the line.
pub open spec fn any_version_in(line: Seq<char>, versions: Seq<Seq<char>>) -> bool {
    exists|k: int| 0 <= k < versions.len() && has_sub(line, #[trigger] versions[k])
}

/// What scrubbing one line yields: the line to keep, and the add-on version
/// to remember when the line is a plugin banner.  A banner line stays
/// verbatim; a line holding a known version or a keep-marker stays verbatim
/// unless a scrub-marker also matches; every other line is scrubbed.
pub open spec fn hide_step_spec(line: Seq<char>, versions: Seq<Seq<char>>) -> (
    Seq<char>,
    Option<Seq<char>>,
) {
    match plugin_bukkit_spec(line) {
        Some(p) => (line, Some(p.1)),
        None => {
            if any_version_in(line, versions) || matches_any(line, ignore_markers()) {
                if matches_any(line, replace_markers()) {
                    (redact_ips(line), None)
                } else {
                    (line, None)
                }
            } else {
                (redact_ips(line), None)
            }
        },
    }
}

/// Matches one address group ending the pattern.
fn try_last_group(s: &str, i: usize, len: usize) -> (r: Option<usize>)
    requires
        len == s@.len(),
    ensures
        match r {
            Some(e) => groups_from(s@, i as int, 1) == Some(e as int) && i < e <= len,
            None => groups_from(s@, i as int, 1) is None,
        },
{
    let mut a: usize = 3;
    loop
        invariant
            len == s@.len(),
            1 <= a <= 3,
            groups_from(s@, i as int, 1) == try_group(s@, i as int, 1, a as int),
        decreases a,
    {
        if seg_match_exec(s, i, a, len) {
            return Some(i + a);
        }
        if a == 1 {
            proof {
                assert(try_group(s@, i as int, 1, 0int) is None);
            }
            return None;
        }
        a -= 1;
    }
}

/// Whether a run of exactly `a` digits starts at `i`.
fn seg_match_exec(s: &str, i: usize, a: usize, len: usize) -> (b: bool)
    requires
        len == s@.len(),
        1 <= a <= 3,
    ensures
        b == seg_match(s@, i as int, a as int),
{
    if i > len || a > len - i {
        return false;
    }
    let mut k: usize = i;
    while k < i + a
        invariant
            len == s@.len(),
            i <= k <= i + a <= len,
            forall|x: int| i <= x < k ==> crate::text::is_digit(#[trigger] s@[x]),
        decreases i + a - k,
    {
        let c = s.get_char(k);
        if !((c as u32) >= 48 && (c as u32) <= 57) {
            return false;
        }
        k += 1;
    }
    true
}

/// End of a greedy match of `k` digit groups starting at `i`.
fn groups_from_exec(s: &str, i: usize, k: usize, len: usize) -> (r: Option<usize>)
    requires
        len == s@.len(),
        1 <= k <= 4,
    ensures
        match r {
            Some(e) => groups_from(s@, i as int, k as int) == Some(e as int) && i < e <= len,
            None => groups_from(s@, i as int, k as int) is None,
        },
    decreases k,
{
    if k == 1 {
        return try_last_group(s, i, len);
    }
    let mut a: usize = 3;
    loop
        invariant
            len == s@.len(),
            2 <= k <= 4,
            1 <= a <= 3,
            groups_from(s@, i as int, k as int) == try_group(s@, i as int, k as int, a as int),
        decreases a,
    {
        if seg_match_exec(s, i, a, len) && i + a < len && s.get_char(i + a) == '.' {
            match groups_from_exec(s, i + a + 1, k - 1, len) {
                Some(e) => {
                    return Some(e);
                },
                None => {},
            }
        }
        proof {
            assert(try_group(s@, i as int, k as int, a as int) == try_group(
                s@,
                i as int,
                k as int,
                a - 1,
            ));
        }
        if a == 1 {
            return None;
        }
        a -= 1;
    }
}

/// First position where an address-shaped run starts, at or after `from`.
fn find_ip(s: &str, from: usize, len: usize) -> (r: Option<(usize, usize)>)
    requires
        len == s@.len(),
        from <= len,
    ensures
        match r {
            Some(p) => first_ip_from(s@, from as int) == Some(p.0 as int) && ipv4_at(
                s@,
                p.0 as int,
            ) == Some(p.1 as int) && from <= p.0 < p.1 <= len,
            None => first_ip_from(s@, from as int) is None,
        },
{
    let mut i: usize = from;
    while i < len
        invariant
            len == s@.len(),
            from <= i <= len,
            first_ip_from(s@, from as int) == first_ip_from(s@, i as int),
        decreases len - i,
    {
        match groups_from_exec(s, i, 4, len) {
            Some(e) => {
                return Some((i, e));
            },
            None => {},
        }
        i += 1;
    }
    None
}

/// Replaces every address-shaped run in the line with the placeholder.
pub fn redact_ips_line(s: &str) -> (r: String)
    ensures
        r@ == redact_ips(s@),
    decreases s@.len(),
{
    let len = s.unicode_len();
    match find_ip(s, 0, len) {
        None => String::from_str(s),
        Some((i, end)) => {
            let mut out = String::from_str(s.substring_char(0, i));
            out.append("{ipv4}");
            let rest = redact_ips_line(s.substring_char(end, len));
            out.append(rest.as_str());
            out
        },
    }
}

/// Scrubs one line and reports the add-on version to remember, as the
/// hide-addresses reader does line by line.
pub fn hide_ips_line(line: &str, matched_versions: &Vec<String>) -> (r: (String, Option<String>))
    ensures
        ({
            let spec_r = hide_step_spec(line@, matched_versions.deep_view());
            r.0@ == spec_r.0 && match r.1 {
                Some(v) => spec_r.1 == Some(v@),
                None => spec_r.1 is None,
            }
        }),
{
    match StaticAnalyzer::plugin_bukkit(line) {
        Some(plugin) => (String::from_str(line), Some(plugin.version)),
        None => {
            let ignore: Vec<String> = vec![
                String::from_str("plugins/"),
                String::from_str("Forge Mod Loader version"),
                String::from_str("MinecraftForge v"),
                String::from_str("127.0.0.1"),
                String::from_str("0.0.0.0"),
                String::from_str("openjdk"),
                String::from_str("OpenJDK"),
            ];
            let replace: Vec<String> = vec![
                String::from_str("at ("),
                String::from_str("logged in with entity id"),
            ];
            proof {
                assert(ignore.deep_view() =~~= ignore_markers());
                assert(replace.deep_view() =~~= replace_markers());
            }
            let mut version_hit = false;
            let mut i: usize = 0;
            while i < matched_versions.len()
                invariant
                    0 <= i <= matched_versions@.len(),
                    version_hit == (exists|k: int|
                        0 <= k < i && has_sub(
                            line@,
                            #[trigger] matched_versions.deep_view()[k],
                        )),
                decreases matched_versions@.len() - i,
            {
                proof {
                    assert(matched_versions.deep_view()[i as int] == matched_versions@[
                        i as int
                    ]@);
                }
                if str_contains(line, matched_versions[i].as_str()) {
                    version_hit = true;
                }
                i += 1;
            }
            if version_hit || line_matches_any(line, &ignore) {
                if line_matches_any(line, &replace) {
                    (redact_ips_line(line), None)
                } else {
                    (String::from_str(line), None)
                }
            } else {
                (redact_ips_line(line), None)
            }
        },
    }
}

} // verus!
