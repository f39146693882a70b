//! The rule-engine data model and the two version-matching operators the
//! rule scripts use.  Script files are split here and their bodies wrapped
//! with the accessor preamble; compiling and running them is host work.
pub mod chunks;
pub mod plugins;
pub mod ports;
pub mod server;

use crate::text::{first_occ, is_digit, lemma_first_occ_props, str_index_of};
use vstd::prelude::*;

verus! {

/// One value per rule-script platform directory.
pub struct ScriptPlatform<P> {
    pub global: P,
    pub noproxy: P,
    pub bukkit: P,
    pub forge: P,
    pub fabric: P,
    pub bungeecord: P,
    pub velocity: P,
}

/// Severity of a detection, most severe first.
#[derive(Clone, Copy, Debug, PartialEq, Eq, PartialOrd, Ord, Hash, Structural)]
pub enum DetectionLevel {
    Critical,
    Error,
    Warn,
    Info,
}

/// The metadata a rule script pairs with one detection identifier.
#[derive(Debug)]
pub struct Detection {
    pub header: String,
    pub solutions: Vec<String>,
    pub private: Option<bool>,
    pub detail: Option<String>,
    pub level: Option<DetectionLevel>,
}

/// The sentinel separating a rule file's script body from its metadata.
pub open spec fn script_sentinel() -> Seq<char> {
    "///"@
}

/// What `split_script` returns: the text before the first sentinel and the
/// text after it, or nothing when the file has no sentinel.
pub open spec fn split_script_spec(content: Seq<char>) -> Option<(Seq<char>, Seq<char>)> {
    match first_occ(content, script_sentinel()) {
        None => None,
        Some(i) => Some(
            (content.subrange(0, i), content.subrange(i + 3, content.len() as int)),
        ),
    }
}

/// Splits a rule file at the first sentinel into script body and metadata
/// text; a file without the sentinel yields nothing.
pub fn split_script(content: &str) -> (r: Option<(String, String)>)
    ensures
        match r {
            Some(p) => split_script_spec(content@) == Some((p.0@, p.1@)),
            None => split_script_spec(content@) is None,
        },
{
    let sentinel = "///";
    proof {
        reveal_strlit("///");
    }
    match str_index_of(content, sentinel) {
        None => None,
        Some(i) => {
            proof {
                lemma_first_occ_props(content@, sentinel@);
            }
            let len = content.unicode_len();
            let body = String::from_str(content.substring_char(0, i));
            let meta = String::from_str(content.substring_char(i + 3, len));
            Some((body, meta))
        },
    }
}

/// The fixed preamble that binds the four accessors before a script body.
pub open spec fn script_preamble() -> Seq<char> {
    "\n            let ports = new_ports(dad);\n            let plugins = new_plugins(dad);\n            let server = new_server(dad);\n            let chunks = new_chunks(dad);\n            "@
}

/// The fixed no-op return after a script body.
pub open spec fn script_postamble() -> Seq<char> {
    "\n            return ();\n            "@
}

/// Wraps a script body with the accessor preamble and the trailing no-op
/// return, yielding the text that is compiled once per script.
pub fn wrap_script(body: &str) -> (r: String)
    ensures
        r@ == script_preamble() + body@ + script_postamble(),
{
    let mut s = String::from_str(
        "\n            let ports = new_ports(dad);\n            let plugins = new_plugins(dad);\n            let server = new_server(dad);\n            let chunks = new_chunks(dad);\n            ",
    );
    s.append(body);
    s.append("\n            return ();\n            ");
    s
}

/// First decimal digit position in `s`, at or after `i`.
pub open spec fn first_digit_from(s: Seq<char>, i: int) -> Option<int>
    decreases s.len() - i,
{
    if i < 0 || i >= s.len() {
        None
    } else if is_digit(s[i]) {
        Some(i)
    } else {
        first_digit_from(s, i + 1)
    }
}

/// End of the digit run starting at `i`: the first position at or after `i`
/// holding no digit.
pub open spec fn digit_run_end(s: Seq<char>, i: int) -> int
    decreases s.len() - i,
{
    if i < 0 || i >= s.len() {
        i
    } else if is_digit(s[i]) {
        digit_run_end(s, i + 1)
    } else {
        i
    }
}

/// The version-shaped pattern matches anywhere in `s`: it holds a digit.
pub open spec fn has_semver_shape(s: Seq<char>) -> bool {
    first_digit_from(s, 0) is Some
}

/// The first version-shaped run in `s`: a digit run, then up to two further
/// dot-and-digit-run groups.
pub open spec fn semver_extract_spec(s: Seq<char>) -> Option<Seq<char>> {
    match first_digit_from(s, 0) {
        None => None,
        Some(d0) => {
            let e1 = digit_run_end(s, d0 + 1);
            let e2 = if e1 < s.len() && s[e1] == '.' && e1 + 1 < s.len() && is_digit(s[e1 + 1]) {
                digit_run_end(s, e1 + 1)
            } else {
                e1
            };
            let e3 = if e2 != e1 && e2 < s.len() && s[e2] == '.' && e2 + 1 < s.len() && is_digit(
                s[e2 + 1],
            ) {
                digit_run_end(s, e2 + 1)
            } else {
                e2
            };
            Some(s.subrange(d0, e3))
        },
    }
}

/// Number of occurrences of `c` in `s`.
pub open spec fn count_char(s: Seq<char>, c: char) -> int
    decreases s.len(),
{
    if s.len() == 0 {
        0
    } else {
        count_char(s.drop_last(), c) + if s.last() == c {
            1int
        } else {
            0int
        }
    }
}

/// Whether `semver::Version::parse` accepts the text.
pub uninterp spec fn sem_version_ok(v: Seq<char>) -> bool;

/// Whether `semver::VersionReq::parse` accepts the text.
pub uninterp spec fn sem_req_ok(r: Seq<char>) -> bool;

/// Whether the parsed requirement matches the parsed version; a function of
/// the two texts alone.
pub uninterp spec fn sem_matches(v: Seq<char>, r: Seq<char>) -> bool;

/// Relies on `semver::Version::parse`: whether the text is a well-formed
/// semantic version.
#[verifier::external_body]
fn version_parses(s: &str) -> (r: bool)
    ensures
        r == sem_version_ok(s@),
{
    semver::Version::parse(s).is_ok()
}

/// Relies on `semver::Version::parse`, `semver::VersionReq::parse` and
/// `semver::VersionReq::matches`: evaluates a requirement text against a
/// version text, or yields nothing when either text does not parse.
#[verifier::external_body]
fn eval_req(version: &str, req: &str) -> (r: Option<bool>)
    ensures
        r is Some <==> (sem_version_ok(version@) && sem_req_ok(req@)),
        r is Some ==> r == Some(sem_matches(version@, req@)),
{
    match semver::Version::parse(version) {
        Err(_) => None,
        Ok(v) => match semver::VersionReq::parse(req) {
            Err(_) => None,
            Ok(q) => Some(q.matches(&v)),
        },
    }
}

/// The extracted run after numeric repair: a run that already parses stays;
/// one or two missing components are supplied as zeros; anything else fails.
pub open spec fn repaired_version(ext: Seq<char>) -> Option<Seq<char>> {
    if sem_version_ok(ext) {
        Some(ext)
    } else {
        let dots = count_char(ext, '.');
        if dots == 0 {
            if sem_version_ok(ext + ".0.0"@) {
                Some(ext + ".0.0"@)
            } else {
                None
            }
        } else if dots == 1 {
            if sem_version_ok(ext + ".0"@) {
                Some(ext + ".0"@)
            } else {
                None
            }
        } else {
            None
        }
    }
}

/// What the `matchver` operator returns: false for an absent value, a value
/// without a version-shaped run, a requirement without one, a run that
/// cannot be repaired into a version, or a requirement that does not parse;
/// otherwise whether the repaired version satisfies the requirement.
/// The requirement must itself contain a digit before anything is parsed,
/// deliberately: a digitless requirement such as a bare wildcard is always
/// false.
pub open spec fn matchver_spec(version: Option<Seq<char>>, req: Seq<char>) -> bool {
    match version {
        None => false,
        Some(v) => match semver_extract_spec(v) {
            None => false,
            Some(ext) => {
                if !has_semver_shape(req) {
                    false
                } else {
                    match repaired_version(ext) {
                        None => false,
                        Some(rv) => {
                            if sem_req_ok(req) {
                                sem_matches(rv, req)
                            } else {
                                false
                            }
                        },
                    }
                }
            },
        },
    }
}

/// What the `matchserver` operator returns: the requirement evaluated
/// directly against the value, with no repair step; a value or requirement
/// that does not parse yields false rather than an abort.  As with
/// `matchver`, both texts must contain a digit before anything is parsed,
/// so a digitless requirement such as a bare wildcard is always false.
pub open spec fn matchserver_spec(server_version: Seq<char>, req: Seq<char>) -> bool {
    if !has_semver_shape(server_version) {
        false
    } else if !has_semver_shape(req) {
        false
    } else if !sem_version_ok(server_version) {
        false
    } else if !sem_req_ok(req) {
        false
    } else {
        sem_matches(server_version, req)
    }
}

/// Whether the text holds a decimal digit anywhere.
fn has_semver_shape_exec(s: &str) -> (b: bool)
    ensures
        b == has_semver_shape(s@),
{
    let len = s.unicode_len();
    let mut i: usize = 0;
    while i < len
        invariant
            len == s@.len(),
            0 <= i <= len,
            first_digit_from(s@, 0) == first_digit_from(s@, i as int),
        decreases len - i,
    {
        let c = s.get_char(i);
        if (c as u32) >= 48 && (c as u32) <= 57 {
            return true;
        }
        i += 1;
    }
    false
}

/// End of the digit run starting at `i`.
fn digit_run_end_exec(s: &str, i: usize, len: usize) -> (e: usize)
    requires
        len == s@.len(),
        i <= len,
    ensures
        e == digit_run_end(s@, i as int),
        i <= e <= len,
    decreases len - i,
{
    if i >= len {
        return i;
    }
    let c = s.get_char(i);
    if (c as u32) >= 48 && (c as u32) <= 57 {
        digit_run_end_exec(s, i + 1, len)
    } else {
        i
    }
}

/// Position of the first decimal digit in the text, if any.
fn find_first_digit(s: &str, len: usize) -> (r: Option<usize>)
    requires
        len == s@.len(),
    ensures
        match r {
            Some(d) => first_digit_from(s@, 0) == Some(d as int) && d < len,
            None => first_digit_from(s@, 0) is None,
        },
{
    let mut i: usize = 0;
    while i < len
        invariant
            len == s@.len(),
            0 <= i <= len,
            first_digit_from(s@, 0) == first_digit_from(s@, i as int),
        decreases len - i,
    {
        let c = s.get_char(i);
        if (c as u32) >= 48 && (c as u32) <= 57 {
            return Some(i);
        }
        i += 1;
    }
    None
}

/// The first version-shaped run in the text, if any.
fn semver_extract(s: &str) -> (r: Option<String>)
    ensures
        match r {
            Some(e) => semver_extract_spec(s@) == Some(e@),
            None => semver_extract_spec(s@) is None,
        },
{
    let len = s.unicode_len();
    let d0 = match find_first_digit(s, len) {
        None => {
            return None;
        },
        Some(d) => d,
    };
    let e1 = digit_run_end_exec(s, d0 + 1, len);
    let e2 = if e1 < len && s.get_char(e1) == '.' && e1 + 1 < len && {
        let c = s.get_char(e1 + 1);
        (c as u32) >= 48 && (c as u32) <= 57
    } {
        digit_run_end_exec(s, e1 + 1, len)
    } else {
        e1
    };
    let e3 = if e2 != e1 && e2 < len && s.get_char(e2) == '.' && e2 + 1 < len && {
        let c = s.get_char(e2 + 1);
        (c as u32) >= 48 && (c as u32) <= 57
    } {
        digit_run_end_exec(s, e2 + 1, len)
    } else {
        e2
    };
    Some(String::from_str(s.substring_char(d0, e3)))
}

/// Number of dots in the text.
fn count_dots(s: &str) -> (n: usize)
    ensures
        n == count_char(s@, '.'),
{
    let len = s.unicode_len();
    let mut n: usize = 0;
    let mut i: usize = 0;
    proof {
        assert(s@.subrange(0, 0) =~= Seq::<char>::empty());
    }
    while i < len
        invariant
            len == s@.len(),
            0 <= i <= len,
            n <= i,
            n == count_char(s@.subrange(0, i as int), '.'),
        decreases len - i,
    {
        if s.get_char(i) == '.' {
            n += 1;
        }
        i += 1;
        proof {
            let pre = s@.subrange(0, i as int);
            assert(pre.drop_last() =~= s@.subrange(0, i - 1));
            assert(pre.last() == s@[i - 1]);
        }
    }
    proof {
        assert(s@.subrange(0, len as int) =~= s@);
    }
    n
}

/// The `matchver` operator: extracts a version-shaped run from the optional
/// value, repairs short numeric versions, and evaluates the requirement;
/// every failure yields false.
pub fn matches_version(version: Option<String>, version_requirements: &str) -> (b: bool)
    ensures
        b == matchver_spec(version.deep_view(), version_requirements@),
{
    let v = match version {
        None => {
            return false;
        },
        Some(v) => v,
    };
    let ext = match semver_extract(v.as_str()) {
        None => {
            return false;
        },
        Some(e) => e,
    };
    if !has_semver_shape_exec(version_requirements) {
        return false;
    }
    let repaired: String = if version_parses(ext.as_str()) {
        ext
    } else {
        let dots = count_dots(ext.as_str());
        let fixed: String = if dots == 0 {
            let mut f = ext;
            f.append(".0.0");
            f
        } else if dots == 1 {
            let mut f = ext;
            f.append(".0");
            f
        } else {
            return false;
        };
        if version_parses(fixed.as_str()) {
            fixed
        } else {
            return false;
        }
    };
    match eval_req(repaired.as_str(), version_requirements) {
        Some(b) => b,
        None => false,
    }
}

/// The `matchserver` operator: evaluates the requirement directly against
/// the value, with no repair step; malformed input yields false.
pub fn matches_server_version(server_version: &str, version_requirements: &str) -> (b: bool)
    ensures
        b == matchserver_spec(server_version@, version_requirements@),
{
    if !has_semver_shape_exec(server_version) {
        return false;
    }
    if !has_semver_shape_exec(version_requirements) {
        return false;
    }
    if !version_parses(server_version) {
        return false;
    }
    match eval_req(server_version, version_requirements) {
        Some(b) => b,
        None => false,
    }
}

} // verus!
