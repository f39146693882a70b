//! Level-marker conventions: which punctuation a log uses after level names,
//! and the scan that decides it for a given log.
use crate::text::{has_sub, str_contains};
use vstd::prelude::*;

verus! {

/// How a log punctuates its level names, e.g. `WARN]:` versus bare `WARN`.
#[derive(Clone, Copy, PartialEq, Eq, Structural, Debug)]
pub enum DelimiterType {
    BracketColon,
    Bracket,
    Colon,
    NoColonNoBracket,
}

impl DelimiterType {
    /// The punctuation appended to a level name under this convention.
    pub open spec fn suffix_spec(self) -> Seq<char> {
        match self {
            DelimiterType::BracketColon => seq![']', ':'],
            DelimiterType::Bracket => seq![']'],
            DelimiterType::Colon => seq![':'],
            DelimiterType::NoColonNoBracket => Seq::empty(),
        }
    }

    /// The punctuation appended to a level name under this convention.
    pub fn suffix(&self) -> (r: &'static str)
        ensures
            r@ == self.suffix_spec(),
    {
        proof {
            reveal_strlit("]:");
            reveal_strlit("]");
            reveal_strlit(":");
            reveal_strlit("");
        }
        let r = match self {
            DelimiterType::BracketColon => "]:",
            DelimiterType::Bracket => "]",
            DelimiterType::Colon => ":",
            DelimiterType::NoColonNoBracket => "",
        };
        assert(r@ =~= self.suffix_spec());
        r
    }
}

/// The built-in level names recognised when detecting the convention.
pub open spec fn detect_names() -> Seq<Seq<char>> {
    seq!["INFO"@, "WARN"@, "WARNING"@, "ERROR"@, "FATAL"@, "SEVERE"@]
}

/// Level names of the Info category.
pub open spec fn info_names() -> Seq<Seq<char>> {
    seq!["INFO"@]
}

/// Level names of the Warn category.
pub open spec fn warn_names() -> Seq<Seq<char>> {
    seq!["WARN"@, "WARNING"@]
}

/// Level names of the Error category.
pub open spec fn error_names() -> Seq<Seq<char>> {
    seq!["ERROR"@, "SEVERE"@, "FATAL"@]
}

/// Each name with the convention's punctuation appended.
pub open spec fn with_suffix(names: Seq<Seq<char>>, t: DelimiterType) -> Seq<Seq<char>> {
    Seq::new(names.len(), |k: int| names[k] + t.suffix_spec())
}

/// The line contains at least one of the markers.
pub open spec fn matches_any(line: Seq<char>, markers: Seq<Seq<char>>) -> bool {
    exists|k: int| 0 <= k < markers.len() && has_sub(line, #[trigger] markers[k])
}

/// How many of the first `n` lines contain one of the markers.
pub open spec fn count_matching(lines: Seq<Seq<char>>, markers: Seq<Seq<char>>, n: int) -> int
    decreases n,
{
    if n <= 0 || n > lines.len() {
        0
    } else {
        count_matching(lines, markers, n - 1) + if matches_any(lines[n - 1], markers) {
            1int
        } else {
            0int
        }
    }
}

/// Lines scanned, at most, when detecting the delimiter convention.
pub const DELIMITER_MAX_MATCHES: usize = 125;

/// Number of lines the detection scan looks at for this log.
pub open spec fn scan_len(lines: Seq<Seq<char>>) -> int {
    if lines.len() < DELIMITER_MAX_MATCHES as int {
        lines.len() as int
    } else {
        DELIMITER_MAX_MATCHES as int
    }
}

/// How many scanned lines match the convention `t`.
pub open spec fn style_count(lines: Seq<Seq<char>>, t: DelimiterType) -> int {
    count_matching(lines, with_suffix(detect_names(), t), scan_len(lines))
}

/// The convention the detection scan decides on: the one whose marker shape
/// matches the most scanned lines, ties going to the more punctuated form;
/// a scan where nothing matches falls back to the bare form.
pub open spec fn detect_spec(lines: Seq<Seq<char>>) -> DelimiterType {
    let cbare = style_count(lines, DelimiterType::NoColonNoBracket);
    let ccolon = style_count(lines, DelimiterType::Colon);
    let cbracket = style_count(lines, DelimiterType::Bracket);
    let cbc = style_count(lines, DelimiterType::BracketColon);
    if cbare <= 0 && ccolon <= 0 && cbracket <= 0 && cbc <= 0 {
        DelimiterType::NoColonNoBracket
    } else if cbc >= cbare && cbc >= ccolon && cbc >= cbracket {
        DelimiterType::BracketColon
    } else if cbracket >= cbare && cbracket >= ccolon {
        DelimiterType::Bracket
    } else if ccolon >= cbare {
        DelimiterType::Colon
    } else {
        DelimiterType::NoColonNoBracket
    }
}

/// Lines matching one marker list never outnumber lines matching another
/// list that every matching line also matches.
proof fn lemma_count_mono(lines: Seq<Seq<char>>, ma: Seq<Seq<char>>, mb: Seq<Seq<char>>, n: int)
    requires
        n <= lines.len(),
        forall|i: int| 0 <= i < n ==> (matches_any(#[trigger] lines[i], ma) ==> matches_any(
            lines[i],
            mb,
        )),
    ensures
        count_matching(lines, ma, n) <= count_matching(lines, mb, n),
    decreases n,
{
    if n > 0 {
        lemma_count_mono(lines, ma, mb, n - 1);
    }
}

/// A line matching some punctuated marker shape also matches the bare shape:
/// the bare level name is a prefix of every punctuated marker.
proof fn lemma_style_implies_bare(line: Seq<char>, t: DelimiterType)
    requires
        matches_any(line, with_suffix(detect_names(), t)),
    ensures
        matches_any(line, with_suffix(detect_names(), DelimiterType::NoColonNoBracket)),
{
    let names = detect_names();
    let k = choose|k: int|
        0 <= k < with_suffix(names, t).len() && has_sub(line, with_suffix(names, t)[k]);
    crate::text::lemma_has_sub_prefix(line, names[k], t.suffix_spec());
    assert(with_suffix(names, DelimiterType::NoColonNoBracket)[k] =~= names[k]);
    assert(has_sub(line, with_suffix(names, DelimiterType::NoColonNoBracket)[k]));
}

/// For a log whose level-bearing lines all use the bracket-colon shape, the
/// scan decides on BracketColon, even where lines also match the barer
/// shapes: the more punctuated form wins ties, and a line matching any shape
/// matches the bare shape too.
pub proof fn lemma_bracket_colon_priority(lines: Seq<Seq<char>>)
    requires
        style_count(lines, DelimiterType::BracketColon) > 0,
        forall|i: int| 0 <= i < scan_len(lines) ==> (matches_any(
            #[trigger] lines[i],
            with_suffix(detect_names(), DelimiterType::NoColonNoBracket),
        ) ==> matches_any(lines[i], with_suffix(detect_names(), DelimiterType::BracketColon))),
    ensures
        detect_spec(lines) == DelimiterType::BracketColon,
{
    let n = scan_len(lines);
    let bare = with_suffix(detect_names(), DelimiterType::NoColonNoBracket);
    let bc = with_suffix(detect_names(), DelimiterType::BracketColon);
    let br = with_suffix(detect_names(), DelimiterType::Bracket);
    let co = with_suffix(detect_names(), DelimiterType::Colon);
    assert forall|i: int| 0 <= i < n && matches_any(#[trigger] lines[i], br) implies matches_any(
        lines[i],
        bare,
    ) by {
        lemma_style_implies_bare(lines[i], DelimiterType::Bracket);
    }
    assert forall|i: int| 0 <= i < n && matches_any(#[trigger] lines[i], co) implies matches_any(
        lines[i],
        bare,
    ) by {
        lemma_style_implies_bare(lines[i], DelimiterType::Colon);
    }
    lemma_count_mono(lines, br, bare, n);
    lemma_count_mono(lines, co, bare, n);
    lemma_count_mono(lines, bare, bc, n);
}

/// The concrete marker strings for each level category under one convention,
/// including the caller's custom markers.
pub struct Delimiters {
    pub info: Vec<String>,
    pub warn: Vec<String>,
    pub error: Vec<String>,
    pub custom: Vec<String>,
}

/// The marker strings of a `Delimiters`, as character sequences.
pub struct DelimitersView {
    pub info: Seq<Seq<char>>,
    pub warn: Seq<Seq<char>>,
    pub error: Seq<Seq<char>>,
    pub custom: Seq<Seq<char>>,
}

impl View for Delimiters {
    type V = DelimitersView;

    open spec fn view(&self) -> DelimitersView {
        DelimitersView {
            info: self.info.deep_view(),
            warn: self.warn.deep_view(),
            error: self.error.deep_view(),
            custom: self.custom.deep_view(),
        }
    }
}

/// The marker sets a chosen convention and custom marker list give rise to.
pub open spec fn delimiters_spec(custom: Seq<Seq<char>>, t: DelimiterType) -> DelimitersView {
    DelimitersView {
        info: with_suffix(info_names(), t),
        warn: with_suffix(warn_names(), t),
        error: with_suffix(error_names(), t),
        custom: with_suffix(custom, t),
    }
}

/// Appends the convention's punctuation to every name in the list.
fn suffix_all(names: &Vec<String>, delimiter_type: DelimiterType) -> (r: Vec<String>)
    ensures
        r.deep_view() == with_suffix(names.deep_view(), delimiter_type),
{
    let suffix = delimiter_type.suffix();
    let mut r: Vec<String> = Vec::new();
    let mut i: usize = 0;
    proof {
        assert(r.deep_view() =~= with_suffix(names.deep_view().subrange(0, 0), delimiter_type));
    }
    while i < names.len()
        invariant
            0 <= i <= names@.len(),
            suffix@ == delimiter_type.suffix_spec(),
            r.deep_view() == with_suffix(names.deep_view().subrange(0, i as int), delimiter_type),
        decreases names@.len() - i,
    {
        let mut m = names[i].clone();
        m.append(suffix);
        proof {
            assert(names.deep_view()[i as int] == names@[i as int]@);
            assert(r.deep_view().len() == with_suffix(
                names.deep_view().subrange(0, i as int),
                delimiter_type,
            ).len());
            assert(r@.len() == i as int);
        }
        let ghost r_old_deep = r.deep_view();
        r.push(m);
        i += 1;
        proof {
            let rhs = with_suffix(names.deep_view().subrange(0, i as int), delimiter_type);
            assert forall|j: int| 0 <= j < rhs.len() implies r.deep_view()[j] == rhs[j] by {
                if j == i - 1 {
                    assert(r.deep_view()[j] == m@);
                } else {
                    assert(r.deep_view()[j] == r_old_deep[j]);
                    assert(r_old_deep[j] == names.deep_view().subrange(0, i - 1)[j]
                        + delimiter_type.suffix_spec());
                }
            }
            assert(r.deep_view() =~= rhs);
        }
    }
    proof {
        assert(names.deep_view().subrange(0, names@.len() as int) =~~= names.deep_view());
        assert(r.deep_view() =~= with_suffix(names.deep_view(), delimiter_type));
    }
    r
}

impl Delimiters {
    /// Builds the four marker sets for the chosen convention.
    pub fn new(custom_delimiters: Vec<String>, delimiter_type: DelimiterType) -> (r: Delimiters)
        ensures
            r@ == delimiters_spec(custom_delimiters.deep_view(), delimiter_type),
    {
        let info: Vec<String> = vec![String::from_str("INFO")];
        let warn: Vec<String> = vec![String::from_str("WARN"), String::from_str("WARNING")];
        let error: Vec<String> = vec![
            String::from_str("ERROR"),
            String::from_str("SEVERE"),
            String::from_str("FATAL"),
        ];
        assert(info.deep_view() =~= info_names());
        assert(warn.deep_view() =~= warn_names());
        assert(error.deep_view() =~= error_names());
        let r = Delimiters {
            info: suffix_all(&info, delimiter_type),
            warn: suffix_all(&warn, delimiter_type),
            error: suffix_all(&error, delimiter_type),
            custom: suffix_all(&custom_delimiters, delimiter_type),
        };
        r
    }
}

/// Whether the line contains at least one of the given markers.
pub fn line_matches_any(line: &str, markers: &Vec<String>) -> (b: bool)
    ensures
        b == matches_any(line@, markers.deep_view()),
{
    let mut k: usize = 0;
    while k < markers.len()
        invariant
            0 <= k <= markers@.len(),
            forall|j: int| 0 <= j < k ==> !has_sub(line@, #[trigger] markers.deep_view()[j]),
        decreases markers@.len() - k,
    {
        if str_contains(line, markers[k].as_str()) {
            assert(markers.deep_view()[k as int] == markers@[k as int]@);
            assert(matches_any(line@, markers.deep_view()));
            return true;
        }
        assert(markers.deep_view()[k as int] == markers@[k as int]@);
        k += 1;
    }
    false
}

/// Counts, over the scan window, the lines containing one of the markers.
fn count_style(lines: &Vec<String>, markers: &Vec<String>) -> (c: usize)
    ensures
        c == count_matching(lines.deep_view(), markers.deep_view(), scan_len(lines.deep_view())),
{
    let limit = if lines.len() < DELIMITER_MAX_MATCHES {
        lines.len()
    } else {
        DELIMITER_MAX_MATCHES
    };
    let mut c: usize = 0;
    let mut i: usize = 0;
    while i < limit
        invariant
            limit == scan_len(lines.deep_view()),
            limit <= lines@.len(),
            0 <= i <= limit,
            c <= i,
            c == count_matching(lines.deep_view(), markers.deep_view(), i as int),
        decreases limit - i,
    {
        if line_matches_any(lines[i].as_str(), markers) {
            c += 1;
        }
        i += 1;
        assert(lines.deep_view()[i - 1] == lines@[i - 1]@);
    }
    c
}

/// Decides which marker convention the log uses: the shape matching the most
/// lines in a bounded scan wins, ties going to the more punctuated form.
pub fn detect_delimiter_type(lines: &Vec<String>) -> (t: DelimiterType)
    ensures
        t == detect_spec(lines.deep_view()),
{
    let names: Vec<String> = vec![
        String::from_str("INFO"),
        String::from_str("WARN"),
        String::from_str("WARNING"),
        String::from_str("ERROR"),
        String::from_str("FATAL"),
        String::from_str("SEVERE"),
    ];
    assert(names.deep_view() =~= detect_names());
    let cbare = count_style(lines, &suffix_all(&names, DelimiterType::NoColonNoBracket));
    let ccolon = count_style(lines, &suffix_all(&names, DelimiterType::Colon));
    let cbracket = count_style(lines, &suffix_all(&names, DelimiterType::Bracket));
    let cbc = count_style(lines, &suffix_all(&names, DelimiterType::BracketColon));
    if cbare == 0 && ccolon == 0 && cbracket == 0 && cbc == 0 {
        DelimiterType::NoColonNoBracket
    } else if cbc >= cbare && cbc >= ccolon && cbc >= cbracket {
        DelimiterType::BracketColon
    } else if cbracket >= cbare && cbracket >= ccolon {
        DelimiterType::Bracket
    } else if ccolon >= cbare {
        DelimiterType::Colon
    } else {
        DelimiterType::NoColonNoBracket
    }
}

} // verus!
