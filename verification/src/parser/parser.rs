//! The entry segmenter: walks the raw lines once, closes an entry at every
//! marker line, and absorbs marker-less lines into the entry that precedes
//! them.  Exposes the reconstructed text of each entry and an HTML rendering.
use crate::parser::delimiters::{
    detect_delimiter_type, detect_spec, delimiters_spec, Delimiters, DelimitersView,
};
use crate::parser::log_level::EntryLevel;
use crate::text::{
    first_occ, has_sub, join_lines, join_range, lemma_first_occ_props, str_contains, str_index_of,
};
use vstd::prelude::*;

verus! {

/// One logical, possibly multi-line, log message.
#[derive(Debug)]
pub struct LogEntry {
    log_level: EntryLevel,
    prefix: String,
    message: String,
}

/// The level and the two text parts of an entry.
pub struct LogEntryView {
    pub log_level: EntryLevel,
    pub prefix: Seq<char>,
    pub message: Seq<char>,
}

impl View for LogEntry {
    type V = LogEntryView;

    closed spec fn view(&self) -> LogEntryView {
        LogEntryView {
            log_level: self.log_level,
            prefix: self.prefix@,
            message: self.message@,
        }
    }
}

impl DeepView for LogEntry {
    type V = LogEntryView;

    closed spec fn deep_view(&self) -> LogEntryView {
        self.view()
    }
}

/// The first marker in the list, from position `k` on, that the line contains.
pub open spec fn first_contained_from(markers: Seq<Seq<char>>, line: Seq<char>, k: int) -> Option<
    Seq<char>,
>
    decreases markers.len() - k,
{
    if k < 0 || k >= markers.len() {
        None
    } else if has_sub(line, markers[k]) {
        Some(markers[k])
    } else {
        first_contained_from(markers, line, k + 1)
    }
}

/// The first marker in the list that the line contains.
pub open spec fn first_contained(markers: Seq<Seq<char>>, line: Seq<char>) -> Option<Seq<char>> {
    first_contained_from(markers, line, 0)
}

/// The level of a line and the concrete marker that decided it, categories
/// checked in the fixed order Info, Warn, Error, Custom.
pub open spec fn classify(d: DelimitersView, line: Seq<char>) -> (EntryLevel, Option<Seq<char>>) {
    if first_contained(d.info, line) is Some {
        (EntryLevel::Info, first_contained(d.info, line))
    } else if first_contained(d.warn, line) is Some {
        (EntryLevel::Warn, first_contained(d.warn, line))
    } else if first_contained(d.error, line) is Some {
        (EntryLevel::Error, first_contained(d.error, line))
    } else if first_contained(d.custom, line) is Some {
        (EntryLevel::Custom, first_contained(d.custom, line))
    } else {
        (EntryLevel::Unknown, None)
    }
}

/// Whether the line contains any configured marker.
pub open spec fn has_marker(d: DelimitersView, line: Seq<char>) -> bool {
    !(classify(d, line).0 is Unknown)
}

/// The prefix/message split of a chunk at the first occurrence of `delim`:
/// the prefix keeps the marker.  A chunk without the marker yields the marker
/// alone as prefix and an empty message.
pub open spec fn split_spec(chunk: Seq<char>, delim: Seq<char>) -> (Seq<char>, Seq<char>) {
    match first_occ(chunk, delim) {
        None => (delim, Seq::empty()),
        Some(i) => (
            chunk.subrange(0, i) + delim,
            chunk.subrange(i + delim.len() as int, chunk.len() as int),
        ),
    }
}

/// The entry built from one closed chunk: the level is the one the chunk's
/// opening marker line carried, while the split point is found by
/// re-classifying the joined chunk text.
pub open spec fn entry_of(d: DelimitersView, opener: EntryLevel, chunk: Seq<char>) -> LogEntryView {
    let c = classify(d, chunk);
    match c.1 {
        None => LogEntryView { log_level: opener, prefix: Seq::empty(), message: chunk },
        Some(delim) => {
            let pm = split_spec(chunk, delim);
            LogEntryView { log_level: opener, prefix: pm.0, message: pm.1 }
        },
    }
}

/// The entry for a final line that itself carries a marker: classified and
/// split on its own.
pub open spec fn last_line_entry(d: DelimitersView, line: Seq<char>) -> LogEntryView {
    let c = classify(d, line);
    match c.1 {
        None => LogEntryView {
            log_level: EntryLevel::Unknown,
            prefix: Seq::empty(),
            message: Seq::empty(),
        },
        Some(delim) => {
            let pm = split_spec(line, delim);
            LogEntryView { log_level: c.0, prefix: pm.0, message: pm.1 }
        },
    }
}

/// The entry closing the final chunk, which runs from the last marker line to
/// the end of the input.  A final line that itself carries a marker becomes a
/// one-line entry of its own; otherwise the chunk is closed like every other
/// one: re-classified and split at its marker.
pub open spec fn tail_entry(
    d: DelimitersView,
    lines: Seq<Seq<char>>,
    last: int,
    lvl: EntryLevel,
) -> Seq<LogEntryView> {
    let n = lines.len() as int;
    if n == 0 {
        Seq::empty()
    } else if !has_marker(d, lines[n - 1]) {
        seq![entry_of(d, lvl, join_range(lines, last, n - 1))]
    } else {
        seq![last_line_entry(d, lines[n - 1])]
    }
}

/// The entries emitted from line `i` on, when the open chunk started at line
/// `last` with a marker of level `lvl`: every marker line closes the chunk
/// before it, and the final chunk is closed after the walk.
pub open spec fn walk(
    d: DelimitersView,
    lines: Seq<Seq<char>>,
    i: int,
    last: int,
    lvl: EntryLevel,
) -> Seq<LogEntryView>
    decreases lines.len() - i,
{
    if i < 0 || i >= lines.len() {
        tail_entry(d, lines, last, lvl)
    } else if has_marker(d, lines[i]) {
        seq![entry_of(d, lvl, join_range(lines, last, if i == 0 { 0 } else { i - 1 }))] + walk(
            d,
            lines,
            i + 1,
            i,
            classify(d, lines[i]).0,
        )
    } else {
        walk(d, lines, i + 1, last, lvl)
    }
}

/// The full segmentation of a non-empty line sequence: the walk's entries,
/// minus the synthetic leading entry when the first line carries a marker.
pub open spec fn parse_spec(d: DelimitersView, lines: Seq<Seq<char>>) -> Seq<LogEntryView> {
    let all = walk(d, lines, 0, 0, classify(d, lines[0]).0);
    if has_marker(d, lines[0]) {
        all.drop_first()
    } else {
        all
    }
}

/// The reconstructed text of each entry: prefix followed by message.
pub open spec fn texts_of(entries: Seq<LogEntryView>) -> Seq<Seq<char>> {
    Seq::new(entries.len(), |i: int| entries[i].prefix + entries[i].message)
}

/// The texts joined back together with the line separator.
pub open spec fn join_texts(ts: Seq<Seq<char>>) -> Seq<char>
    decreases ts.len(),
{
    if ts.len() == 0 {
        Seq::empty()
    } else if ts.len() == 1 {
        ts[0]
    } else {
        ts[0] + crate::text::newline() + join_texts(ts.drop_first())
    }
}

/// A marker returned by `first_contained` is contained in the line.
proof fn lemma_first_contained_has(markers: Seq<Seq<char>>, line: Seq<char>, k: int)
    ensures
        match first_contained_from(markers, line, k) {
            Some(m) => has_sub(line, m),
            None => true,
        },
    decreases markers.len() - k,
{
    if k < 0 || k >= markers.len() {
    } else if has_sub(line, markers[k]) {
    } else {
        lemma_first_contained_has(markers, line, k + 1);
    }
}

/// The marker a classification returns is contained in the classified text.
proof fn lemma_classify_has(d: DelimitersView, line: Seq<char>)
    ensures
        match classify(d, line).1 {
            Some(m) => has_sub(line, m),
            None => true,
        },
{
    lemma_first_contained_has(d.info, line, 0);
    lemma_first_contained_has(d.warn, line, 0);
    lemma_first_contained_has(d.error, line, 0);
    lemma_first_contained_has(d.custom, line, 0);
}

/// Splitting at a contained delimiter loses nothing: the parts concatenate
/// back to the whole.
proof fn lemma_split_rejoins(chunk: Seq<char>, delim: Seq<char>)
    requires
        has_sub(chunk, delim),
    ensures
        split_spec(chunk, delim).0 + split_spec(chunk, delim).1 == chunk,
{
    lemma_first_occ_props(chunk, delim);
    let i = first_occ(chunk, delim).unwrap();
    assert(chunk.subrange(i, i + delim.len() as int) == delim);
    assert((chunk.subrange(0, i) + delim) + chunk.subrange(
        i + delim.len() as int,
        chunk.len() as int,
    ) =~= chunk);
}

/// An entry's reconstructed text is exactly the chunk it was built from.
proof fn lemma_entry_text(d: DelimitersView, opener: EntryLevel, chunk: Seq<char>)
    ensures
        entry_of(d, opener, chunk).prefix + entry_of(d, opener, chunk).message == chunk,
{
    lemma_classify_has(d, chunk);
    match classify(d, chunk).1 {
        None => {
            assert(Seq::<char>::empty() + chunk =~= chunk);
        },
        Some(delim) => {
            lemma_split_rejoins(chunk, delim);
        },
    }
}

/// A marker-bearing final line's entry reconstructs that line exactly.
proof fn lemma_last_line_text(d: DelimitersView, line: Seq<char>)
    requires
        has_marker(d, line),
    ensures
        last_line_entry(d, line).prefix + last_line_entry(d, line).message == line,
{
    lemma_classify_has(d, line);
    match classify(d, line).1 {
        None => {
            assert(false);
        },
        Some(delim) => {
            lemma_split_rejoins(line, delim);
        },
    }
}

/// The walk's entries, from a state where the open chunk starts at `last`
/// and no line strictly between `last` and `i` carries a marker, jointly
/// reconstruct the lines from `last` to the end: each line lands in exactly
/// one entry, in order.
proof fn lemma_walk_covers(
    d: DelimitersView,
    lines: Seq<Seq<char>>,
    i: int,
    last: int,
    lvl: EntryLevel,
)
    requires
        1 <= i <= lines.len(),
        0 <= last <= i - 1,
        last < lines.len(),
        lines.len() >= 1,
        forall|j: int| last < j < i ==> !has_marker(d, #[trigger] lines[j]),
    ensures
        walk(d, lines, i, last, lvl).len() >= 1,
        join_texts(texts_of(walk(d, lines, i, last, lvl))) == join_range(
            lines,
            last,
            lines.len() - 1,
        ),
    decreases lines.len() - i,
{
    let n = lines.len() as int;
    if i >= n {
        if !has_marker(d, lines[n - 1]) {
            lemma_entry_text(d, lvl, join_range(lines, last, n - 1));
            assert(texts_of(tail_entry(d, lines, last, lvl)) =~= seq![
                join_range(lines, last, n - 1),
            ]);
        } else {
            assert(last == n - 1);
            lemma_last_line_text(d, lines[n - 1]);
            assert(texts_of(tail_entry(d, lines, last, lvl)) =~= seq![lines[n - 1]]);
            assert(join_range(lines, last, n - 1) == lines[n - 1]);
        }
    } else if has_marker(d, lines[i]) {
        let chunk = join_range(lines, last, i - 1);
        let e = entry_of(d, lvl, chunk);
        lemma_entry_text(d, lvl, chunk);
        let rest = walk(d, lines, i + 1, i, classify(d, lines[i]).0);
        lemma_walk_covers(d, lines, i + 1, i, classify(d, lines[i]).0);
        assert(texts_of(seq![e] + rest) =~= seq![chunk] + texts_of(rest));
        assert((seq![chunk] + texts_of(rest)).drop_first() =~= texts_of(rest));
        assert(join_texts(seq![chunk] + texts_of(rest)) == chunk + crate::text::newline()
            + join_texts(texts_of(rest)));
        crate::text::lemma_join_split(lines, last, i - 1, n - 1);
    } else {
        lemma_walk_covers(d, lines, i + 1, last, lvl);
    }
}

/// Segmentation round-trip: over a log whose first line carries a marker,
/// joining every entry's reconstructed text in order, with the line
/// separator between entries, rebuilds the whole joined input — every line
/// is covered by exactly one entry, in order.
pub proof fn lemma_segmentation_round_trip(d: DelimitersView, lines: Seq<Seq<char>>)
    requires
        lines.len() > 0,
        has_marker(d, lines[0]),
    ensures
        join_texts(texts_of(parse_spec(d, lines))) == join_range(lines, 0, lines.len() - 1),
{
    let l0 = classify(d, lines[0]).0;
    let all = walk(d, lines, 0, 0, l0);
    let rest = walk(d, lines, 1, 0, classify(d, lines[0]).0);
    assert(all == seq![entry_of(d, l0, join_range(lines, 0, 0))] + rest);
    assert(all.drop_first() =~= rest);
    lemma_walk_covers(d, lines, 1, 0, classify(d, lines[0]).0);
}

/// The segmenter is deterministic: its output is a function of the lines and
/// marker sets alone, so re-running it on identical input yields identical
/// entries.
pub proof fn lemma_segmentation_deterministic(
    d: DelimitersView,
    lines: Seq<Seq<char>>,
    r1: Seq<LogEntryView>,
    r2: Seq<LogEntryView>,
)
    requires
        r1 == parse_spec(d, lines),
        r2 == parse_spec(d, lines),
    ensures
        r1 == r2,
{
}

/// What one escaped character renders as in HTML text content.
pub open spec fn escape_char(c: char) -> Seq<char> {
    if c == '&' {
        seq!['&', 'a', 'm', 'p', ';']
    } else if c == '<' {
        seq!['&', 'l', 't', ';']
    } else if c == '>' {
        seq!['&', 'g', 't', ';']
    } else {
        seq![c]
    }
}

/// A text with its HTML-significant characters escaped.
pub open spec fn escape_text(s: Seq<char>) -> Seq<char>
    decreases s.len(),
{
    if s.len() == 0 {
        Seq::empty()
    } else {
        escape_char(s[0]) + escape_text(s.drop_first())
    }
}

/// The HTML fragment for one entry with the given sequential identifier.
/// Info and Custom levels wrap only the prefix in the level span, keeping the
/// message outside; the other levels wrap prefix and message together.
pub open spec fn html_of(e: LogEntryView, id: int) -> Seq<char> {
    let head = r#"<span class="p" id="L"#@ + crate::text::dec_str(id) + r#"">"#@;
    match e.log_level {
        EntryLevel::Info => head + "<span class="@ + e.log_level.css_class_spec() + ">"@
            + escape_text(e.prefix) + "</span>"@ + escape_text(e.message) + "</span>"@,
        EntryLevel::Custom => head + "<span class=\""@ + e.log_level.css_class_spec() + "\">"@
            + escape_text(e.prefix) + "</span>"@ + escape_text(e.message) + "</span>"@,
        _ => head + "<span class=\""@ + e.log_level.css_class_spec() + "\">"@ + escape_text(
            e.prefix,
        ) + escape_text(e.message) + "</span></span>"@,
    }
}

/// The HTML fragments of all entries, identifiers starting at 1.
pub open spec fn html_spec(entries: Seq<LogEntryView>) -> Seq<Seq<char>> {
    Seq::new(entries.len(), |i: int| html_of(entries[i], i + 1))
}

/// Relies on `html_escape::encode_text`: replaces `&`, `<` and `>` with
/// `&amp;`, `&lt;` and `&gt;` and leaves every other character unchanged.
#[verifier::external_body]
fn encode_text(s: &str) -> (r: String)
    ensures
        r@ == escape_text(s@),
{
    html_escape::encode_text(s).into_owned()
}

/// A parser's lines and marker sets.
pub struct ParserView {
    pub lines: Seq<Seq<char>>,
    pub delimiters: DelimitersView,
}

/// Segments raw lines into leveled entries under a chosen marker convention.
pub struct Parser {
    lines: Vec<String>,
    delimiters: Delimiters,
}

impl View for Parser {
    type V = ParserView;

    closed spec fn view(&self) -> ParserView {
        ParserView { lines: self.lines.deep_view(), delimiters: self.delimiters@ }
    }
}

impl Parser {
    /// Detects the marker convention over the lines and builds the marker
    /// sets, including the caller's custom markers.
    pub fn new(lines: Vec<String>, custom_delimiters: Vec<String>) -> (p: Parser)
        ensures
            p@.lines == lines.deep_view(),
            p@.delimiters == delimiters_spec(
                custom_delimiters.deep_view(),
                detect_spec(lines.deep_view()),
            ),
    {
        let delimiter_type = detect_delimiter_type(&lines);
        let delimiters = Delimiters::new(custom_delimiters, delimiter_type);
        Parser { lines, delimiters }
    }

    /// The first marker of the list contained in the line, if any.
    fn find_marker(line: &str, markers: &Vec<String>) -> (r: Option<String>)
        ensures
            match r {
                Some(m) => first_contained(markers.deep_view(), line@) == Some(m@),
                None => first_contained(markers.deep_view(), line@) is None,
            },
    {
        let mut k: usize = 0;
        while k < markers.len()
            invariant
                0 <= k <= markers@.len(),
                first_contained(markers.deep_view(), line@) == first_contained_from(
                    markers.deep_view(),
                    line@,
                    k as int,
                ),
            decreases markers@.len() - k,
        {
            proof {
                assert(markers.deep_view()[k as int] == markers@[k as int]@);
            }
            if str_contains(line, markers[k].as_str()) {
                return Some(markers[k].clone());
            }
            k += 1;
        }
        None
    }

    /// The level of a line, with the concrete marker that decided it.
    fn log_level(&self, line: &str) -> (r: (EntryLevel, Option<String>))
        ensures
            r.0 == classify(self@.delimiters, line@).0,
            match r.1 {
                Some(m) => classify(self@.delimiters, line@).1 == Some(m@),
                None => classify(self@.delimiters, line@).1 is None,
            },
    {
        if let Some(m) = Self::find_marker(line, &self.delimiters.info) {
            return (EntryLevel::Info, Some(m));
        }
        if let Some(m) = Self::find_marker(line, &self.delimiters.warn) {
            return (EntryLevel::Warn, Some(m));
        }
        if let Some(m) = Self::find_marker(line, &self.delimiters.error) {
            return (EntryLevel::Error, Some(m));
        }
        if let Some(m) = Self::find_marker(line, &self.delimiters.custom) {
            return (EntryLevel::Custom, Some(m));
        }
        (EntryLevel::Unknown, None)
    }

    /// Whether the line contains any configured marker.
    fn contain_log_level(&self, line: &str) -> (b: bool)
        ensures
            b == has_marker(self@.delimiters, line@),
    {
        let r = self.log_level(line);
        !matches!(r.0, EntryLevel::Unknown)
    }

    /// Splits a chunk at the first occurrence of the delimiter, keeping the
    /// delimiter on the prefix side.
    fn split(&self, chunk: String, delimiter: &str) -> (r: (String, String))
        ensures
            (r.0@, r.1@) == split_spec(chunk@, delimiter@),
    {
        match str_index_of(chunk.as_str(), delimiter) {
            None => {
                let mut prefix = String::new();
                prefix.append(delimiter);
                let message = String::new();
                proof {
                    assert(prefix@ =~= split_spec(chunk@, delimiter@).0);
                    assert(message@ =~= split_spec(chunk@, delimiter@).1);
                }
                (prefix, message)
            },
            Some(i) => {
                proof {
                    lemma_first_occ_props(chunk@, delimiter@);
                }
                let chunk_len = chunk.as_str().unicode_len();
                let delim_len = delimiter.unicode_len();
                let mut prefix = String::from_str(chunk.as_str().substring_char(0, i));
                prefix.append(delimiter);
                let message = String::from_str(
                    chunk.as_str().substring_char(i + delim_len, chunk_len),
                );
                (prefix, message)
            },
        }
    }

    /// Builds the entry for one closed chunk.
    fn make_entry(&self, opener: EntryLevel, chunk: String) -> (e: LogEntry)
        ensures
            e@ == entry_of(self@.delimiters, opener, chunk@),
    {
        let lv = self.log_level(chunk.as_str());
        match lv.1 {
            None => LogEntry { log_level: opener, prefix: String::new(), message: chunk },
            Some(delim) => {
                let pm = self.split(chunk, delim.as_str());
                LogEntry { log_level: opener, prefix: pm.0, message: pm.1 }
            },
        }
    }

    /// One pass over the lines: closes a chunk at every marker line, then
    /// handles the final chunk, then discards the synthetic leading entry if
    /// the first line itself carried a marker.
    pub(crate) fn parse(&self) -> (entries: Vec<LogEntry>)
        requires
            self@.lines.len() > 0,
        ensures
            entries.deep_view() == parse_spec(self@.delimiters, self@.lines),
    {
        let ghost gl = self@.lines;
        let ghost gd = self@.delimiters;
        let n = self.lines.len();
        let mut entries: Vec<LogEntry> = Vec::new();
        let mut last: usize = 0;
        let first_level = self.log_level(self.lines[0].as_str());
        let mut last_level = first_level.0;
        let mut index: usize = 0;
        proof {
            assert(entries.deep_view() =~= Seq::<LogEntryView>::empty());
            assert(walk(gd, gl, 0, 0, classify(gd, gl[0]).0) =~= entries.deep_view() + walk(
                gd,
                gl,
                0,
                0,
                last_level,
            ));
        }
        while index < n
            invariant
                n == gl.len(),
                0 < n,
                self@.lines == gl,
                self@.delimiters == gd,
                0 <= last <= index,
                last < n,
                index > 0 ==> last < index,
                walk(gd, gl, 0, 0, classify(gd, gl[0]).0) == entries.deep_view() + walk(
                    gd,
                    gl,
                    index as int,
                    last as int,
                    last_level,
                ),
            decreases n - index,
        {
            proof {
                assert(gl[index as int] == self.lines@[index as int]@);
            }
            if self.contain_log_level(self.lines[index].as_str()) {
                let prev: usize = if index == 0 {
                    0
                } else {
                    index - 1
                };
                let chunk = join_lines(&self.lines, last, prev);
                let entry = self.make_entry(last_level, chunk);
                let ghost entries_old = entries.deep_view();
                let ghost walk_old = walk(gd, gl, index as int, last as int, last_level);
                entries.push(entry);
                let new_level = self.log_level(self.lines[index].as_str());
                proof {
                    assert(walk_old == seq![
                        entry_of(gd, last_level, join_range(gl, last as int, prev as int)),
                    ] + walk(gd, gl, index + 1, index as int, classify(gd, gl[index as int]).0));
                    assert(entries.deep_view() =~= entries_old + seq![entry@]);
                    assert(entries.deep_view() + walk(
                        gd,
                        gl,
                        index + 1,
                        index as int,
                        classify(gd, gl[index as int]).0,
                    ) =~= (entries_old + walk_old));
                }
                last = index;
                last_level = new_level.0;
            } else {
                proof {
                    assert(walk(gd, gl, index as int, last as int, last_level) == walk(
                        gd,
                        gl,
                        index + 1,
                        last as int,
                        last_level,
                    ));
                }
            }
            index += 1;
        }
        proof {
            assert(walk(gd, gl, n as int, last as int, last_level) == tail_entry(
                gd,
                gl,
                last as int,
                last_level,
            ));
            assert(gl[n - 1] == self.lines@[n - 1]@);
        }
        let ghost entries_old = entries.deep_view();
        if !self.contain_log_level(self.lines[n - 1].as_str()) {
            let chunk = join_lines(&self.lines, last, n - 1);
            let entry = self.make_entry(last_level, chunk);
            entries.push(entry);
        } else {
            let entry = self.make_last_entry(&self.lines[n - 1].clone());
            entries.push(entry);
        }
        proof {
            assert(entries.deep_view() =~= entries_old + tail_entry(
                gd,
                gl,
                last as int,
                last_level,
            ));
            assert(entries.deep_view() =~= walk(gd, gl, 0, 0, classify(gd, gl[0]).0));
            assert(gl[0] == self.lines@[0]@);
        }
        if self.contain_log_level(self.lines[0].as_str()) {
            entries.remove(0);
            proof {
                assert(entries.deep_view() =~= walk(gd, gl, 0, 0, classify(gd, gl[0]).0)
                    .drop_first());
            }
        }
        entries
    }

    /// The reconstructed text of every entry, in order.
    pub fn get_chunks(&self) -> (chunks: Vec<String>)
        requires
            self@.lines.len() > 0,
        ensures
            chunks.deep_view() == texts_of(parse_spec(self@.delimiters, self@.lines)),
    {
        let entries = self.parse();
        let ghost model = parse_spec(self@.delimiters, self@.lines);
        let mut output: Vec<String> = Vec::new();
        let mut i: usize = 0;
        while i < entries.len()
            invariant
                entries.deep_view() == model,
                0 <= i <= entries@.len(),
                output.deep_view() =~= texts_of(model).subrange(0, i as int),
            decreases entries@.len() - i,
        {
            proof {
                assert(entries.deep_view()[i as int] == entries@[i as int]@);
            }
            let mut text = entries[i].prefix.clone();
            text.append(entries[i].message.as_str());
            let ghost out_old = output.deep_view();
            proof {
                assert(output.deep_view().len() == texts_of(model).subrange(0, i as int).len());
                assert(output@.len() == i as int);
            }
            output.push(text);
            i += 1;
            proof {
                let rhs = texts_of(model).subrange(0, i as int);
                assert forall|j: int| 0 <= j < rhs.len() implies output.deep_view()[j] == rhs[j]
                    by {
                    if j == i - 1 {
                        assert(output.deep_view()[j] == text@);
                    } else {
                        assert(output.deep_view()[j] == out_old[j]);
                    }
                }
                assert(output.deep_view() =~= rhs);
            }
        }
        proof {
            assert(texts_of(model).subrange(0, entries@.len() as int) =~= texts_of(model));
        }
        output
    }

    /// The HTML fragment for one entry under its sequential identifier.
    fn html_part(&self, e: &LogEntry, id: usize) -> (s: String)
        ensures
            s@ == html_of(e@, id as int),
    {
        let mut s = String::new();
        s.append(r#"<span class="p" id="L"#);
        let id_str = crate::text::fmt_usize(id);
        s.append(id_str.as_str());
        s.append(r#"">"#);
        match e.log_level {
            EntryLevel::Info => {
                s.append("<span class=");
                s.append(e.log_level.css_class());
                s.append(">");
                s.append(encode_text(e.prefix.as_str()).as_str());
                s.append("</span>");
                s.append(encode_text(e.message.as_str()).as_str());
                s.append("</span>");
            },
            EntryLevel::Custom => {
                s.append("<span class=\"");
                s.append(e.log_level.css_class());
                s.append("\">");
                s.append(encode_text(e.prefix.as_str()).as_str());
                s.append("</span>");
                s.append(encode_text(e.message.as_str()).as_str());
                s.append("</span>");
            },
            _ => {
                s.append("<span class=\"");
                s.append(e.log_level.css_class());
                s.append("\">");
                s.append(encode_text(e.prefix.as_str()).as_str());
                s.append(encode_text(e.message.as_str()).as_str());
                s.append("</span></span>");
            },
        }
        assert(s@ =~= html_of(e@, id as int));
        s
    }

    /// The HTML rendering: one span block per entry, with a stable sequential
    /// identifier and a class keyed to the entry's level.
    pub fn html(&self) -> (parts: Vec<String>)
        requires
            self@.lines.len() > 0,
        ensures
            parts.deep_view() == html_spec(parse_spec(self@.delimiters, self@.lines)),
    {
        let entries = self.parse();
        let ghost model = parse_spec(self@.delimiters, self@.lines);
        let mut parts: Vec<String> = Vec::new();
        let mut i: usize = 0;
        while i < entries.len()
            invariant
                entries.deep_view() == model,
                0 <= i <= entries@.len(),
                parts.deep_view() =~= html_spec(model).subrange(0, i as int),
            decreases entries@.len() - i,
        {
            proof {
                assert(entries.deep_view()[i as int] == entries@[i as int]@);
            }
            let part = self.html_part(&entries[i], i + 1);
            let ghost parts_old = parts.deep_view();
            proof {
                assert(parts.deep_view().len() == html_spec(model).subrange(0, i as int).len());
                assert(parts@.len() == i as int);
            }
            parts.push(part);
            i += 1;
            proof {
                let rhs = html_spec(model).subrange(0, i as int);
                assert forall|j: int| 0 <= j < rhs.len() implies parts.deep_view()[j] == rhs[j]
                    by {
                    if j == i - 1 {
                        assert(parts.deep_view()[j] == part@);
                    } else {
                        assert(parts.deep_view()[j] == parts_old[j]);
                    }
                }
                assert(parts.deep_view() =~= rhs);
            }
        }
        proof {
            assert(html_spec(model).subrange(0, entries@.len() as int) =~= html_spec(model));
        }
        parts
    }

    /// Builds the entry for a final line that itself carries a marker.
    fn make_last_entry(&self, line: &String) -> (e: LogEntry)
        ensures
            e@ == last_line_entry(self@.delimiters, line@),
    {
        let lv = self.log_level(line.as_str());
        match lv.1 {
            None => LogEntry {
                log_level: EntryLevel::Unknown,
                prefix: String::new(),
                message: String::new(),
            },
            Some(delim) => {
                let pm = self.split(line.clone(), delim.as_str());
                LogEntry { log_level: lv.0, prefix: pm.0, message: pm.1 }
            },
        }
    }
}

} // verus!
