//! The read-only `Chunks` accessor a rule script sees: substring search over
//! the reconstructed entry texts, and a template search that turns numbered
//! placeholders into greedy capturing wildcards.
use crate::analyzer::{any_line_has, DynamicAnalyzerDetails};
use crate::text::{at_pos, has_sub, is_digit, lower_of, str_contains, to_lowercase};
use vstd::prelude::*;

verus! {

/// A `{N}`-shaped placeholder starts at `i` of the template.
pub open spec fn placeholder_at(t: Seq<char>, i: int) -> bool {
    &&& 0 <= i
    &&& i + 3 <= t.len()
    &&& t[i] == '{'
    &&& is_digit(t[i + 1])
    &&& t[i + 2] == '}'
}

/// First placeholder position at or after `i`.
pub open spec fn first_placeholder_from(t: Seq<char>, i: int) -> Option<int>
    decreases t.len() - i,
{
    if i < 0 || i + 3 > t.len() {
        None
    } else if placeholder_at(t, i) {
        Some(i)
    } else {
        first_placeholder_from(t, i + 1)
    }
}

/// The literal segments of a template: the texts between its placeholders.
/// A template with `k` placeholders yields `k + 1` segments.
pub open spec fn segments(t: Seq<char>) -> Seq<Seq<char>>
    decreases t.len(),
{
    match first_placeholder_from(t, 0) {
        None => seq![t],
        Some(i) => {
            if 0 <= i && i + 3 <= t.len() {
                seq![t.subrange(0, i)] + segments(t.subrange(i + 3, t.len() as int))
            } else {
                seq![t]
            }
        },
    }
}

/// No line separator occurs in `s[a..b)`: a wildcard never crosses lines.
pub open spec fn no_newline(s: Seq<char>, a: int, b: int) -> bool {
    forall|k: int| a <= k < b ==> s[k] != '\n'
}

/// The capture ranges for segments `j..`, matched from position `p` on, one
/// greedy wildcard before each segment: the wildcard takes the longest
/// line-separator-free span that still lets the rest match.
pub open spec fn greedy_rest(segs: Seq<Seq<char>>, j: int, s: Seq<char>, p: int) -> Option<
    Seq<(int, int)>,
>
    decreases segs.len() - j, s.len() - p + 2,
{
    if j >= segs.len() {
        Some(Seq::empty())
    } else if j < 0 || p < 0 || p > s.len() {
        None
    } else if segs[j].len() > s.len() {
        None
    } else if s.len() - segs[j].len() < p {
        None
    } else {
        try_wild(segs, j, s, p, s.len() - segs[j].len() as int)
    }
}

/// Tries the wildcard end positions from `e` downward.
pub open spec fn try_wild(segs: Seq<Seq<char>>, j: int, s: Seq<char>, p: int, e: int) -> Option<
    Seq<(int, int)>,
>
    decreases segs.len() - j, e - p + 1,
{
    if e < p || p < 0 || j < 0 || j >= segs.len() {
        None
    } else if no_newline(s, p, e) && at_pos(s, segs[j], e) && greedy_rest(
        segs,
        j + 1,
        s,
        e + segs[j].len() as int,
    ) is Some {
        Some(seq![(p, e)] + greedy_rest(segs, j + 1, s, e + segs[j].len() as int).unwrap())
    } else {
        try_wild(segs, j, s, p, e - 1)
    }
}

/// First position at or after `i` where the whole template matches: the
/// leading segment occurs there and the rest match greedily after it.
pub open spec fn match_from(segs: Seq<Seq<char>>, s: Seq<char>, i: int) -> Option<int>
    decreases s.len() - i + 1,
{
    if i < 0 || i > s.len() || i + segs[0].len() > s.len() {
        None
    } else if at_pos(s, segs[0], i) && greedy_rest(segs, 1, s, i + segs[0].len() as int) is Some {
        Some(i)
    } else {
        match_from(segs, s, i + 1)
    }
}

/// The ordered captures of the leftmost template match in one text, if any.
pub open spec fn template_captures(segs: Seq<Seq<char>>, s: Seq<char>) -> Option<Seq<Seq<char>>> {
    if segs.len() == 0 {
        None
    } else {
        match match_from(segs, s, 0) {
            None => None,
            Some(i) => {
                let rs = greedy_rest(segs, 1, s, i + segs[0].len() as int).unwrap();
                Some(Seq::new(rs.len(), |k: int| s.subrange(rs[k].0, rs[k].1)))
            },
        }
    }
}

/// The capture records over the first `n` texts, in text order.
pub open spec fn line2_records(chunks: Seq<Seq<char>>, segs: Seq<Seq<char>>, n: int) -> Seq<
    Seq<Seq<char>>,
>
    decreases n,
{
    if n <= 0 || n > chunks.len() {
        Seq::empty()
    } else {
        line2_records(chunks, segs, n - 1) + (match template_captures(segs, chunks[n - 1]) {
            None => Seq::<Seq<Seq<char>>>::empty(),
            Some(cs) => seq![cs],
        })
    }
}

/// What the template search returns: nothing for a template without
/// placeholders or when no text matches; otherwise one record of ordered
/// captures per matching text.
pub open spec fn has_line2_spec(chunks: Seq<Seq<char>>, template: Seq<char>) -> Option<
    Seq<Seq<Seq<char>>>,
> {
    let segs = segments(template);
    if segs.len() <= 1 {
        None
    } else {
        let recs = line2_records(chunks, segs, chunks.len() as int);
        if recs.len() == 0 {
            None
        } else {
            Some(recs)
        }
    }
}

/// One template match in one text: the ordered captured groups, tagged with
/// the caller's identifier.
#[derive(Debug)]
pub struct Captures {
    pub identifier: String,
    pub captures: Vec<String>,
}

/// The identifier and ordered captures of one record.
pub struct CapturesView {
    pub identifier: Seq<char>,
    pub captures: Seq<Seq<char>>,
}

impl View for Captures {
    type V = CapturesView;

    open spec fn view(&self) -> CapturesView {
        CapturesView { identifier: self.identifier@, captures: self.captures.deep_view() }
    }
}

impl DeepView for Captures {
    type V = CapturesView;

    open spec fn deep_view(&self) -> CapturesView {
        self.view()
    }
}

/// Read-only entry-text facts, bound into a rule script.
pub struct Chunks {
    dad: DynamicAnalyzerDetails,
}

impl View for Chunks {
    type V = DynamicAnalyzerDetails;

    closed spec fn view(&self) -> DynamicAnalyzerDetails {
        self.dad
    }
}

/// Position of the first placeholder in the template, if any.
fn find_placeholder(t: &str, len: usize) -> (r: Option<usize>)
    requires
        len == t@.len(),
    ensures
        match r {
            Some(i) => first_placeholder_from(t@, 0) == Some(i as int) && i + 3 <= len,
            None => first_placeholder_from(t@, 0) is None,
        },
{
    if len < 3 {
        return None;
    }
    let mut i: usize = 0;
    while i <= len - 3
        invariant
            len == t@.len(),
            3 <= len,
            0 <= i <= len - 2,
            first_placeholder_from(t@, 0) == first_placeholder_from(t@, i as int),
        decreases len - i,
    {
        let c1 = t.get_char(i + 1);
        if t.get_char(i) == '{' && (c1 as u32) >= 48 && (c1 as u32) <= 57 && t.get_char(i + 2)
            == '}' {
            return Some(i);
        }
        i += 1;
    }
    None
}

/// The literal segments of a template.
fn segments_exec(t: &str) -> (r: Vec<String>)
    ensures
        r.deep_view() == segments(t@),
        r@.len() >= 1,
    decreases t@.len(),
{
    let len = t.unicode_len();
    match find_placeholder(t, len) {
        None => {
            let mut v: Vec<String> = Vec::new();
            v.push(String::from_str(t));
            proof {
                assert(v.deep_view() =~~= segments(t@));
            }
            v
        },
        Some(i) => {
            let head = String::from_str(t.substring_char(0, i));
            let tail = t.substring_char(i + 3, len);
            let mut rest = segments_exec(tail);
            let ghost rest_deep = rest.deep_view();
            let mut v: Vec<String> = Vec::new();
            v.push(head);
            v.append(&mut rest);
            proof {
                assert(segments(t@) == seq![t@.subrange(0, i as int)] + segments(
                    t@.subrange(i + 3, t@.len() as int),
                ));
                assert forall|k: int| 0 <= k < v.deep_view().len() implies v.deep_view()[k]
                    == (seq![t@.subrange(0, i as int)] + rest_deep)[k] by {
                    if k > 0 {
                        assert(v.deep_view()[k] == rest_deep[k - 1]);
                    }
                }
                assert(v.deep_view() =~~= segments(t@));
            }
            v
        },
    }
}

/// No line separator in `s[a..b)`.
fn no_newline_exec(s: &str, a: usize, b: usize, len: usize) -> (r: bool)
    requires
        len == s@.len(),
        a <= b <= len,
    ensures
        r == no_newline(s@, a as int, b as int),
{
    let mut k: usize = a;
    while k < b
        invariant
            len == s@.len(),
            a <= k <= b <= len,
            forall|x: int| a <= x < k ==> s@[x] != '\n',
        decreases b - k,
    {
        if s.get_char(k) == '\n' {
            return false;
        }
        k += 1;
    }
    true
}

/// The capture ranges for segments `j..` matched from `p` on, greedily.
fn greedy_rest_exec(segs: &Vec<String>, j: usize, s: &str, p: usize, s_len: usize) -> (r: Option<
    Vec<(usize, usize)>,
>)
    requires
        s_len == s@.len(),
        p <= s_len,
        j <= segs@.len(),
    ensures
        ({
            let spec_r = greedy_rest(segs.deep_view(), j as int, s@, p as int);
            match r {
                None => spec_r is None,
                Some(v) => spec_r is Some && v@.len() == spec_r.unwrap().len() && forall|k: int|
                    0 <= k < v@.len() ==> (#[trigger] v@[k]).0 == spec_r.unwrap()[k].0
                        && v@[k].1 == spec_r.unwrap()[k].1 && v@[k].0 <= v@[k].1 <= s_len,
            }
        }),
    decreases segs@.len() - j,
{
    let ghost gsegs = segs.deep_view();
    if j >= segs.len() {
        let v: Vec<(usize, usize)> = Vec::new();
        proof {
            assert(v@.len() == greedy_rest(gsegs, j as int, s@, p as int).unwrap().len());
        }
        return Some(v);
    }
    let n_segs = segs.len();
    let seg_str = segs[j].as_str();
    let seg_len = seg_str.unicode_len();
    proof {
        assert(gsegs[j as int] == segs@[j as int]@);
    }
    if seg_len > s_len {
        return None;
    }
    if s_len - seg_len < p {
        proof {
            assert(try_wild(gsegs, j as int, s@, p as int, s_len - seg_len) is None);
        }
        return None;
    }
    let mut e: usize = s_len - seg_len;
    loop
        invariant
            s_len == s@.len(),
            p <= s_len,
            j < n_segs,
            n_segs == segs@.len(),
            gsegs == segs.deep_view(),
            seg_str@ == gsegs[j as int],
            seg_len == gsegs[j as int].len(),
            seg_len <= s_len,
            p <= e <= s_len - seg_len,
            try_wild(gsegs, j as int, s@, p as int, (s_len - seg_len) as int) == try_wild(
                gsegs,
                j as int,
                s@,
                p as int,
                e as int,
            ),
        decreases e,
    {
        let mut hit = false;
        if no_newline_exec(s, p, e, s_len) && crate::text::check_at(s, seg_str, e, s_len, seg_len)
        {
            match greedy_rest_exec(segs, j + 1, s, e + seg_len, s_len) {
                Some(mut rest) => {
                    let ghost rest_view = rest@;
                    let mut v: Vec<(usize, usize)> = Vec::new();
                    v.push((p, e));
                    v.append(&mut rest);
                    proof {
                        let spec_rest = greedy_rest(
                            gsegs,
                            j + 1,
                            s@,
                            e + seg_len,
                        ).unwrap();
                        let spec_all = seq![(p as int, e as int)] + spec_rest;
                        assert(v@.len() == spec_all.len());
                        assert forall|k: int| 0 <= k < v@.len() implies (#[trigger] v@[k]).0
                            == spec_all[k].0 && v@[k].1 == spec_all[k].1 && v@[k].0 <= v@[k].1
                            <= s_len by {
                            if k > 0 {
                                assert(v@[k] == rest_view[k - 1]);
                            }
                        }
                    }
                    return Some(v);
                },
                None => {},
            }
        }
        proof {
            assert(try_wild(gsegs, j as int, s@, p as int, e as int) == try_wild(
                gsegs,
                j as int,
                s@,
                p as int,
                e - 1,
            ));
        }
        if e == p {
            return None;
        }
        e -= 1;
    }
}

/// `match_from` keeps searching only within the text.
proof fn lemma_match_from_end(segs: Seq<Seq<char>>, s: Seq<char>, i: int)
    requires
        i > s.len() || i + segs[0].len() > s.len(),
        i >= 0,
    ensures
        match_from(segs, s, i) is None,
{
}

/// The leftmost template match in one text: its start and capture ranges.
fn match_template_exec(segs: &Vec<String>, s: &str, s_len: usize) -> (r: Option<
    Vec<(usize, usize)>,
>)
    requires
        s_len == s@.len(),
        segs@.len() >= 1,
    ensures
        ({
            let spec_r = template_captures(segs.deep_view(), s@);
            match r {
                None => spec_r is None,
                Some(v) => spec_r is Some && v@.len() == spec_r.unwrap().len() && forall|k: int|
                    0 <= k < v@.len() ==> (#[trigger] v@[k]).0 <= v@[k].1 <= s_len
                        && spec_r.unwrap()[k] == s@.subrange(v@[k].0 as int, v@[k].1 as int),
            }
        }),
{
    let ghost gsegs = segs.deep_view();
    let seg0 = segs[0].as_str();
    let seg0_len = seg0.unicode_len();
    proof {
        assert(gsegs[0] == segs@[0]@);
    }
    let mut i: usize = 0;
    loop
        invariant
            s_len == s@.len(),
            gsegs == segs.deep_view(),
            gsegs.len() >= 1,
            seg0@ == gsegs[0],
            seg0_len == gsegs[0].len(),
            0 <= i <= s_len + 1,
            match_from(gsegs, s@, 0) == match_from(gsegs, s@, i as int),
        decreases s_len + 1 - i,
    {
        if i > s_len || seg0_len > s_len - i {
            return None;
        }
        if crate::text::check_at(s, seg0, i, s_len, seg0_len) {
            match greedy_rest_exec(segs, 1, s, i + seg0_len, s_len) {
                Some(v) => {
                    proof {
                        let rs = greedy_rest(gsegs, 1, s@, i + seg0_len).unwrap();
                        let caps = template_captures(gsegs, s@).unwrap();
                        assert forall|k: int| 0 <= k < v@.len() implies caps[k] == s@.subrange(
                            (#[trigger] v@[k]).0 as int,
                            v@[k].1 as int,
                        ) by {
                            assert(v@[k].0 == rs[k].0 && v@[k].1 == rs[k].1);
                        }
                    }
                    return Some(v);
                },
                None => {},
            }
        }
        if i == s_len {
            proof {
                lemma_match_from_end(gsegs, s@, i + 1);
            }
            return None;
        }
        i += 1;
    }
}

impl Chunks {
    /// Binds the accessor over one analyzed log.
    pub fn new(dad: DynamicAnalyzerDetails) -> (r: Chunks)
        ensures
            r@ == dad,
    {
        Chunks { dad }
    }

    /// Literal substring search over all reconstructed entry texts.
    pub fn has_line(self, to_find: &str) -> (b: bool)
        ensures
            b == any_line_has(self@.chunks.deep_view(), to_find@),
    {
        let n = self.dad.chunks.len();
        let mut i: usize = 0;
        while i < n
            invariant
                n == self@.chunks.deep_view().len(),
                0 <= i <= n,
                forall|k: int| 0 <= k < i ==> !has_sub(
                    #[trigger] self@.chunks.deep_view()[k],
                    to_find@,
                ),
            decreases n - i,
        {
            proof {
                assert(self@.chunks.deep_view()[i as int] == self@.chunks@[i as int]@);
            }
            if str_contains(self.dad.chunks[i].as_str(), to_find) {
                return true;
            }
            i += 1;
        }
        false
    }

    /// Case-insensitive substring search over all entry texts.
    pub fn has_line_permissive(self, to_find: &str) -> (b: bool)
        ensures
            b == (exists|k: int|
                0 <= k < self@.chunks.deep_view().len() && has_sub(
                    lower_of(#[trigger] self@.chunks.deep_view()[k]),
                    lower_of(to_find@),
                )),
    {
        let needle = to_lowercase(to_find);
        let n = self.dad.chunks.len();
        let mut i: usize = 0;
        while i < n
            invariant
                n == self@.chunks.deep_view().len(),
                needle@ == lower_of(to_find@),
                0 <= i <= n,
                forall|k: int| 0 <= k < i ==> !has_sub(
                    lower_of(#[trigger] self@.chunks.deep_view()[k]),
                    lower_of(to_find@),
                ),
            decreases n - i,
        {
            proof {
                assert(self@.chunks.deep_view()[i as int] == self@.chunks@[i as int]@);
            }
            let low = to_lowercase(self.dad.chunks[i].as_str());
            if str_contains(low.as_str(), needle.as_str()) {
                return true;
            }
            i += 1;
        }
        false
    }

    /// Converts every placeholder in the template into a greedy capturing
    /// wildcard and scans all entry texts; yields one record of ordered
    /// captures per matching text, or nothing when no text matched or the
    /// template had no placeholder.
    pub fn has_line2(self, to_find: &str, identifier: String) -> (r: Option<Vec<Captures>>)
        ensures
            ({
                let spec_r = has_line2_spec(self@.chunks.deep_view(), to_find@);
                match r {
                    None => spec_r is None,
                    Some(v) => spec_r is Some && v.deep_view().len() == spec_r.unwrap().len()
                        && forall|k: int|
                        0 <= k < v.deep_view().len() ==> (#[trigger] v.deep_view()[k]).identifier
                            == identifier@ && v.deep_view()[k].captures == spec_r.unwrap()[k],
                }
            }),
    {
        let ghost gchunks = self@.chunks.deep_view();
        let segs = segments_exec(to_find);
        let ghost gsegs = segs.deep_view();
        if segs.len() <= 1 {
            return None;
        }
        let n = self.dad.chunks.len();
        let mut out: Vec<Captures> = Vec::new();
        let mut i: usize = 0;
        while i < n
            invariant
                n == gchunks.len(),
                gchunks == self@.chunks.deep_view(),
                gsegs == segs.deep_view(),
                gsegs.len() >= 2,
                0 <= i <= n,
                out.deep_view().len() == line2_records(gchunks, gsegs, i as int).len(),
                forall|k: int| 0 <= k < out.deep_view().len() ==> (#[trigger] out.deep_view()[k]).identifier
                    == identifier@ && out.deep_view()[k].captures == line2_records(
                    gchunks,
                    gsegs,
                    i as int,
                )[k],
            decreases n - i,
        {
            proof {
                assert(gchunks[i as int] == self@.chunks@[i as int]@);
            }
            let line = self.dad.chunks[i].as_str();
            let line_len = line.unicode_len();
            let ghost out_old = out.deep_view();
            let ghost recs_old = line2_records(gchunks, gsegs, i as int);
            match match_template_exec(&segs, line, line_len) {
                Some(ranges) => {
                    let mut captures: Vec<String> = Vec::new();
                    let mut m: usize = 0;
                    let ghost caps_spec = template_captures(gsegs, line@).unwrap();
                    while m < ranges.len()
                        invariant
                            line_len == line@.len(),
                            caps_spec == template_captures(gsegs, line@).unwrap(),
                            template_captures(gsegs, line@) is Some,
                            ranges@.len() == caps_spec.len(),
                            forall|k: int| 0 <= k < ranges@.len() ==> (#[trigger] ranges@[k]).0
                                <= ranges@[k].1 <= line_len && caps_spec[k] == line@.subrange(
                                ranges@[k].0 as int,
                                ranges@[k].1 as int,
                            ),
                            0 <= m <= ranges@.len(),
                            captures.deep_view() =~= caps_spec.subrange(0, m as int),
                        decreases ranges@.len() - m,
                    {
                        let (a, b) = ranges[m];
                        let piece = String::from_str(line.substring_char(a, b));
                        let ghost caps_old = captures.deep_view();
                        proof {
                            assert(captures.deep_view().len() == caps_spec.subrange(
                                0,
                                m as int,
                            ).len());
                            assert(captures@.len() == m as int);
                        }
                        captures.push(piece);
                        m += 1;
                        proof {
                            assert forall|k: int| 0 <= k < m implies captures.deep_view()[k]
                                == caps_spec[k] by {
                                if k < m - 1 {
                                    assert(captures.deep_view()[k] == caps_old[k]);
                                } else {
                                    assert(captures.deep_view()[k] == piece@);
                                }
                            }
                            assert(captures.deep_view() =~= caps_spec.subrange(0, m as int));
                        }
                    }
                    proof {
                        assert(caps_spec.subrange(0, caps_spec.len() as int) =~= caps_spec);
                    }
                    let record = Captures { identifier: identifier.clone(), captures };
                    proof {
                        assert(out.deep_view().len() == recs_old.len());
                        assert(out@.len() == recs_old.len());
                    }
                    out.push(record);
                    proof {
                        let recs_new = line2_records(gchunks, gsegs, i + 1);
                        assert(recs_new == recs_old + seq![caps_spec]);
                        assert forall|k: int| 0 <= k < out.deep_view().len() implies (#[trigger]
                        out.deep_view()[k]).identifier == identifier@ && out.deep_view()[k].captures
                            == recs_new[k] by {
                            if k < out.deep_view().len() - 1 {
                                assert(out.deep_view()[k] == out_old[k]);
                            }
                        }
                    }
                },
                None => {
                    proof {
                        assert(line2_records(gchunks, gsegs, i + 1) =~= recs_old);
                    }
                },
            }
            i += 1;
        }
        proof {
            assert(line2_records(gchunks, gsegs, n as int) == line2_records(
                gchunks,
                gsegs,
                gchunks.len() as int,
            ));
        }
        if out.len() == 0 {
            proof {
                assert(out.deep_view().len() == 0);
            }
            None
        } else {
            Some(out)
        }
    }
}

} // verus!
