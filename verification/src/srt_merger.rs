//! Subtitle entries: reading them from a subtitle file's lines, merging a
//! recognized segment's entries into a complete list, and writing the
//! result back out.
//!
//! Entries carry their times in integer milliseconds.  A segment recognized
//! on a cut piece of audio has times relative to the piece; shifting them by
//! the piece's start offset and merging into the full list, sorted by start
//! time and renumbered from one, yields the combined subtitle file.  The
//! file I/O around these functions lives in the unverified shell.

use vstd::prelude::*;
use vstd::multiset::Multiset;
use vstd::string::StrSliceExecFns;

use crate::timecode::spec_all_digits;
use crate::timecode::spec_decimal;
use crate::timecode::spec_digits_val;
use crate::timecode::spec_parse_srt_time;
use crate::timecode::spec_srt_time;
use crate::timecode::spec_trim;
use crate::timecode::decimal_string;
use crate::timecode::format_srt_time;
use crate::timecode::parse_decimal;
use crate::timecode::parse_srt_time;
use crate::timecode::trimmed;
use vstd::string::StringExecFns;

verus! {

/// One numbered subtitle: when it appears, when it disappears, and its text
/// lines.  Times are milliseconds from the start of the audio.
#[derive(Clone, PartialEq, Eq, Debug)]
pub struct SubtitleEntry {
    pub index: usize,
    pub start_time: u64,
    pub end_time: u64,
    pub text: Vec<String>,
}

/// What a merge must preserve of an entry: everything but the number, which
/// is reassigned.
pub open spec fn spec_content(e: SubtitleEntry) -> (u64, u64, Seq<Seq<char>>) {
    (e.start_time, e.end_time, e.text.deep_view())
}

pub open spec fn spec_contents(s: Seq<SubtitleEntry>) -> Multiset<(u64, u64, Seq<Seq<char>>)> {
    s.map_values(|e: SubtitleEntry| spec_content(e)).to_multiset()
}

pub open spec fn spec_sorted_by_start(s: Seq<SubtitleEntry>) -> bool {
    forall|i: int, j: int|
        0 <= i < j < s.len() ==> #[trigger] s[i].start_time <= #[trigger] s[j].start_time
}

pub open spec fn spec_numbered_from_one(s: Seq<SubtitleEntry>) -> bool {
    forall|i: int| 0 <= i < s.len() ==> #[trigger] s[i].index == i + 1
}

/// `a + b` in milliseconds, stopping at the largest representable time.
pub open spec fn spec_shifted(a: u64, b: u64) -> u64 {
    if a + b > u64::MAX {
        u64::MAX
    } else {
        (a + b) as u64
    }
}

/// Shift every entry of a segment's subtitles `offset_ms` later, so that
/// times relative to the cut piece become times in the full audio.  Indices
/// and text are untouched.
pub fn adjust_segment_times(segment_subs: Vec<SubtitleEntry>, offset_ms: u64) -> (adjusted: Vec<
    SubtitleEntry,
>)
    ensures
        adjusted@.len() == segment_subs@.len(),
        forall|i: int|
            0 <= i < adjusted@.len() ==> {
                &&& (#[trigger] adjusted@[i]).index == segment_subs@[i].index
                &&& adjusted@[i].start_time == spec_shifted(segment_subs@[i].start_time, offset_ms)
                &&& adjusted@[i].end_time == spec_shifted(segment_subs@[i].end_time, offset_ms)
                &&& adjusted@[i].text == segment_subs@[i].text
            },
{
    let ghost original = segment_subs@;
    let mut adjusted = segment_subs;
    let n = adjusted.len();
    let mut i: usize = 0;
    while i < n
        invariant
            0 <= i <= n,
            n == adjusted@.len() == original.len(),
            forall|j: int|
                i <= j < n ==> #[trigger] adjusted@[j] == original[j],
            forall|j: int|
                0 <= j < i ==> {
                    &&& (#[trigger] adjusted@[j]).index == original[j].index
                    &&& adjusted@[j].start_time == spec_shifted(original[j].start_time, offset_ms)
                    &&& adjusted@[j].end_time == spec_shifted(original[j].end_time, offset_ms)
                    &&& adjusted@[j].text == original[j].text
                },
        decreases n - i,
    {
        let start = adjusted[i].start_time;
        let end = adjusted[i].end_time;
        adjusted[i].start_time = start.saturating_add(offset_ms);
        adjusted[i].end_time = end.saturating_add(offset_ms);
        i = i + 1;
    }
    adjusted
}

fn min_start_index(v: &Vec<SubtitleEntry>) -> (k: usize)
    requires
        v@.len() > 0,
    ensures
        k < v@.len(),
        forall|j: int| 0 <= j < v@.len() ==> v@[k as int].start_time <= #[trigger] v@[j].start_time,
{
    let mut k: usize = 0;
    let mut i: usize = 1;
    let n = v.len();
    while i < n
        invariant
            0 <= k < i <= n,
            n == v@.len(),
            forall|j: int| 0 <= j < i ==> v@[k as int].start_time <= #[trigger] v@[j].start_time,
        decreases n - i,
    {
        if v[i].start_time < v[k].start_time {
            k = i;
        }
        i = i + 1;
    }
    k
}

/// Combine a complete subtitle list with a segment's entries: everything is
/// kept (including its text, times and duplicates), ordered by start time,
/// and renumbered from one in the new order.
pub fn merge_subtitles(complete_subs: Vec<SubtitleEntry>, segment_subs: Vec<SubtitleEntry>) -> (merged: Vec<
    SubtitleEntry,
>)
    ensures
        merged@.len() == complete_subs@.len() + segment_subs@.len(),
        spec_sorted_by_start(merged@),
        spec_numbered_from_one(merged@),
        spec_contents(merged@) == spec_contents(complete_subs@ + segment_subs@),
{
    broadcast use vstd::seq_lib::group_to_multiset_ensures;

    let mut rem = complete_subs;
    let mut tail = segment_subs;
    rem.append(&mut tail);
    let ghost all = rem@;
    let mut merged: Vec<SubtitleEntry> = Vec::new();
    proof {
        assert(all.len() == rem.len());
    }
    while rem.len() > 0
        invariant
            all.len() <= usize::MAX,
            merged@.len() + rem@.len() == all.len(),
            spec_sorted_by_start(merged@),
            spec_numbered_from_one(merged@),
            forall|a: int, b: int|
                0 <= a < merged@.len() && 0 <= b < rem@.len() ==> (#[trigger] merged@[a]).start_time
                    <= (#[trigger] rem@[b]).start_time,
            spec_contents(merged@).add(spec_contents(rem@)) == spec_contents(all),
        decreases rem@.len(),
    {
        let k = min_start_index(&rem);
        let ghost rem_before = rem@;
        let mut e = rem.remove(k);
        proof {
            broadcast use vstd::multiset::group_multiset_axioms;

            let f = |x: SubtitleEntry| spec_content(x);
            let s0 = rem_before.map_values(f);
            assert(s0.len() == rem_before.len());
            assert(rem@.map_values(f) =~= s0.remove(k as int));
            vstd::seq_lib::to_multiset_remove(s0, k as int);
            assert(s0[k as int] == f(rem_before[k as int]));
        }
        let number = merged.len() + 1;
        e.index = number;
        let ghost merged_before = merged@;
        merged.push(e);
        proof {
            broadcast use vstd::multiset::group_multiset_axioms;

            let f = |x: SubtitleEntry| spec_content(x);
            assert(merged@.map_values(f) =~= merged_before.map_values(f).push(f(e)));
            vstd::seq_lib::to_multiset_build(merged_before.map_values(f), f(e));
            let s0 = rem_before.map_values(f);
            assert(f(e) == s0[k as int]);
            assert(s0.contains(s0[k as int]));
            vstd::seq_lib::to_multiset_contains(s0, s0[k as int]);
            assert(spec_contents(merged@).add(spec_contents(rem@)) =~= spec_contents(
                merged_before,
            ).add(spec_contents(rem_before)));
        }
    }
    proof {
        broadcast use vstd::multiset::group_multiset_axioms;

        assert(rem@.map_values(|x: SubtitleEntry| spec_content(x)) =~= Seq::empty());
        Seq::<(u64, u64, Seq<Seq<char>>)>::empty().to_multiset_ensures();
        assert(spec_contents(rem@) =~= Multiset::empty());
        assert(spec_contents(merged@).add(spec_contents(rem@)) =~= spec_contents(merged@));
    }
    merged
}

/// Shift a recognized segment's entries by the segment's start offset and
/// merge them into the complete list: one call doing both halves of the
/// insertion, on already parsed entries.
pub fn insert_segment_subtitle(
    complete_subs: Vec<SubtitleEntry>,
    segment_subs: Vec<SubtitleEntry>,
    segment_start_ms: u64,
) -> (merged: Vec<SubtitleEntry>)
    ensures
        merged@.len() == complete_subs@.len() + segment_subs@.len(),
        spec_sorted_by_start(merged@),
        spec_numbered_from_one(merged@),
        ({
            let shifted = segment_subs@.map_values(
                |e: SubtitleEntry|
                    (
                        spec_shifted(e.start_time, segment_start_ms),
                        spec_shifted(e.end_time, segment_start_ms),
                        e.text.deep_view(),
                    ),
            );
            spec_contents(merged@) == spec_contents(complete_subs@).add(shifted.to_multiset())
        }),
{
    let ghost seg_before = segment_subs@;
    let adjusted = adjust_segment_times(segment_subs, segment_start_ms);
    let merged = merge_subtitles(complete_subs, adjusted);
    proof {
        let f = |x: SubtitleEntry| spec_content(x);
        let g = |e: SubtitleEntry|
            (
                spec_shifted(e.start_time, segment_start_ms),
                spec_shifted(e.end_time, segment_start_ms),
                e.text.deep_view(),
            );
        assert(adjusted@.map_values(f) =~= seg_before.map_values(g));
        broadcast use vstd::seq_lib::group_to_multiset_ensures;

        lemma_contents_of_concat(complete_subs@, adjusted@);
    }
    merged
}

proof fn lemma_contents_of_concat(a: Seq<SubtitleEntry>, b: Seq<SubtitleEntry>)
    ensures
        spec_contents(a + b) == spec_contents(a).add(spec_contents(b)),
{
    let f = |x: SubtitleEntry| spec_content(x);
    assert((a + b).map_values(f) =~= a.map_values(f) + b.map_values(f));
    vstd::seq_lib::lemma_multiset_commutative(a.map_values(f), b.map_values(f));
}

// ---------------------------------------------------------------------
// Reading a subtitle file
// ---------------------------------------------------------------------
/// Index of the first `-->` in `s`, or -1.
pub open spec fn spec_find_arrow(s: Seq<char>) -> int
    decreases s.len(),
{
    if s.len() < 3 {
        -1
    } else if s[0] == '-' && s[1] == '-' && s[2] == '>' {
        0
    } else {
        let r = spec_find_arrow(s.drop_first());
        if r < 0 {
            -1
        } else {
            r + 1
        }
    }
}

proof fn lemma_find_arrow_props(s: Seq<char>)
    ensures
        spec_find_arrow(s) < 0 ==> forall|j: int|
            0 <= j <= s.len() - 3 ==> !(#[trigger] s[j] == '-' && s[j + 1] == '-' && s[j + 2]
                == '>'),
        spec_find_arrow(s) >= 0 ==> {
            let a = spec_find_arrow(s);
            &&& a + 3 <= s.len()
            &&& s[a] == '-' && s[a + 1] == '-' && s[a + 2] == '>'
            &&& forall|j: int|
                0 <= j < a ==> !(#[trigger] s[j] == '-' && s[j + 1] == '-' && s[j + 2] == '>')
        },
    decreases s.len(),
{
    if s.len() >= 3 && !(s[0] == '-' && s[1] == '-' && s[2] == '>') {
        let t = s.drop_first();
        lemma_find_arrow_props(t);
        assert(forall|j: int| 0 <= j < t.len() ==> #[trigger] t[j] == s[j + 1]);
        if spec_find_arrow(t) < 0 {
            assert forall|j: int|
                0 <= j <= s.len() - 3 implies !(#[trigger] s[j] == '-' && s[j + 1] == '-' && s[j
                + 2] == '>') by {
                if j > 0 {
                    assert(!(t[j - 1] == '-' && t[j] == '-' && t[j + 1] == '>'));
                }
            }
        } else {
            let a = spec_find_arrow(t);
            assert(s[a + 1] == t[a] && s[a + 2] == t[a + 1] && s[a + 3] == t[a + 2]);
            assert forall|j: int|
                0 <= j < a + 1 implies !(#[trigger] s[j] == '-' && s[j + 1] == '-' && s[j + 2]
                == '>') by {
                if j > 0 {
                    assert(!(t[j - 1] == '-' && t[j] == '-' && t[j + 1] == '>'));
                }
            }
        }
    }
}

/// First index where `-->` begins in `s`, scanning left to right.
pub fn find_arrow(s: &str) -> (r: Option<usize>)
    ensures
        r matches Some(i) ==> spec_find_arrow(s@) == i as int,
        r is None ==> spec_find_arrow(s@) < 0,
{
    let n = s.unicode_len();
    if n < 3 {
        proof {
            lemma_find_arrow_props(s@);
        }
        return None;
    }
    let mut i: usize = 0;
    while i <= n - 3
        invariant
            0 <= i <= n - 2,
            3 <= n == s@.len(),
            forall|j: int|
                0 <= j < i ==> !(#[trigger] s@[j] == '-' && s@[j + 1] == '-' && s@[j + 2] == '>'),
        decreases n - i,
    {
        if s.get_char(i) == '-' && s.get_char(i + 1) == '-' && s.get_char(i + 2) == '>' {
            proof {
                lemma_find_arrow_props(s@);
                let a = spec_find_arrow(s@);
                if a < 0 {
                    assert(!(s@[i as int] == '-' && s@[i + 1] == '-' && s@[i + 2] == '>'));
                }
                if a < i {
                    assert(!(s@[a] == '-' && s@[a + 1] == '-' && s@[a + 2] == '>'));
                }
                if a > i {
                    assert(!(s@[i as int] == '-' && s@[i + 1] == '-' && s@[i + 2] == '>'));
                }
            }
            return Some(i);
        }
        i = i + 1;
    }
    proof {
        lemma_find_arrow_props(s@);
        let a = spec_find_arrow(s@);
        if a >= 0 {
            assert(!(s@[a] == '-' && s@[a + 1] == '-' && s@[a + 2] == '>'));
        }
    }
    None
}

/// The fields of one parsed entry, as mathematical values.
pub struct SubtitleEntryView {
    pub index: int,
    pub start_time: u64,
    pub end_time: u64,
    pub text: Seq<Seq<char>>,
}

pub open spec fn spec_entry_view(e: SubtitleEntry) -> SubtitleEntryView {
    SubtitleEntryView {
        index: e.index as int,
        start_time: e.start_time,
        end_time: e.end_time,
        text: e.text.deep_view(),
    }
}

pub open spec fn spec_entry_views(s: Seq<SubtitleEntry>) -> Seq<SubtitleEntryView> {
    s.map_values(|e: SubtitleEntry| spec_entry_view(e))
}

/// The entry being assembled while its lines are still arriving.
pub struct DraftView {
    pub index: int,
    pub times: Option<(u64, u64)>,
    pub text: Seq<Seq<char>>,
}

/// The parser's state between lines: the entry under assembly, if any, and
/// the entries already completed.
pub struct SrtParseState {
    pub draft: Option<DraftView>,
    pub done: Seq<SubtitleEntryView>,
}

/// Completed entries after end of input: a draft with its times and at
/// least one text line becomes the last entry; anything less is dropped.
pub open spec fn spec_flush(st: SrtParseState) -> Seq<SubtitleEntryView> {
    match st.draft {
        Some(d) => match d.times {
            Some(t) => if d.text.len() > 0 {
                st.done.push(
                    SubtitleEntryView {
                        index: d.index,
                        start_time: t.0,
                        end_time: t.1,
                        text: d.text,
                    },
                )
            } else {
                st.done
            },
            None => st.done,
        },
        None => st.done,
    }
}

/// One line of a subtitle file, applied to the parser's state.
///
/// A blank line completes the draft (kept only when it has both times and
/// some text).  A line that is one plain number within `usize` starts a new
/// draft with that number, discarding an unfinished one.  A line holding
/// exactly one `-->` sets the draft's two times, provided both sides read
/// as time stamps; a malformed time line is ignored.  Any other line is
/// text of the draft, once its times are known.  Lines are trimmed first.
pub open spec fn spec_line_step(st: SrtParseState, raw_line: Seq<char>) -> SrtParseState {
    let line = spec_trim(raw_line);
    if line.len() == 0 {
        SrtParseState { draft: None, done: spec_flush(st) }
    } else if spec_all_digits(line) && spec_digits_val(line) <= usize::MAX {
        SrtParseState {
            draft: Some(
                DraftView { index: spec_digits_val(line), times: None, text: Seq::empty() },
            ),
            done: st.done,
        }
    } else if spec_find_arrow(line) >= 0 {
        match st.draft {
            Some(d) => {
                let a = spec_find_arrow(line);
                let before = line.take(a);
                let after = line.skip(a + 3);
                if spec_find_arrow(after) >= 0 {
                    st
                } else {
                    match (spec_parse_srt_time(before), spec_parse_srt_time(after)) {
                        (Ok(b), Ok(e)) => SrtParseState {
                            draft: Some(DraftView { index: d.index, times: Some((b, e)), text: d.text }),
                            done: st.done,
                        },
                        _ => st,
                    }
                }
            },
            None => st,
        }
    } else {
        match st.draft {
            Some(d) => if d.times is Some {
                SrtParseState {
                    draft: Some(
                        DraftView { index: d.index, times: d.times, text: d.text.push(line) },
                    ),
                    done: st.done,
                }
            } else {
                st
            },
            None => st,
        }
    }
}

pub open spec fn spec_run_lines(lines: Seq<Seq<char>>) -> SrtParseState
    decreases lines.len(),
{
    if lines.len() == 0 {
        SrtParseState { draft: None, done: Seq::empty() }
    } else {
        spec_line_step(spec_run_lines(lines.drop_last()), lines.last())
    }
}

/// What a subtitle file's lines mean: the completed entries, in file order.
pub open spec fn spec_parse_srt(lines: Seq<Seq<char>>) -> Seq<SubtitleEntryView> {
    spec_flush(spec_run_lines(lines))
}

// ---------------------------------------------------------------------
// Writing a subtitle file
// ---------------------------------------------------------------------
/// Text lines, each ended by a newline.
pub open spec fn spec_render_text(lines: Seq<Seq<char>>) -> Seq<char>
    decreases lines.len(),
{
    if lines.len() == 0 {
        Seq::empty()
    } else {
        spec_render_text(lines.drop_last()) + lines.last() + seq!['\n']
    }
}

/// One entry as it stands in a subtitle file: the number, the time line,
/// the text lines.
pub open spec fn spec_render_entry(e: SubtitleEntry) -> Seq<char> {
    spec_decimal(e.index as nat) + seq!['\n'] + spec_srt_time(e.start_time) + seq![
        ' ',
        '-',
        '-',
        '>',
        ' ',
    ] + spec_srt_time(e.end_time) + seq!['\n'] + spec_render_text(e.text.deep_view())
}

/// A whole subtitle file: the entries in order, a blank line between
/// consecutive entries and none after the last.
pub open spec fn spec_render_srt(entries: Seq<SubtitleEntry>) -> Seq<char>
    decreases entries.len(),
{
    if entries.len() == 0 {
        Seq::empty()
    } else if entries.len() == 1 {
        spec_render_entry(entries.last())
    } else {
        spec_render_srt(entries.drop_last()) + seq!['\n'] + spec_render_entry(entries.last())
    }
}

/// Render entries as the text of a subtitle file, ready to be written out.
pub fn render_srt(entries: &Vec<SubtitleEntry>) -> (text: String)
    ensures
        text@ == spec_render_srt(entries@),
{
    proof {
        reveal_strlit("\n");
        reveal_strlit(" --> ");
    }
    let n = entries.len();
    let mut text = String::new();
    let mut i: usize = 0;
    while i < n
        invariant
            0 <= i <= n,
            n == entries@.len(),
            text@ == spec_render_srt(entries@.take(i as int)),
        decreases n - i,
    {
        proof {
            assert(entries@.take(i + 1).drop_last() =~= entries@.take(i as int));
            assert(entries@.take(i + 1).last() == entries@[i as int]);
        }
        let ghost text_at_entry_start = text@;
        if i > 0 {
            text.append("\n");
        }
        let ghost base = text@;
        let e = &entries[i];
        let number = decimal_string(e.index as u64);
        text.append(number.as_str());
        text.append("\n");
        let start_stamp = format_srt_time(e.start_time);
        text.append(start_stamp.as_str());
        text.append(" --> ");
        let end_stamp = format_srt_time(e.end_time);
        text.append(end_stamp.as_str());
        text.append("\n");
        proof {
            reveal_strlit("\n");
            reveal_strlit(" --> ");
            assert("\n"@ =~= seq!['\n']);
            assert(" --> "@ =~= seq![' ', '-', '-', '>', ' ']);
        }
        let ghost header = text@;
        let m = e.text.len();
        let mut j: usize = 0;
        while j < m
            invariant
                0 <= j <= m,
                m == e.text@.len(),
                text@ == header + spec_render_text(e.text.deep_view().take(j as int)),
            decreases m - j,
        {
            proof {
                assert(e.text.deep_view().take(j + 1).drop_last() =~= e.text.deep_view().take(
                    j as int,
                ));
                assert(e.text.deep_view().take(j + 1).last() == e.text@[j as int]@);
            }
            let line = &e.text[j];
            text.append(line.as_str());
            text.append("\n");
            proof {
                reveal_strlit("\n");
                assert("\n"@ =~= seq!['\n']);
                assert(text@ =~= header + spec_render_text(e.text.deep_view().take(j + 1)));
            }
            j = j + 1;
        }
        proof {
            assert(e.text.deep_view().take(m as int) =~= e.text.deep_view());
            assert(base == text_at_entry_start + (if i > 0 {
                seq!['\n']
            } else {
                Seq::<char>::empty()
            }));
            assert(header =~= base + spec_decimal(e.index as u64 as nat) + seq!['\n']
                + spec_srt_time(e.start_time) + seq![' ', '-', '-', '>', ' '] + spec_srt_time(
                e.end_time,
            ) + seq!['\n']);
            assert(e.index as u64 as nat == e.index as nat);
            assert(text@ =~= base + spec_render_entry(*e));
            assert(text@ =~= spec_render_srt(entries@.take(i + 1)));
        }
        i = i + 1;
    }
    proof {
        assert(entries@.take(n as int) =~= entries@);
    }
    text
}

struct Draft {
    index: usize,
    times: Option<(u64, u64)>,
    text: Vec<String>,
}

spec fn spec_draft_view(d: Draft) -> DraftView {
    DraftView { index: d.index as int, times: d.times, text: d.text.deep_view() }
}

spec fn spec_opt_draft(d: Option<Draft>) -> Option<DraftView> {
    match d {
        Some(d) => Some(spec_draft_view(d)),
        None => None,
    }
}

fn flush_draft(done: &mut Vec<SubtitleEntry>, draft: Option<Draft>)
    ensures
        spec_entry_views(final(done)@) == spec_flush(
            SrtParseState { draft: spec_opt_draft(draft), done: spec_entry_views(old(done)@) },
        ),
{
    let ghost before = done@;
    match draft {
        Some(d) => match d.times {
            Some(times) => {
                if d.text.len() > 0 {
                    let entry = SubtitleEntry {
                        index: d.index,
                        start_time: times.0,
                        end_time: times.1,
                        text: d.text,
                    };
                    done.push(entry);
                    proof {
                        assert(spec_entry_views(done@) =~= spec_entry_views(before).push(
                            spec_entry_view(entry),
                        ));
                    }
                }
            },
            None => {},
        },
        None => {},
    }
}

/// Parse the lines of a subtitle file into its entries, as
/// [`spec_parse_srt`] describes: a number line opens an entry, a `-->` line
/// gives its times, further lines are its text, and a blank line closes it.
/// Malformed pieces are skipped, never an error.
pub fn parse_srt_lines(lines: &Vec<String>) -> (entries: Vec<SubtitleEntry>)
    ensures
        spec_entry_views(entries@) == spec_parse_srt(lines.deep_view()),
{
    let n = lines.len();
    let mut done: Vec<SubtitleEntry> = Vec::new();
    let mut draft: Option<Draft> = None;
    let mut i: usize = 0;
    while i < n
        invariant
            0 <= i <= n,
            n == lines@.len(),
            spec_opt_draft(draft) == spec_run_lines(lines.deep_view().take(i as int)).draft,
            spec_entry_views(done@) == spec_run_lines(lines.deep_view().take(i as int)).done,
        decreases n - i,
    {
        let ghost lv = lines.deep_view();
        let ghost st0 = spec_run_lines(lv.take(i as int));
        let ghost st1 = spec_line_step(st0, lv[i as int]);
        proof {
            assert(lv.take(i + 1).drop_last() =~= lv.take(i as int));
            assert(lv.take(i + 1).last() == lv[i as int]);
            assert(spec_run_lines(lv.take(i + 1)) == st1);
            assert(lv[i as int] == lines@[i as int]@);
        }
        let line = &lines[i];
        let t = trimmed(line.as_str());
        let ghost tl = spec_trim(lv[i as int]);
        if t.unicode_len() == 0 {
            flush_draft(&mut done, draft.take());
        } else {
            let parsed = parse_decimal(t);
            let is_index = match parsed {
                Some(v) => v <= usize::MAX as u64,
                None => false,
            };
            if is_index {
                let v = parsed.unwrap();
                let empty_text: Vec<String> = Vec::new();
                proof {
                    assert(empty_text.deep_view() =~= Seq::<Seq<char>>::empty());
                }
                draft = Some(Draft { index: v as usize, times: None, text: empty_text });
            } else {
                let arrow = find_arrow(t);
                match arrow {
                    Some(a) => {
                        proof {
                            lemma_find_arrow_props(tl);
                        }
                        if draft.is_some() {
                            let tn = t.unicode_len();
                            let before_part = t.substring_char(0, a);
                            let after_part = t.substring_char(a + 3, tn);
                            proof {
                                assert(before_part@ =~= tl.take(a as int));
                                assert(after_part@ =~= tl.skip(a + 3));
                            }
                            if find_arrow(after_part).is_none() {
                                let start_parsed = parse_srt_time(before_part);
                                let end_parsed = parse_srt_time(after_part);
                                match (start_parsed, end_parsed) {
                                    (Ok(b), Ok(e)) => {
                                        if let Some(d) = &mut draft {
                                            d.times = Some((b, e));
                                        }
                                    },
                                    _ => {},
                                }
                            }
                        }
                    },
                    None => {
                        if let Some(d) = &mut draft {
                            if d.times.is_some() {
                                let ghost text_before = d.text.deep_view();
                                d.text.push(t.to_owned());
                                proof {
                                    assert(d.text.deep_view() =~= text_before.push(tl));
                                }
                            }
                        }
                    },
                }
            }
        }
        proof {
            assert(spec_opt_draft(draft) == st1.draft);
            assert(spec_entry_views(done@) == st1.done);
        }
        i = i + 1;
    }
    proof {
        assert(lines.deep_view().take(n as int) =~= lines.deep_view());
    }
    flush_draft(&mut done, draft);
    done
}

} // verus!
