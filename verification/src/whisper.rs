//! What surrounds the external speech recognizer: the options a caller
//! picks (which model to run, which language to ask for) with the exact
//! strings handed to the tool, the extraction of plain text from the
//! subtitles it writes, and the reading of process ids from a process
//! listing when running recognitions are to be killed.  The recognizer
//! itself is an external collaborator driven by the unverified shell.

use vstd::prelude::*;
use vstd::string::StrSliceExecFns;
use vstd::string::StringExecFns;

use crate::srt_merger::spec_find_arrow;
use crate::srt_merger::find_arrow;
use crate::timecode::spec_all_digits;
use crate::timecode::spec_digits_val;
use crate::timecode::spec_trim;
use crate::timecode::spec_ws;
use crate::timecode::is_ws_char;
use crate::timecode::parse_decimal;
use crate::timecode::trimmed;

verus! {

/// The first index at or after `from` whose character is whitespace
/// (`want_ws`) or not (`!want_ws`); the length when there is none.
pub open spec fn spec_scan(s: Seq<char>, from: int, want_ws: bool) -> int
    recommends
        0 <= from,
    decreases s.len() - from,
{
    if from >= s.len() {
        s.len() as int
    } else if spec_ws(s[from]) == want_ws {
        from
    } else {
        spec_scan(s, from + 1, want_ws)
    }
}

fn scan(s: &str, from: usize, want_ws: bool) -> (r: usize)
    requires
        from <= s@.len(),
    ensures
        r == spec_scan(s@, from as int, want_ws),
        from <= r <= s@.len(),
{
    let n = s.unicode_len();
    let mut i = from;
    while i < n
        invariant
            from <= i <= n,
            n == s@.len(),
            spec_scan(s@, from as int, want_ws) == spec_scan(s@, i as int, want_ws),
        decreases n - i,
    {
        if is_ws_char(s.get_char(i)) == want_ws {
            return i;
        }
        i = i + 1;
    }
    n
}

/// The second whitespace-separated token of `s` (empty when there is none):
/// in a process listing's output, the process id column.
pub open spec fn spec_second_token(s: Seq<char>) -> Seq<char> {
    let a1 = spec_scan(s, 0, false);
    let b1 = spec_scan(s, a1, true);
    let a2 = spec_scan(s, b1, false);
    let b2 = spec_scan(s, a2, true);
    s.subrange(a2, b2)
}

/// Read the process id out of one line of a process listing: its second
/// column, when that is a number a `u32` can hold.
pub fn extract_pid_from_ps_line(line: &str) -> (pid: Option<u32>)
    ensures
        ({
            let tok = spec_second_token(line@);
            match pid {
                Some(p) => tok.len() > 0 && spec_all_digits(tok) && spec_digits_val(tok)
                    == p as int,
                None => tok.len() == 0 || !spec_all_digits(tok) || spec_digits_val(tok)
                    > u32::MAX,
            }
        }),
{
    let a1 = scan(line, 0, false);
    let b1 = scan(line, a1, true);
    let a2 = scan(line, b1, false);
    let b2 = scan(line, a2, true);
    let token = line.substring_char(a2, b2);
    proof {
        assert(token@ =~= spec_second_token(line@));
    }
    match parse_decimal(token) {
        Some(v) => if v <= u32::MAX as u64 {
            Some(v as u32)
        } else {
            None
        },
        None => None,
    }
}

/// A subtitle line that carries no spoken text: blank, a bare entry number,
/// or a `-->` time line.
pub open spec fn spec_skipped_line(line: Seq<char>) -> bool {
    let t = spec_trim(line);
    ||| t.len() == 0
    ||| (spec_all_digits(t) && spec_digits_val(t) <= u32::MAX)
    ||| spec_find_arrow(t) >= 0
}

/// The spoken text of a subtitle file: every line that is not blank, not an
/// entry number and not a time line, trimmed, joined with single spaces.
pub open spec fn spec_extracted_text(lines: Seq<Seq<char>>) -> Seq<char>
    decreases lines.len(),
{
    if lines.len() == 0 {
        Seq::empty()
    } else {
        let prev = spec_extracted_text(lines.drop_last());
        if spec_skipped_line(lines.last()) {
            prev
        } else {
            let t = spec_trim(lines.last());
            if prev.len() == 0 {
                t
            } else {
                prev + seq![' '] + t
            }
        }
    }
}

/// Pull the plain text out of a subtitle file's lines, dropping entry
/// numbers, time lines and blank lines.
pub fn extract_text_from_srt(lines: &Vec<String>) -> (text: String)
    ensures
        text@ == spec_extracted_text(lines.deep_view()),
{
    let n = lines.len();
    let mut out = String::new();
    let mut i: usize = 0;
    while i < n
        invariant
            0 <= i <= n,
            n == lines@.len(),
            out@ == spec_extracted_text(lines.deep_view().take(i as int)),
        decreases n - i,
    {
        let ghost lv = lines.deep_view();
        proof {
            assert(lv.take(i + 1).drop_last() =~= lv.take(i as int));
            assert(lv.take(i + 1).last() == lv[i as int]);
            assert(lv[i as int] == lines@[i as int]@);
        }
        let line = &lines[i];
        let t = trimmed(line.as_str());
        let is_blank = t.unicode_len() == 0;
        let is_number = match parse_decimal(t) {
            Some(v) => v <= u32::MAX as u64,
            None => false,
        };
        let is_time_line = find_arrow(t).is_some();
        if !is_blank && !is_number && !is_time_line {
            let ghost prev = out@;
            if out.unicode_len() > 0 {
                out.append(" ");
                out.append(t);
                proof {
                    reveal_strlit(" ");
                    assert(" "@ =~= seq![' ']);
                    assert(out@ =~= prev + seq![' '] + t@);
                }
            } else {
                out.append(t);
            }
        }
        i = i + 1;
    }
    proof {
        assert(lines.deep_view().take(n as int) =~= lines.deep_view());
    }
    out
}

#[derive(Clone, Copy, PartialEq, Eq, Structural, Debug)]
pub enum WhisperModel {
    Tiny,
    Base,
    Small,
    Medium,
    Large,
    Turbo,
}

impl core::default::Default for WhisperModel {
    fn default() -> (m: WhisperModel)
        ensures
            m == WhisperModel::Base,
    {
        WhisperModel::Base
    }
}

impl WhisperModel {
    /// The name under which the external recognizer knows this model.
    pub open spec fn spec_str(self) -> Seq<char> {
        match self {
            WhisperModel::Tiny => "tiny"@,
            WhisperModel::Base => "base"@,
            WhisperModel::Small => "small"@,
            WhisperModel::Medium => "medium"@,
            WhisperModel::Large => "large"@,
            WhisperModel::Turbo => "turbo"@,
        }
    }

    pub fn as_str(&self) -> (s: &'static str)
        ensures
            s@ == self.spec_str(),
    {
        match self {
            WhisperModel::Tiny => "tiny",
            WhisperModel::Base => "base",
            WhisperModel::Small => "small",
            WhisperModel::Medium => "medium",
            WhisperModel::Large => "large",
            WhisperModel::Turbo => "turbo",
        }
    }

    /// Every model, in the order offered to the user.
    pub fn all() -> (models: Vec<WhisperModel>)
        ensures
            models@ =~= seq![
                WhisperModel::Tiny,
                WhisperModel::Base,
                WhisperModel::Small,
                WhisperModel::Medium,
                WhisperModel::Large,
                WhisperModel::Turbo,
            ],
    {
        let mut models: Vec<WhisperModel> = Vec::new();
        models.push(WhisperModel::Tiny);
        models.push(WhisperModel::Base);
        models.push(WhisperModel::Small);
        models.push(WhisperModel::Medium);
        models.push(WhisperModel::Large);
        models.push(WhisperModel::Turbo);
        models
    }
}

#[derive(Clone, Copy, PartialEq, Eq, Structural, Debug)]
pub enum WhisperLanguage {
    /// Let the recognizer detect the language itself.
    Unknown,
    Japanese,
    English,
    Chinese,
    French,
    German,
    Spanish,
    Italian,
    Russian,
    /// A language code typed in by the user; the shell supplies the text.
    Custom,
}

impl core::default::Default for WhisperLanguage {
    fn default() -> (l: WhisperLanguage)
        ensures
            l == WhisperLanguage::Unknown,
    {
        WhisperLanguage::Unknown
    }
}

impl WhisperLanguage {
    /// The label shown to the user for this choice.
    pub open spec fn spec_str(self) -> Seq<char> {
        match self {
            WhisperLanguage::Unknown => "Auto Detect"@,
            WhisperLanguage::Japanese => "Japanese"@,
            WhisperLanguage::English => "English"@,
            WhisperLanguage::Chinese => "Chinese"@,
            WhisperLanguage::French => "French"@,
            WhisperLanguage::German => "German"@,
            WhisperLanguage::Spanish => "Spanish"@,
            WhisperLanguage::Italian => "Italian"@,
            WhisperLanguage::Russian => "Russian"@,
            WhisperLanguage::Custom => "Custom (Manual Input)"@,
        }
    }

    pub fn as_str(&self) -> (s: &'static str)
        ensures
            s@ == self.spec_str(),
    {
        match self {
            WhisperLanguage::Unknown => "Auto Detect",
            WhisperLanguage::Japanese => "Japanese",
            WhisperLanguage::English => "English",
            WhisperLanguage::Chinese => "Chinese",
            WhisperLanguage::French => "French",
            WhisperLanguage::German => "German",
            WhisperLanguage::Spanish => "Spanish",
            WhisperLanguage::Italian => "Italian",
            WhisperLanguage::Russian => "Russian",
            WhisperLanguage::Custom => "Custom (Manual Input)",
        }
    }

    /// Every language choice, in the order offered to the user.
    pub fn all() -> (languages: Vec<WhisperLanguage>)
        ensures
            languages@ =~= seq![
                WhisperLanguage::Unknown,
                WhisperLanguage::English,
                WhisperLanguage::Chinese,
                WhisperLanguage::Japanese,
                WhisperLanguage::French,
                WhisperLanguage::German,
                WhisperLanguage::Spanish,
                WhisperLanguage::Italian,
                WhisperLanguage::Russian,
                WhisperLanguage::Custom,
            ],
    {
        let mut languages: Vec<WhisperLanguage> = Vec::new();
        languages.push(WhisperLanguage::Unknown);
        languages.push(WhisperLanguage::English);
        languages.push(WhisperLanguage::Chinese);
        languages.push(WhisperLanguage::Japanese);
        languages.push(WhisperLanguage::French);
        languages.push(WhisperLanguage::German);
        languages.push(WhisperLanguage::Spanish);
        languages.push(WhisperLanguage::Italian);
        languages.push(WhisperLanguage::Russian);
        languages.push(WhisperLanguage::Custom);
        languages
    }

    /// The language code passed to the recognizer, when the choice fixes
    /// one.  Auto-detection passes none, and a custom choice's code is
    /// typed in by the user, so the shell supplies it.
    pub open spec fn spec_code(self) -> Option<Seq<char>> {
        match self {
            WhisperLanguage::Unknown => None,
            WhisperLanguage::Japanese => Some("ja"@),
            WhisperLanguage::English => Some("en"@),
            WhisperLanguage::Chinese => Some("zh"@),
            WhisperLanguage::French => Some("fr"@),
            WhisperLanguage::German => Some("de"@),
            WhisperLanguage::Spanish => Some("es"@),
            WhisperLanguage::Italian => Some("it"@),
            WhisperLanguage::Russian => Some("ru"@),
            WhisperLanguage::Custom => None,
        }
    }

    pub fn code(&self) -> (c: Option<&'static str>)
        ensures
            match c {
                Some(s) => self.spec_code() == Some(s@),
                None => self.spec_code() is None,
            },
    {
        match self {
            WhisperLanguage::Unknown => None,
            WhisperLanguage::Japanese => Some("ja"),
            WhisperLanguage::English => Some("en"),
            WhisperLanguage::Chinese => Some("zh"),
            WhisperLanguage::French => Some("fr"),
            WhisperLanguage::German => Some("de"),
            WhisperLanguage::Spanish => Some("es"),
            WhisperLanguage::Italian => Some("it"),
            WhisperLanguage::Russian => Some("ru"),
            WhisperLanguage::Custom => None,
        }
    }
}

} // verus!
