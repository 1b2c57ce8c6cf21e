//! Reading and writing times as text.
//!
//! Subtitle files carry times as `HH:MM:SS,mmm`; the player's display shows
//! `HH:MM:SS.mmm`; the manual-cut fields arrive as four separate decimal
//! strings.  All of them convert to and from the integer milliseconds the
//! rest of the library computes with, and the writers and readers are
//! proved to agree: see [`lemma_decimal_round_trip`] and
//! [`lemma_srt_time_round_trip`].

use vstd::prelude::*;
use vstd::string::StrSliceExecFns;
use vstd::string::StringExecFns;

verus! {

pub const MS_PER_SECOND: u64 = 1000;

pub const MS_PER_MINUTE: u64 = 60000;

pub const MS_PER_HOUR: u64 = 3600000;

// ---------------------------------------------------------------------
// Decimal digits: spec level
// ---------------------------------------------------------------------
pub open spec fn spec_is_digit(c: char) -> bool {
    48 <= c as u32 <= 57
}

pub open spec fn spec_digit_val(c: char) -> int {
    c as u32 - 48
}

pub open spec fn spec_all_digits(s: Seq<char>) -> bool {
    forall|i: int| 0 <= i < s.len() ==> spec_is_digit(#[trigger] s[i])
}

/// The number a string of decimal digits denotes (most significant first).
pub open spec fn spec_digits_val(s: Seq<char>) -> int
    decreases s.len(),
{
    if s.len() == 0 {
        0
    } else {
        spec_digits_val(s.drop_last()) * 10 + spec_digit_val(s.last())
    }
}

pub open spec fn spec_digit_char(d: int) -> char {
    ((48 + d) as u8) as char
}

/// The canonical decimal spelling of `n`: no leading zero except for `n`
/// itself being a single digit.
pub open spec fn spec_decimal(n: nat) -> Seq<char>
    decreases n,
{
    if n < 10 {
        seq![spec_digit_char(n as int)]
    } else {
        spec_decimal(n / 10).push(spec_digit_char((n % 10) as int))
    }
}

/// `n` spelled with at least two digits, as a clock's minute field.
pub open spec fn spec_padded2(n: nat) -> Seq<char> {
    if n < 10 {
        seq![spec_digit_char(0)] + spec_decimal(n)
    } else {
        spec_decimal(n)
    }
}

/// `n` spelled with at least three digits, as a millisecond field.
pub open spec fn spec_padded3(n: nat) -> Seq<char> {
    if n < 10 {
        seq![spec_digit_char(0), spec_digit_char(0)] + spec_decimal(n)
    } else if n < 100 {
        seq![spec_digit_char(0)] + spec_decimal(n)
    } else {
        spec_decimal(n)
    }
}

/// What the decimal writer produces, the digit reader takes back to the
/// same number: `spec_decimal(n)` is a non-empty digit string denoting `n`.
pub proof fn lemma_decimal_round_trip(n: nat)
    ensures
        spec_decimal(n).len() >= 1,
        spec_all_digits(spec_decimal(n)),
        spec_digits_val(spec_decimal(n)) == n,
    decreases n,
{
    let s = spec_decimal(n);
    if n < 10 {
        assert(s.drop_last() =~= Seq::<char>::empty());
        assert(spec_digit_val(s.last()) == n);
        assert(spec_digits_val(s) == spec_digits_val(s.drop_last()) * 10 + spec_digit_val(s.last()));
        assert(spec_digits_val(s) == n);
        assert(spec_all_digits(s));
    } else {
        lemma_decimal_round_trip(n / 10);
        let prefix = spec_decimal(n / 10);
        assert(s.drop_last() =~= prefix);
        assert(s.last() == spec_digit_char((n % 10) as int));
        assert(spec_digit_val(s.last()) == n % 10);
        assert(spec_all_digits(s)) by {
            assert(forall|i: int| 0 <= i < prefix.len() ==> #[trigger] s[i] == prefix[i]);
        }
        assert(spec_digits_val(s) == (n / 10) * 10 + n % 10);
        assert((n / 10) * 10 + n % 10 == n) by {
            vstd::arithmetic::div_mod::lemma_fundamental_div_mod(n as int, 10);
        }
    }
}

proof fn lemma_digits_val_nonneg(s: Seq<char>)
    requires
        spec_all_digits(s),
    ensures
        spec_digits_val(s) >= 0,
    decreases s.len(),
{
    if s.len() > 0 {
        assert(spec_all_digits(s.drop_last())) by {
            assert(forall|i: int|
                0 <= i < s.len() - 1 ==> spec_is_digit(#[trigger] s.drop_last()[i]) == spec_is_digit(
                    s[i],
                ));
        }
        lemma_digits_val_nonneg(s.drop_last());
    }
}

/// Extending a digit string to the right never shrinks its value.
proof fn lemma_digits_val_prefix_le(s: Seq<char>, i: int)
    requires
        spec_all_digits(s),
        0 <= i <= s.len(),
    ensures
        spec_digits_val(s.take(i)) <= spec_digits_val(s),
    decreases s.len() - i,
{
    if i < s.len() {
        let t = s.take(i + 1);
        assert(t.drop_last() =~= s.take(i));
        assert(spec_all_digits(t)) by {
            assert(forall|j: int| 0 <= j < i + 1 ==> #[trigger] t[j] == s[j]);
        }
        assert(spec_digits_val(s.take(i)) >= 0) by {
            assert(spec_all_digits(s.take(i))) by {
                assert(forall|j: int| 0 <= j < i ==> #[trigger] s.take(i)[j] == s[j]);
            }
            lemma_digits_val_nonneg(s.take(i));
        }
        assert(spec_digits_val(t) == spec_digits_val(s.take(i)) * 10 + spec_digit_val(s[i]));
        assert(spec_digits_val(s.take(i)) <= spec_digits_val(t)) by {
            assert(spec_digit_val(s[i]) >= 0);
            assert(spec_digits_val(s.take(i)) * 10 >= spec_digits_val(s.take(i))) by (nonlinear_arith)
                requires
                    spec_digits_val(s.take(i)) >= 0,
            ;
        }
        lemma_digits_val_prefix_le(s, i + 1);
        assert(s.take(s.len() as int) =~= s);
    } else {
        assert(s.take(i) =~= s);
    }
}

// ---------------------------------------------------------------------
// Parsing digits
// ---------------------------------------------------------------------
/// Read a non-empty, all-digit string as a `u64`.  Returns `None` exactly
/// when the string is empty, holds a non-digit, or denotes a number too
/// large for 64 bits.
pub fn parse_decimal(s: &str) -> (r: Option<u64>)
    ensures
        r is Some <==> s@.len() > 0 && spec_all_digits(s@) && spec_digits_val(s@) <= u64::MAX,
        r matches Some(v) ==> v == spec_digits_val(s@),
{
    let n = s.unicode_len();
    if n == 0 {
        return None;
    }
    let mut acc: u64 = 0;
    let mut i: usize = 0;
    while i < n
        invariant
            0 <= i <= n,
            n == s@.len(),
            spec_all_digits(s@.take(i as int)),
            acc == spec_digits_val(s@.take(i as int)),
        decreases n - i,
    {
        let c = s.get_char(i);
        let cu = c as u32;
        if cu < 48 || cu > 57 {
            assert(!spec_is_digit(s@[i as int]));
            return None;
        }
        let d = (cu - 48) as u64;
        proof {
            let t = s@.take(i + 1);
            assert(t.drop_last() =~= s@.take(i as int));
            assert(forall|j: int| 0 <= j < i ==> #[trigger] t[j] == s@.take(i as int)[j]);
            assert(spec_all_digits(t));
        }
        if acc > (u64::MAX - d) / 10 {
            proof {
                assert(acc * 10 + d > u64::MAX) by (nonlinear_arith)
                    requires
                        acc > (u64::MAX - d) / 10,
                        d <= 9,
                ;
                assert(spec_digits_val(s@.take(i + 1)) > u64::MAX);
                if spec_all_digits(s@) {
                    lemma_digits_val_prefix_le(s@, i + 1);
                    assert(s@.take(s@.len() as int) =~= s@);
                }
            }
            return None;
        }
        assert(acc * 10 + d <= u64::MAX) by (nonlinear_arith)
            requires
                acc <= (u64::MAX - d) / 10,
                d <= 9,
        ;
        acc = acc * 10 + d;
        i = i + 1;
    }
    proof {
        assert(s@.take(n as int) =~= s@);
    }
    Some(acc)
}

// ---------------------------------------------------------------------
// Writing digits
// ---------------------------------------------------------------------
fn digit_str(d: u64) -> (s: &'static str)
    requires
        d < 10,
    ensures
        s@ =~= seq![spec_digit_char(d as int)],
{
    proof {
        reveal_strlit("0");
        reveal_strlit("1");
        reveal_strlit("2");
        reveal_strlit("3");
        reveal_strlit("4");
        reveal_strlit("5");
        reveal_strlit("6");
        reveal_strlit("7");
        reveal_strlit("8");
        reveal_strlit("9");
    }
    match d {
        0 => "0",
        1 => "1",
        2 => "2",
        3 => "3",
        4 => "4",
        5 => "5",
        6 => "6",
        7 => "7",
        8 => "8",
        _ => "9",
    }
}

/// `n` written in decimal, without padding.
pub fn decimal_string(n: u64) -> (s: String)
    ensures
        s@ == spec_decimal(n as nat),
    decreases n,
{
    if n < 10 {
        digit_str(n).to_owned()
    } else {
        let mut s = decimal_string(n / 10);
        s.append(digit_str(n % 10));
        proof {
            assert(s@ =~= spec_decimal((n / 10) as nat).push(spec_digit_char((n % 10) as int)));
        }
        s
    }
}

/// `n` written with at least two digits.
pub fn padded2_string(n: u64) -> (s: String)
    ensures
        s@ == spec_padded2(n as nat),
{
    if n < 10 {
        let mut s = digit_str(0).to_owned();
        s.append(digit_str(n));
        proof {
            assert(s@ =~= seq![spec_digit_char(0)] + spec_decimal(n as nat));
        }
        s
    } else {
        decimal_string(n)
    }
}

/// `n` written with at least three digits.
pub fn padded3_string(n: u64) -> (s: String)
    ensures
        s@ == spec_padded3(n as nat),
{
    if n < 10 {
        let mut s = digit_str(0).to_owned();
        s.append(digit_str(0));
        s.append(digit_str(n));
        proof {
            assert(s@ =~= seq![spec_digit_char(0), spec_digit_char(0)] + spec_decimal(n as nat));
        }
        s
    } else if n < 100 {
        let mut s = digit_str(0).to_owned();
        let rest = decimal_string(n);
        s.append(rest.as_str());
        proof {
            assert(s@ =~= seq![spec_digit_char(0)] + spec_decimal(n as nat));
        }
        s
    } else {
        decimal_string(n)
    }
}

// ---------------------------------------------------------------------
// Clock displays
// ---------------------------------------------------------------------
/// The hours, minutes and seconds of `ms`, each two digits (hours wider
/// when the time runs past 99 hours), separated by colons.
pub open spec fn spec_hms(ms: u64) -> Seq<char> {
    spec_padded2((ms / MS_PER_HOUR) as nat) + seq![':'] + spec_padded2(
        ((ms % MS_PER_HOUR) / MS_PER_MINUTE) as nat,
    ) + seq![':'] + spec_padded2(((ms % MS_PER_MINUTE) / MS_PER_SECOND) as nat)
}

/// `HH:MM:SS,mmm`, the time format of a subtitle file.
pub open spec fn spec_srt_time(ms: u64) -> Seq<char> {
    spec_hms(ms) + seq![','] + spec_padded3((ms % MS_PER_SECOND) as nat)
}

/// `HH:MM:SS.mmm`, the time format of the player's display.
pub open spec fn spec_clock_time(ms: u64) -> Seq<char> {
    spec_hms(ms) + seq!['.'] + spec_padded3((ms % MS_PER_SECOND) as nat)
}

fn hms_string(ms: u64) -> (s: String)
    ensures
        s@ == spec_hms(ms),
{
    proof {
        reveal_strlit(":");
    }
    let hours = ms / MS_PER_HOUR;
    let minutes = (ms % MS_PER_HOUR) / MS_PER_MINUTE;
    let seconds = (ms % MS_PER_MINUTE) / MS_PER_SECOND;
    let mut s = padded2_string(hours);
    s.append(":");
    let minutes_str = padded2_string(minutes);
    s.append(minutes_str.as_str());
    s.append(":");
    let seconds_str = padded2_string(seconds);
    s.append(seconds_str.as_str());
    proof {
        assert(":"@ =~= seq![':']);
        assert(s@ =~= spec_hms(ms));
    }
    s
}

/// Format `ms` as a subtitle time stamp, `HH:MM:SS,mmm`.
pub fn format_srt_time(ms: u64) -> (s: String)
    ensures
        s@ == spec_srt_time(ms),
{
    proof {
        reveal_strlit(",");
    }
    let mut s = hms_string(ms);
    s.append(",");
    let millis_str = padded3_string(ms % MS_PER_SECOND);
    s.append(millis_str.as_str());
    proof {
        assert(","@ =~= seq![',']);
        assert(s@ =~= spec_srt_time(ms));
    }
    s
}

// ---------------------------------------------------------------------
// Whitespace trimming
// ---------------------------------------------------------------------
/// The whitespace the parsers strip around fields.
pub open spec fn spec_ws(c: char) -> bool {
    c == ' ' || c == '\t' || c == '\r' || c == '\n'
}

pub open spec fn spec_trim_front(s: Seq<char>) -> Seq<char>
    decreases s.len(),
{
    if s.len() > 0 && spec_ws(s[0]) {
        spec_trim_front(s.drop_first())
    } else {
        s
    }
}

pub open spec fn spec_trim_back(s: Seq<char>) -> Seq<char>
    decreases s.len(),
{
    if s.len() > 0 && spec_ws(s.last()) {
        spec_trim_back(s.drop_last())
    } else {
        s
    }
}

/// `s` with leading and trailing whitespace removed.
pub open spec fn spec_trim(s: Seq<char>) -> Seq<char> {
    spec_trim_back(spec_trim_front(s))
}

proof fn lemma_trim_front_is_skip(s: Seq<char>, a: int)
    requires
        0 <= a <= s.len(),
        forall|j: int| 0 <= j < a ==> spec_ws(#[trigger] s[j]),
        a < s.len() ==> !spec_ws(s[a]),
    ensures
        spec_trim_front(s) == s.skip(a),
    decreases a,
{
    if a == 0 {
        assert(s.skip(0) =~= s);
    } else {
        let t = s.drop_first();
        assert(forall|j: int| 0 <= j < a - 1 ==> spec_ws(#[trigger] t[j]) == spec_ws(s[j + 1]));
        lemma_trim_front_is_skip(t, a - 1);
        assert(t.skip(a - 1) =~= s.skip(a));
    }
}

proof fn lemma_trim_back_is_take(s: Seq<char>, b: int)
    requires
        0 <= b <= s.len(),
        forall|j: int| b <= j < s.len() ==> spec_ws(#[trigger] s[j]),
        b > 0 ==> !spec_ws(s[b - 1]),
    ensures
        spec_trim_back(s) == s.take(b),
    decreases s.len() - b,
{
    if b == s.len() {
        assert(s.take(b) =~= s);
    } else {
        let t = s.drop_last();
        assert(forall|j: int| b <= j < t.len() ==> spec_ws(#[trigger] t[j]) == spec_ws(s[j]));
        lemma_trim_back_is_take(t, b);
        assert(t.take(b) =~= s.take(b));
    }
}

pub(crate) fn is_ws_char(c: char) -> (b: bool)
    ensures
        b == spec_ws(c),
{
    c == ' ' || c == '\t' || c == '\r' || c == '\n'
}

fn first_non_ws(s: &str) -> (a: usize)
    ensures
        a <= s@.len(),
        forall|j: int| 0 <= j < a ==> spec_ws(#[trigger] s@[j]),
        a < s@.len() ==> !spec_ws(s@[a as int]),
{
    let n = s.unicode_len();
    let mut a: usize = 0;
    while a < n
        invariant
            0 <= a <= n,
            n == s@.len(),
            forall|j: int| 0 <= j < a ==> spec_ws(#[trigger] s@[j]),
        decreases n - a,
    {
        if !is_ws_char(s.get_char(a)) {
            return a;
        }
        a = a + 1;
    }
    a
}

fn last_non_ws_from(s: &str, a: usize) -> (b: usize)
    requires
        a <= s@.len(),
    ensures
        a <= b <= s@.len(),
        forall|j: int| b <= j < s@.len() ==> spec_ws(#[trigger] s@[j]),
        b > a ==> !spec_ws(s@[b - 1]),
{
    let n = s.unicode_len();
    let mut b: usize = n;
    while b > a
        invariant
            a <= b <= n,
            n == s@.len(),
            forall|j: int| b <= j < s@.len() ==> spec_ws(#[trigger] s@[j]),
        decreases b,
    {
        if !is_ws_char(s.get_char(b - 1)) {
            return b;
        }
        b = b - 1;
    }
    b
}

/// `s` with leading and trailing whitespace removed.
pub fn trimmed(s: &str) -> (r: &str)
    ensures
        r@ == spec_trim(s@),
{
    let a = first_non_ws(s);
    let b = last_non_ws_from(s, a);
    let r = s.substring_char(a, b);
    proof {
        lemma_trim_front_is_skip(s@, a as int);
        let t = s@.skip(a as int);
        assert(forall|j: int|
            b - a <= j < t.len() ==> spec_ws(#[trigger] t[j]) == spec_ws(s@[j + a]));
        lemma_trim_back_is_take(t, b - a);
        assert(t.take(b - a) =~= s@.subrange(a as int, b as int));
    }
    r
}

/// Character-for-character string equality.
pub fn str_eq(a: &str, b: &str) -> (r: bool)
    ensures
        r == (a@ == b@),
{
    let n = a.unicode_len();
    if n != b.unicode_len() {
        proof {
            if a@ == b@ {
                assert(a@.len() == b@.len());
            }
        }
        return false;
    }
    let mut i: usize = 0;
    while i < n
        invariant
            0 <= i <= n,
            n == a@.len() == b@.len(),
            forall|j: int| 0 <= j < i ==> a@[j] == b@[j],
        decreases n - i,
    {
        if a.get_char(i) != b.get_char(i) {
            proof {
                if a@ == b@ {
                    assert(a@[i as int] == b@[i as int]);
                }
            }
            return false;
        }
        i = i + 1;
    }
    proof {
        assert(a@ =~= b@);
    }
    true
}

// ---------------------------------------------------------------------
// Finding separators
// ---------------------------------------------------------------------
/// Index of the first occurrence of `c` in `s`, or -1.
pub open spec fn spec_find(s: Seq<char>, c: char) -> int
    decreases s.len(),
{
    if s.len() == 0 {
        -1
    } else if s[0] == c {
        0
    } else {
        let r = spec_find(s.drop_first(), c);
        if r < 0 {
            -1
        } else {
            r + 1
        }
    }
}

proof fn lemma_find_props(s: Seq<char>, c: char)
    ensures
        spec_find(s, c) < 0 ==> forall|j: int| 0 <= j < s.len() ==> s[j] != c,
        spec_find(s, c) >= 0 ==> {
            &&& spec_find(s, c) < s.len()
            &&& s[spec_find(s, c)] == c
            &&& forall|j: int| 0 <= j < spec_find(s, c) ==> s[j] != c
        },
    decreases s.len(),
{
    if s.len() > 0 && s[0] != c {
        let t = s.drop_first();
        lemma_find_props(t, c);
        assert(forall|j: int| 0 <= j < t.len() ==> #[trigger] t[j] == s[j + 1]);
        if spec_find(t, c) < 0 {
            assert forall|j: int| 0 <= j < s.len() implies s[j] != c by {
                if j > 0 {
                    assert(t[j - 1] != c);
                }
            }
        } else {
            let f = spec_find(t, c);
            assert(s[f + 1] == t[f]);
            assert forall|j: int| 0 <= j < f + 1 implies s[j] != c by {
                if j > 0 {
                    assert(t[j - 1] != c);
                }
            }
        }
    }
}

/// First index of `c` in `s`, scanning left to right.
pub fn find_char(s: &str, c: char) -> (r: Option<usize>)
    ensures
        r matches Some(i) ==> i < s@.len() && s@[i as int] == c && spec_find(s@, c) == i as int,
        r is None ==> spec_find(s@, c) < 0,
{
    let n = s.unicode_len();
    let mut i: usize = 0;
    while i < n
        invariant
            0 <= i <= n,
            n == s@.len(),
            forall|j: int| 0 <= j < i ==> s@[j] != c,
        decreases n - i,
    {
        if s.get_char(i) == c {
            proof {
                lemma_find_props(s@, c);
                let f = spec_find(s@, c);
                assert(s@[i as int] == c);
                if f < 0 {
                    assert(s@[i as int] != c);
                }
                if f < i {
                    assert(s@[f] != c);
                }
                if f > i {
                    assert(s@[i as int] != c);
                }
            }
            return Some(i);
        }
        i = i + 1;
    }
    proof {
        lemma_find_props(s@, c);
        let f = spec_find(s@, c);
        if f >= 0 {
            assert(s@[f] != c);
        }
    }
    None
}

// ---------------------------------------------------------------------
// Subtitle time stamps
// ---------------------------------------------------------------------
/// Why a time stamp was rejected.
#[derive(Clone, Copy, PartialEq, Eq, Structural, Debug)]
pub enum TimeParseError {
    /// Nothing but whitespace.
    Empty,
    /// Not of the shape `H:M:S,mmm`.
    Format,
    /// The hour field is not a number.
    Hour,
    /// The minute field is not a number.
    Minute,
    /// The second field is not a number.
    Second,
    /// The millisecond field is not a number.
    Millisecond,
    /// The stamp denotes more milliseconds than fit in 64 bits.
    TooLarge,
}

/// A numeric field: trimmed, non-empty, all digits, within 64 bits.
pub open spec fn spec_parse_field(raw: Seq<char>) -> Option<int> {
    let f = spec_trim(raw);
    if f.len() > 0 && spec_all_digits(f) && spec_digits_val(f) <= u64::MAX {
        Some(spec_digits_val(f))
    } else {
        None
    }
}

/// The meaning of a subtitle time stamp `H:M:S,mmm` in milliseconds.
///
/// The stamp is trimmed; it must contain exactly one comma, and exactly two
/// colons before the comma.  Each of the four fields is itself trimmed and
/// must be a plain decimal number; the fields are not range-checked, so
/// `00:99:00,000` is 99 minutes.
pub open spec fn spec_parse_srt_time(raw: Seq<char>) -> Result<u64, TimeParseError> {
    let s = spec_trim(raw);
    if s.len() == 0 {
        Err(TimeParseError::Empty)
    } else {
        let ci = spec_find(s, ',');
        if ci < 0 || spec_find(s.skip(ci + 1), ',') >= 0 {
            Err(TimeParseError::Format)
        } else {
            let date = s.take(ci);
            let millis_raw = s.skip(ci + 1);
            let c1 = spec_find(date, ':');
            if c1 < 0 {
                Err(TimeParseError::Format)
            } else {
                let rest = date.skip(c1 + 1);
                let c2 = spec_find(rest, ':');
                if c2 < 0 || spec_find(rest.skip(c2 + 1), ':') >= 0 {
                    Err(TimeParseError::Format)
                } else {
                    match spec_parse_field(date.take(c1)) {
                        None => Err(TimeParseError::Hour),
                        Some(h) => match spec_parse_field(rest.take(c2)) {
                            None => Err(TimeParseError::Minute),
                            Some(m) => match spec_parse_field(rest.skip(c2 + 1)) {
                                None => Err(TimeParseError::Second),
                                Some(sec) => match spec_parse_field(millis_raw) {
                                    None => Err(TimeParseError::Millisecond),
                                    Some(mil) => {
                                        let total = h * MS_PER_HOUR + m * MS_PER_MINUTE + sec
                                            * MS_PER_SECOND + mil;
                                        if total <= u64::MAX {
                                            Ok(total as u64)
                                        } else {
                                            Err(TimeParseError::TooLarge)
                                        }
                                    },
                                },
                            },
                        },
                    }
                }
            }
        }
    }
}

fn parse_field(raw: &str) -> (r: Option<u64>)
    ensures
        r is Some <==> spec_parse_field(raw@) is Some,
        r matches Some(v) ==> spec_parse_field(raw@) == Some(v as int),
{
    parse_decimal(trimmed(raw))
}

/// Read a subtitle time stamp `H:M:S,mmm` as milliseconds, reporting which
/// part of a malformed stamp was at fault.
pub fn parse_srt_time(time_str: &str) -> (r: Result<u64, TimeParseError>)
    ensures
        r == spec_parse_srt_time(time_str@),
{
    let s = trimmed(time_str);
    let n = s.unicode_len();
    if n == 0 {
        return Err(TimeParseError::Empty);
    }
    let ci = match find_char(s, ',') {
        None => {
            proof {
                assert(spec_parse_srt_time(time_str@) == Err::<u64, TimeParseError>(
                    TimeParseError::Format,
                ));
            }
            return Err(TimeParseError::Format);
        },
        Some(ci) => ci,
    };
    let millis_raw = s.substring_char(ci + 1, n);
    proof {
        assert(millis_raw@ =~= s@.skip(ci + 1));
    }
    if find_char(millis_raw, ',').is_some() {
        proof {
            assert(spec_parse_srt_time(time_str@) == Err::<u64, TimeParseError>(
                TimeParseError::Format,
            ));
        }
        return Err(TimeParseError::Format);
    }
    let date = s.substring_char(0, ci);
    proof {
        assert(date@ =~= s@.take(ci as int));
    }
    let c1 = match find_char(date, ':') {
        None => {
            proof {
                assert(spec_parse_srt_time(time_str@) == Err::<u64, TimeParseError>(
                    TimeParseError::Format,
                ));
            }
            return Err(TimeParseError::Format);
        },
        Some(c1) => c1,
    };
    let dlen = date.unicode_len();
    let rest = date.substring_char(c1 + 1, dlen);
    proof {
        assert(rest@ =~= date@.skip(c1 + 1));
    }
    let rlen = rest.unicode_len();
    let c2 = match find_char(rest, ':') {
        None => {
            proof {
                assert(spec_parse_srt_time(time_str@) == Err::<u64, TimeParseError>(
                    TimeParseError::Format,
                ));
            }
            return Err(TimeParseError::Format);
        },
        Some(c2) => c2,
    };
    let secs_raw = rest.substring_char(c2 + 1, rlen);
    proof {
        assert(secs_raw@ =~= rest@.skip(c2 + 1));
    }
    if find_char(secs_raw, ':').is_some() {
        proof {
            assert(spec_parse_srt_time(time_str@) == Err::<u64, TimeParseError>(
                TimeParseError::Format,
            ));
        }
        return Err(TimeParseError::Format);
    }
    let hours_raw = date.substring_char(0, c1);
    proof {
        assert(hours_raw@ =~= date@.take(c1 as int));
    }
    let h = match parse_field(hours_raw) {
        None => {
            proof {
                assert(spec_parse_srt_time(time_str@) == Err::<u64, TimeParseError>(
                    TimeParseError::Hour,
                ));
            }
            return Err(TimeParseError::Hour);
        },
        Some(h) => h,
    };
    let minutes_raw = rest.substring_char(0, c2);
    proof {
        assert(minutes_raw@ =~= rest@.take(c2 as int));
    }
    let m = match parse_field(minutes_raw) {
        None => {
            proof {
                assert(spec_parse_srt_time(time_str@) == Err::<u64, TimeParseError>(
                    TimeParseError::Minute,
                ));
            }
            return Err(TimeParseError::Minute);
        },
        Some(m) => m,
    };
    let sec = match parse_field(secs_raw) {
        None => {
            proof {
                assert(spec_parse_srt_time(time_str@) == Err::<u64, TimeParseError>(
                    TimeParseError::Second,
                ));
            }
            return Err(TimeParseError::Second);
        },
        Some(sec) => sec,
    };
    let mil = match parse_field(millis_raw) {
        None => {
            proof {
                assert(spec_parse_srt_time(time_str@) == Err::<u64, TimeParseError>(
                    TimeParseError::Millisecond,
                ));
            }
            return Err(TimeParseError::Millisecond);
        },
        Some(mil) => mil,
    };
    let ghost total: int = h * MS_PER_HOUR + m * MS_PER_MINUTE + sec * MS_PER_SECOND + mil;
    let hm = match h.checked_mul(MS_PER_HOUR) {
        None => {
            proof {
                assert(spec_parse_srt_time(time_str@) == Err::<u64, TimeParseError>(
                    TimeParseError::TooLarge,
                ));
            }
            return Err(TimeParseError::TooLarge);
        },
        Some(v) => v,
    };
    let mm = match m.checked_mul(MS_PER_MINUTE) {
        None => {
            proof {
                assert(spec_parse_srt_time(time_str@) == Err::<u64, TimeParseError>(
                    TimeParseError::TooLarge,
                ));
            }
            return Err(TimeParseError::TooLarge);
        },
        Some(v) => v,
    };
    let sm = match sec.checked_mul(MS_PER_SECOND) {
        None => {
            proof {
                assert(spec_parse_srt_time(time_str@) == Err::<u64, TimeParseError>(
                    TimeParseError::TooLarge,
                ));
            }
            return Err(TimeParseError::TooLarge);
        },
        Some(v) => v,
    };
    let t1 = match hm.checked_add(mm) {
        None => {
            proof {
                assert(spec_parse_srt_time(time_str@) == Err::<u64, TimeParseError>(
                    TimeParseError::TooLarge,
                ));
            }
            return Err(TimeParseError::TooLarge);
        },
        Some(v) => v,
    };
    let t2 = match t1.checked_add(sm) {
        None => {
            proof {
                assert(spec_parse_srt_time(time_str@) == Err::<u64, TimeParseError>(
                    TimeParseError::TooLarge,
                ));
            }
            return Err(TimeParseError::TooLarge);
        },
        Some(v) => v,
    };
    match t2.checked_add(mil) {
        None => {
            proof {
                assert(spec_parse_srt_time(time_str@) == Err::<u64, TimeParseError>(
                    TimeParseError::TooLarge,
                ));
            }
            Err(TimeParseError::TooLarge)
        },
        Some(total_ms) => {
            proof {
                assert(total_ms == total);
                assert(spec_parse_srt_time(time_str@) == Ok::<u64, TimeParseError>(total_ms));
            }
            Ok(total_ms)
        },
    }
}

// ---------------------------------------------------------------------
// Manual-cut fields
// ---------------------------------------------------------------------
/// A manual-cut field: an empty box counts as zero, anything else must be a
/// plain decimal number.
pub open spec fn spec_manual_field(s: Seq<char>) -> Option<int> {
    if s.len() == 0 {
        Some(0)
    } else if spec_all_digits(s) && spec_digits_val(s) <= u64::MAX {
        Some(spec_digits_val(s))
    } else {
        None
    }
}

/// The milliseconds denoted by the four manual-cut entry fields, or `None`
/// when a field is malformed or the total overflows.
pub open spec fn spec_manual_time(
    hour: Seq<char>,
    minute: Seq<char>,
    second: Seq<char>,
    millisecond: Seq<char>,
) -> Option<u64> {
    match (
        spec_manual_field(hour),
        spec_manual_field(minute),
        spec_manual_field(second),
        spec_manual_field(millisecond),
    ) {
        (Some(h), Some(m), Some(s), Some(ms)) => {
            let total = h * MS_PER_HOUR + m * MS_PER_MINUTE + s * MS_PER_SECOND + ms;
            if total <= u64::MAX {
                Some(total as u64)
            } else {
                None
            }
        },
        _ => None,
    }
}

fn manual_field(s: &str) -> (r: Option<u64>)
    ensures
        r is Some <==> spec_manual_field(s@) is Some,
        r matches Some(v) ==> spec_manual_field(s@) == Some(v as int),
{
    if s.unicode_len() == 0 {
        Some(0)
    } else {
        parse_decimal(s)
    }
}

/// Read the four manual-cut entry fields as one time in milliseconds.
/// Empty fields default to zero; a malformed field rejects the whole time.
pub fn parse_manual_time(hour: &str, minute: &str, second: &str, millisecond: &str) -> (r: Result<
    u64,
    (),
>)
    ensures
        match spec_manual_time(hour@, minute@, second@, millisecond@) {
            Some(v) => r == Ok::<u64, ()>(v),
            None => r == Err::<u64, ()>(()),
        },
{
    let h = match manual_field(hour) {
        None => {
            return Err(());
        },
        Some(v) => v,
    };
    let m = match manual_field(minute) {
        None => {
            return Err(());
        },
        Some(v) => v,
    };
    let s = match manual_field(second) {
        None => {
            return Err(());
        },
        Some(v) => v,
    };
    let ms = match manual_field(millisecond) {
        None => {
            return Err(());
        },
        Some(v) => v,
    };
    let hm = match h.checked_mul(MS_PER_HOUR) {
        None => {
            return Err(());
        },
        Some(v) => v,
    };
    let mm = match m.checked_mul(MS_PER_MINUTE) {
        None => {
            return Err(());
        },
        Some(v) => v,
    };
    let sm = match s.checked_mul(MS_PER_SECOND) {
        None => {
            return Err(());
        },
        Some(v) => v,
    };
    let t1 = match hm.checked_add(mm) {
        None => {
            return Err(());
        },
        Some(v) => v,
    };
    let t2 = match t1.checked_add(sm) {
        None => {
            return Err(());
        },
        Some(v) => v,
    };
    match t2.checked_add(ms) {
        None => Err(()),
        Some(total) => Ok(total),
    }
}

// ---------------------------------------------------------------------
// The stamp writer and the stamp reader agree
// ---------------------------------------------------------------------
pub open spec fn spec_lacks(s: Seq<char>, c: char) -> bool {
    forall|i: int| 0 <= i < s.len() ==> #[trigger] s[i] != c
}

proof fn lemma_digit_not_special(c: char)
    requires
        spec_is_digit(c),
    ensures
        !spec_ws(c),
        c != ',',
        c != ':',
{
    assert(',' as u32 == 44);
    assert(':' as u32 == 58);
    assert(' ' as u32 == 32);
    assert('\t' as u32 == 9);
    assert('\r' as u32 == 13);
    assert('\n' as u32 == 10);
}

proof fn lemma_digits_are_plain(s: Seq<char>)
    requires
        spec_all_digits(s),
    ensures
        spec_lacks(s, ','),
        spec_lacks(s, ':'),
        forall|i: int| 0 <= i < s.len() ==> !spec_ws(#[trigger] s[i]),
{
    assert forall|i: int| 0 <= i < s.len() implies s[i] != ',' by {
        lemma_digit_not_special(s[i]);
    }
    assert forall|i: int| 0 <= i < s.len() implies s[i] != ':' by {
        lemma_digit_not_special(s[i]);
    }
    assert forall|i: int| 0 <= i < s.len() implies !spec_ws(#[trigger] s[i]) by {
        lemma_digit_not_special(s[i]);
    }
}

proof fn lemma_lacks_concat(a: Seq<char>, b: Seq<char>, c: char)
    requires
        spec_lacks(a, c),
        spec_lacks(b, c),
    ensures
        spec_lacks(a + b, c),
{
    assert forall|i: int| 0 <= i < (a + b).len() implies (a + b)[i] != c by {
        if i < a.len() {
            assert((a + b)[i] == a[i]);
        } else {
            assert((a + b)[i] == b[i - a.len()]);
        }
    }
}

proof fn lemma_find_none(s: Seq<char>, c: char)
    requires
        spec_lacks(s, c),
    ensures
        spec_find(s, c) < 0,
{
    lemma_find_props(s, c);
    if spec_find(s, c) >= 0 {
        assert(s[spec_find(s, c)] != c);
    }
}

/// Finding `c` in `a + b` when `a` holds none: the hit, if any, lies in `b`.
proof fn lemma_find_append(a: Seq<char>, b: Seq<char>, c: char)
    requires
        spec_lacks(a, c),
    ensures
        spec_find(b, c) < 0 ==> spec_find(a + b, c) < 0,
        spec_find(b, c) >= 0 ==> spec_find(a + b, c) == a.len() + spec_find(b, c),
    decreases a.len(),
{
    if a.len() == 0 {
        assert(a + b =~= b);
    } else {
        let t = (a + b).drop_first();
        assert(t =~= a.drop_first() + b);
        assert((a + b)[0] == a[0]);
        assert(a[0] != c);
        assert(forall|i: int|
            0 <= i < a.drop_first().len() ==> #[trigger] a.drop_first()[i] == a[i + 1]);
        lemma_find_append(a.drop_first(), b, c);
    }
}

proof fn lemma_trim_identity(s: Seq<char>)
    requires
        s.len() > 0,
        !spec_ws(s[0]),
        !spec_ws(s.last()),
    ensures
        spec_trim(s) == s,
{
}

/// Prepending a zero leaves a digit string's value alone.
proof fn lemma_leading_zero(s: Seq<char>)
    requires
        spec_all_digits(s),
    ensures
        spec_all_digits(seq![spec_digit_char(0)] + s),
        spec_digits_val(seq![spec_digit_char(0)] + s) == spec_digits_val(s),
    decreases s.len(),
{
    let z = seq![spec_digit_char(0)] + s;
    assert(spec_is_digit(spec_digit_char(0)));
    assert(spec_all_digits(z)) by {
        assert(forall|i: int| 0 < i < z.len() ==> #[trigger] z[i] == s[i - 1]);
    }
    assert(spec_digits_val(z) == spec_digits_val(z.drop_last()) * 10 + spec_digit_val(z.last()));
    if s.len() == 0 {
        assert(z =~= seq![spec_digit_char(0)]);
        assert(z.drop_last() =~= Seq::<char>::empty());
        assert(spec_digit_val(spec_digit_char(0)) == 0);
        assert(spec_digits_val(z) == 0);
    } else {
        let s0 = s.drop_last();
        assert(spec_all_digits(s0)) by {
            assert(forall|i: int| 0 <= i < s0.len() ==> #[trigger] s0[i] == s[i]);
        }
        lemma_leading_zero(s0);
        assert(z.drop_last() =~= seq![spec_digit_char(0)] + s0);
        assert(z.last() == s.last());
        assert(spec_digits_val(s) == spec_digits_val(s0) * 10 + spec_digit_val(s.last()));
        assert(spec_digits_val(z) == spec_digits_val(s));
    }
}

proof fn lemma_padded2_value(n: nat)
    ensures
        spec_padded2(n).len() >= 1,
        spec_all_digits(spec_padded2(n)),
        spec_digits_val(spec_padded2(n)) == n,
{
    lemma_decimal_round_trip(n);
    if n < 10 {
        lemma_leading_zero(spec_decimal(n));
    }
}

proof fn lemma_padded3_value(n: nat)
    ensures
        spec_padded3(n).len() >= 1,
        spec_all_digits(spec_padded3(n)),
        spec_digits_val(spec_padded3(n)) == n,
{
    lemma_decimal_round_trip(n);
    if n < 10 {
        lemma_leading_zero(spec_decimal(n));
        lemma_leading_zero(seq![spec_digit_char(0)] + spec_decimal(n));
        assert(spec_padded3(n) =~= seq![spec_digit_char(0)] + (seq![spec_digit_char(0)]
            + spec_decimal(n)));
    } else if n < 100 {
        lemma_leading_zero(spec_decimal(n));
    }
}

/// A digit field parses back to its value: it is its own trim, all digits,
/// and denotes `n`.
proof fn lemma_field_round_trip(p: Seq<char>, n: nat)
    requires
        p.len() >= 1,
        spec_all_digits(p),
        spec_digits_val(p) == n,
        n <= u64::MAX,
    ensures
        spec_parse_field(p) == Some(n as int),
{
    lemma_digits_are_plain(p);
    lemma_trim_identity(p);
}

/// What the stamp writer produces, the stamp reader takes back to the same
/// time: formatting any number of milliseconds and parsing the result is
/// the identity.
pub proof fn lemma_srt_time_round_trip(ms: u64)
    ensures
        spec_parse_srt_time(spec_srt_time(ms)) == Ok::<u64, TimeParseError>(ms),
{
    let h = ms / MS_PER_HOUR;
    let m = (ms % MS_PER_HOUR) / MS_PER_MINUTE;
    let sec = (ms % MS_PER_MINUTE) / MS_PER_SECOND;
    let mil = ms % MS_PER_SECOND;
    let ph = spec_padded2(h as nat);
    let pm = spec_padded2(m as nat);
    let psec = spec_padded2(sec as nat);
    let pmil = spec_padded3(mil as nat);
    lemma_padded2_value(h as nat);
    lemma_padded2_value(m as nat);
    lemma_padded2_value(sec as nat);
    lemma_padded3_value(mil as nat);
    lemma_digits_are_plain(ph);
    lemma_digits_are_plain(pm);
    lemma_digits_are_plain(psec);
    lemma_digits_are_plain(pmil);

    let colon = seq![':'];
    let comma = seq![','];
    assert(spec_lacks(colon, ',')) by {
        assert(':' as u32 == 58 && ',' as u32 == 44);
    }
    assert(spec_lacks(comma, ':')) by {
        assert(':' as u32 == 58 && ',' as u32 == 44);
    }

    let hms = spec_hms(ms);
    let s = spec_srt_time(ms);
    let date_tail = pm + colon + psec;
    assert(hms =~= ph + colon + date_tail);
    assert(s =~= hms + (comma + pmil));

    // The whole stamp is its own trim: it starts and ends with a digit.
    assert(s.len() > 0);
    assert(s[0] == ph[0]);
    assert(s.last() == pmil.last());
    assert(!spec_ws(s[0]) && !spec_ws(s.last()));
    lemma_trim_identity(s);

    // Exactly one comma, right after the date part.
    assert(spec_lacks(hms, ',')) by {
        lemma_lacks_concat(ph, colon, ',');
        lemma_lacks_concat(ph + colon, date_tail, ',');
        assert(spec_lacks(date_tail, ',')) by {
            lemma_lacks_concat(pm, colon, ',');
            lemma_lacks_concat(pm + colon, psec, ',');
            assert(date_tail =~= (pm + colon) + psec);
        }
        assert(hms =~= (ph + colon) + date_tail);
    }
    assert(spec_find(comma + pmil, ',') == 0);
    lemma_find_append(hms, comma + pmil, ',');
    let ci = spec_find(s, ',');
    assert(ci == hms.len());
    assert(s.skip(ci + 1) =~= pmil);
    lemma_find_none(pmil, ',');
    assert(s.take(ci) =~= hms);

    // Exactly two colons inside the date part.
    assert(spec_find(colon + date_tail, ':') == 0);
    lemma_find_append(ph, colon + date_tail, ':');
    assert(hms =~= ph + (colon + date_tail));
    let c1 = spec_find(hms, ':');
    assert(c1 == ph.len());
    assert(hms.skip(c1 + 1) =~= date_tail);
    assert(hms.take(c1) =~= ph);
    assert(spec_find(colon + psec, ':') == 0);
    lemma_find_append(pm, colon + psec, ':');
    assert(date_tail =~= pm + (colon + psec));
    let c2 = spec_find(date_tail, ':');
    assert(c2 == pm.len());
    assert(date_tail.skip(c2 + 1) =~= psec);
    assert(date_tail.take(c2) =~= pm);
    lemma_find_none(psec, ':');

    // Each field reads back as the number it was written from.
    lemma_field_round_trip(ph, h as nat);
    lemma_field_round_trip(pm, m as nat);
    lemma_field_round_trip(psec, sec as nat);
    lemma_field_round_trip(pmil, mil as nat);

    // The four fields recombine to the original milliseconds.
    assert(h * MS_PER_HOUR + m * MS_PER_MINUTE + sec * MS_PER_SECOND + mil == ms) by {
        vstd::arithmetic::div_mod::lemma_fundamental_div_mod(ms as int, MS_PER_HOUR as int);
        vstd::arithmetic::div_mod::lemma_fundamental_div_mod(
            (ms % MS_PER_HOUR) as int,
            MS_PER_MINUTE as int,
        );
        vstd::arithmetic::div_mod::lemma_fundamental_div_mod(
            (ms % MS_PER_MINUTE) as int,
            MS_PER_SECOND as int,
        );
        vstd::arithmetic::div_mod::lemma_mod_mod(ms as int, MS_PER_MINUTE as int, 60);
        vstd::arithmetic::div_mod::lemma_mod_mod(ms as int, MS_PER_SECOND as int, 60);
        assert(MS_PER_MINUTE as int * 60 == MS_PER_HOUR as int);
        assert(MS_PER_SECOND as int * 60 == MS_PER_MINUTE as int);
    }
}

/// Format `ms` for the player's time display, `HH:MM:SS.mmm`.
pub fn format_time(ms: u64) -> (s: String)
    ensures
        s@ == spec_clock_time(ms),
{
    proof {
        reveal_strlit(".");
    }
    let mut s = hms_string(ms);
    s.append(".");
    let millis_str = padded3_string(ms % MS_PER_SECOND);
    s.append(millis_str.as_str());
    proof {
        assert("."@ =~= seq!['.']);
        assert(s@ =~= spec_clock_time(ms));
    }
    s
}

} // verus!
