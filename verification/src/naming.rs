//! The names under which pictures are saved and screenshots handed over.
use crate::paths::join_file;
use crate::text::{decimal_text, joined, signed_decimal_text};
use vstd::prelude::*;
use vstd::string::StringExecFns;

verus! {

/// A local date and time of day.
#[derive(Clone, Copy, PartialEq, Eq, Structural, Debug)]
pub struct Moment {
    pub year: i32,
    pub month: u32,
    pub day: u32,
    pub hour: u32,
    pub minute: u32,
    pub second: u32,
}

/// Whether a year of the Gregorian calendar has a 29th of February.
pub open spec fn leap_year(year: int) -> bool {
    year % 4 == 0 && (year % 100 != 0 || year % 400 == 0)
}

/// The number of days of a month of the Gregorian calendar.
pub open spec fn days_in_month(year: int, month: int) -> int {
    if month == 2 {
        if leap_year(year) {
            29
        } else {
            28
        }
    } else if month == 4 || month == 6 || month == 9 || month == 11 {
        30
    } else {
        31
    }
}

/// Two decimal digits.
pub open spec fn two_digits(value: nat) -> Seq<char> {
    seq![crate::text::digit(value / 10), crate::text::digit(value % 10)]
}

/// Three decimal digits.
pub open spec fn three_digits(value: nat) -> Seq<char> {
    seq![crate::text::digit(value / 100)] + two_digits(value % 100)
}

/// At least four decimal digits.
pub open spec fn four_digits(value: nat) -> Seq<char> {
    if value < 10000 {
        two_digits(value / 100) + two_digits(value % 100)
    } else {
        crate::text::decimal(value)
    }
}

/// A year in four digits, with a sign and more digits where four do not suffice.
pub open spec fn year_text(year: int) -> Seq<char> {
    if 0 <= year < 10000 {
        four_digits(year as nat)
    } else if year < 0 {
        seq!['-'] + four_digits((-year) as nat)
    } else {
        seq!['+'] + four_digits(year as nat)
    }
}

impl Moment {
    /// Whether the calendar and the clock have such a moment, in a year that `chrono` can hold.
    pub open spec fn exists_in_calendar(self) -> bool {
        &&& -262143 <= self.year <= 262142
        &&& 1 <= self.month <= 12
        &&& 1 <= self.day <= days_in_month(self.year as int, self.month as int)
        &&& self.hour < 24
        &&& self.minute < 60
        &&& self.second < 60
    }

    /// The moment as `year-month-day_hour-minute-second`.
    pub open spec fn stamp(self) -> Seq<char> {
        year_text(self.year as int) + seq!['-'] + two_digits(self.month as nat) + seq!['-']
            + two_digits(self.day as nat) + seq!['_'] + two_digits(self.hour as nat) + seq!['-']
            + two_digits(self.minute as nat) + seq!['-'] + two_digits(self.second as nat)
    }

    /// The moment, to the millisecond, as `year-month-day hour:minute:second.millisecond`.
    pub open spec fn clock(self, millisecond: nat) -> Seq<char> {
        year_text(self.year as int) + seq!['-'] + two_digits(self.month as nat) + seq!['-']
            + two_digits(self.day as nat) + seq![' '] + two_digits(self.hour as nat) + seq![':']
            + two_digits(self.minute as nat) + seq![':'] + two_digits(self.second as nat)
            + seq!['.'] + three_digits(millisecond)
    }
}

/// `chrono::NaiveDateTime::format`, on the date and time that `from_ymd_opt` and
/// `and_hms_milli_opt` make of the numbers. These give `None` exactly where the calendar has no
/// such day, the clock no such time, or the year is out of their range. Either pattern zero-pads
/// the year to four digits, with a sign outside 0 to 9999, and the other numbers to two; `%.3f` is
/// a point and the milliseconds in three digits.
#[verifier::external_body]
pub(crate) fn chrono_format(moment: Moment, millisecond: u32, pattern: &str) -> (text: Option<
    String,
>)
    requires
        millisecond < 1000,
        pattern@ == "%Y-%m-%d_%H-%M-%S"@ || pattern@ == "%Y-%m-%d %H:%M:%S%.3f"@,
    ensures
        text is Some <==> moment.exists_in_calendar(),
        text matches Some(text) ==> {
            &&& pattern@ == "%Y-%m-%d_%H-%M-%S"@ ==> text@ == moment.stamp()
            &&& pattern@ == "%Y-%m-%d %H:%M:%S%.3f"@ ==> text@ == moment.clock(millisecond as nat)
        },
{
    let date = chrono::NaiveDate::from_ymd_opt(moment.year, moment.month, moment.day)?;
    let time = date.and_hms_milli_opt(moment.hour, moment.minute, moment.second, millisecond)?;
    Some(time.format(pattern).to_string())
}

/// The name under which a picture is saved at a moment.
pub open spec fn capture_name(moment: Moment) -> Seq<char> {
    "screenink-"@ + moment.stamp() + ".png"@
}

/// The name under which a picture is saved at a moment. A moment that the calendar does not have
/// gives none.
pub fn capture_file_name(moment: Moment) -> (name: Option<String>)
    ensures
        name is Some <==> moment.exists_in_calendar(),
        name matches Some(name) ==> name@ == capture_name(moment),
{
    match chrono_format(moment, 0, "%Y-%m-%d_%H-%M-%S") {
        None => None,
        Some(stamp) => {
            let mut name: String = joined("screenink-", stamp.as_str());
            name.append(".png");
            Some(name)
        },
    }
}

/// The path under which a picture is saved at a moment.
pub fn capture_path(output_dir: &Vec<u8>, moment: Moment) -> (path: Option<Vec<u8>>)
    ensures
        path is Some <==> moment.exists_in_calendar(),
        path matches Some(path) ==> path@ == crate::paths::file_in(
            output_dir@,
            capture_name(moment),
        ),
{
    match capture_file_name(moment) {
        None => None,
        Some(name) => Some(join_file(output_dir, name.as_str())),
    }
}

/// The time in nanoseconds, from whichever count there is.
pub open spec fn time_number(nanoseconds: Option<i64>, microseconds: i64) -> int {
    if nanoseconds is Some {
        nanoseconds->0 as int
    } else {
        1000 * microseconds
    }
}

/// The number that tells handed-over screenshots of one process apart: the time in nanoseconds,
/// or, where these overflow, its microseconds times a thousand.
pub fn handoff_suffix(nanoseconds: Option<i64>, microseconds: i64) -> (suffix: i64)
    requires
        nanoseconds is None ==> i64::MIN <= microseconds * 1000 <= i64::MAX,
    ensures
        suffix == match nanoseconds {
            Some(nanoseconds) => nanoseconds as int,
            None => microseconds * 1000,
        },
        suffix == time_number(nanoseconds, microseconds),
{
    match nanoseconds {
        Some(nanoseconds) => nanoseconds,
        None => microseconds * 1000,
    }
}

/// The name under which a screenshot is handed to the editor service.
pub open spec fn handoff_name(process: u32, suffix: i64) -> Seq<char> {
    "screenink-portal-"@ + crate::text::decimal(process as nat) + seq!['-']
        + crate::text::signed_decimal(suffix as int) + ".png"@
}

/// The path under which a screenshot is handed to the editor service.
pub fn handoff_path(temporary_dir: &Vec<u8>, process: u32, suffix: i64) -> (path: Vec<u8>)
    ensures
        path@ == crate::paths::file_in(temporary_dir@, handoff_name(process, suffix)),
{
    let process_text: String = decimal_text(process as u64);
    let suffix_text: String = signed_decimal_text(suffix);
    let mut name: String = joined("screenink-portal-", process_text.as_str());
    proof {
        reveal_strlit("-");
    }
    name.append("-");
    name.append(suffix_text.as_str());
    name.append(".png");
    assert(name@ =~= handoff_name(process, suffix));
    join_file(temporary_dir, name.as_str())
}

/// The name under which a screenshot from the X11 server is kept.
pub open spec fn source_name(process: u32) -> Seq<char> {
    "screenink-source-"@ + crate::text::decimal(process as nat) + ".png"@
}

/// The path under which a screenshot from the X11 server is kept.
pub fn temporary_capture_path(temporary_dir: &Vec<u8>, process: u32) -> (path: Vec<u8>)
    ensures
        path@ == crate::paths::file_in(temporary_dir@, source_name(process)),
{
    let process_text: String = decimal_text(process as u64);
    let mut name: String = joined("screenink-source-", process_text.as_str());
    name.append(".png");
    join_file(temporary_dir, name.as_str())
}

/// The digits of a two-digit number tell it.
proof fn lemma_two_digits(a: nat, b: nat)
    requires
        a < 100,
        b < 100,
        two_digits(a) == two_digits(b),
    ensures
        a == b,
{
    assert(two_digits(a)[0] == two_digits(b)[0]);
    assert(two_digits(a)[1] == two_digits(b)[1]);
}

proof fn lemma_four_digits(a: nat, b: nat)
    requires
        four_digits(a) == four_digits(b),
    ensures
        a == b,
{
    crate::text::lemma_decimal_digits(a);
    crate::text::lemma_decimal_digits(b);
    if a < 10000 && b < 10000 {
        assert(four_digits(a).take(2) =~= two_digits(a / 100));
        assert(four_digits(b).take(2) =~= two_digits(b / 100));
        assert(four_digits(a).skip(2) =~= two_digits(a % 100));
        assert(four_digits(b).skip(2) =~= two_digits(b % 100));
        lemma_two_digits(a / 100, b / 100);
        lemma_two_digits(a % 100, b % 100);
    } else if a >= 10000 && b >= 10000 {
        crate::text::law_decimal_is_injective(a, b);
    } else {
        assert(four_digits(a).len() == four_digits(b).len());
    }
}

proof fn lemma_year_text(a: int, b: int)
    requires
        year_text(a) == year_text(b),
    ensures
        a == b,
{
    let magnitude_a = if a < 0 { (-a) as nat } else { a as nat };
    let magnitude_b = if b < 0 { (-b) as nat } else { b as nat };
    let plain_a = 0 <= a < 10000;
    let plain_b = 0 <= b < 10000;
    assert(year_text(a)[0] == year_text(b)[0]);
    if !plain_a {
        assert(year_text(a).skip(1) =~= four_digits(magnitude_a));
        assert(year_text(a)[0] == if a < 0 { '-' } else { '+' });
    }
    if !plain_b {
        assert(year_text(b).skip(1) =~= four_digits(magnitude_b));
        assert(year_text(b)[0] == if b < 0 { '-' } else { '+' });
    }
    lemma_four_digits_start(magnitude_a);
    lemma_four_digits_start(magnitude_b);
    assert(plain_a == plain_b);
    assert(a < 0 <==> b < 0);
    lemma_four_digits(magnitude_a, magnitude_b);
}

proof fn lemma_four_digits_start(value: nat)
    ensures
        four_digits(value).len() >= 4,
        '0' <= four_digits(value)[0] <= '9',
{
    crate::text::lemma_decimal_digits(value);
}

/// Pictures saved in different seconds have different names.
pub proof fn law_capture_names_differ(a: Moment, b: Moment)
    requires
        a.exists_in_calendar(),
        b.exists_in_calendar(),
        a != b,
    ensures
        capture_name(a) != capture_name(b),
{
    if capture_name(a) == capture_name(b) {
        reveal_strlit("screenink-");
        reveal_strlit(".png");
        let name = capture_name(a);
        let year_length = name.len() - 29;
        assert(year_text(a.year as int).len() == year_length);
        assert(year_text(b.year as int).len() == year_length);
        assert(name.subrange(10, 10 + year_length) =~= year_text(a.year as int));
        assert(name.subrange(10, 10 + year_length) =~= year_text(b.year as int));
        lemma_year_text(a.year as int, b.year as int);
        let rest = 10 + year_length;
        assert(name.subrange(rest + 1, rest + 3) =~= two_digits(a.month as nat));
        assert(name.subrange(rest + 1, rest + 3) =~= two_digits(b.month as nat));
        lemma_two_digits(a.month as nat, b.month as nat);
        assert(name.subrange(rest + 4, rest + 6) =~= two_digits(a.day as nat));
        assert(name.subrange(rest + 4, rest + 6) =~= two_digits(b.day as nat));
        lemma_two_digits(a.day as nat, b.day as nat);
        assert(name.subrange(rest + 7, rest + 9) =~= two_digits(a.hour as nat));
        assert(name.subrange(rest + 7, rest + 9) =~= two_digits(b.hour as nat));
        lemma_two_digits(a.hour as nat, b.hour as nat);
        assert(name.subrange(rest + 10, rest + 12) =~= two_digits(a.minute as nat));
        assert(name.subrange(rest + 10, rest + 12) =~= two_digits(b.minute as nat));
        lemma_two_digits(a.minute as nat, b.minute as nat);
        assert(name.subrange(rest + 13, rest + 15) =~= two_digits(a.second as nat));
        assert(name.subrange(rest + 13, rest + 15) =~= two_digits(b.second as nat));
        lemma_two_digits(a.second as nat, b.second as nat);
    }
}

/// Screenshots that are handed over by different processes, or at different times, have different
/// names.
pub proof fn law_handoff_names_differ(process: u32, suffix: i64, process2: u32, suffix2: i64)
    requires
        process != process2 || suffix != suffix2,
    ensures
        handoff_name(process, suffix) != handoff_name(process2, suffix2),
{
    if handoff_name(process, suffix) == handoff_name(process2, suffix2) {
        reveal_strlit("screenink-portal-");
        reveal_strlit(".png");
        let name = handoff_name(process, suffix);
        let digits = crate::text::decimal(process as nat);
        let digits2 = crate::text::decimal(process2 as nat);
        crate::text::lemma_decimal_digits(process as nat);
        crate::text::lemma_decimal_digits(process2 as nat);
        if digits.len() < digits2.len() {
            assert(name[17 + digits.len() as int] == '-');
            assert(name[17 + digits.len() as int] == digits2[digits.len() as int]);
        }
        if digits2.len() < digits.len() {
            assert(name[17 + digits2.len() as int] == '-');
            assert(name[17 + digits2.len() as int] == digits[digits2.len() as int]);
        }
        let split = 17 + digits.len() as int;
        assert(name.subrange(17, split) =~= digits);
        assert(name.subrange(17, split) =~= digits2);
        crate::text::law_decimal_is_injective(process as nat, process2 as nat);
        assert(name.subrange(split + 1, name.len() - 4) =~= crate::text::signed_decimal(
            suffix as int,
        ));
        assert(name.subrange(split + 1, name.len() - 4) =~= crate::text::signed_decimal(
            suffix2 as int,
        ));
        crate::text::law_signed_decimal_is_injective(suffix as int, suffix2 as int);
    }
}

/// A name of this program begins with a letter, so its path is relative.
proof fn lemma_own_name_is_relative(name: Seq<char>)
    requires
        name.len() > 0,
        name[0] == 's',
    ensures
        vstd::utf8::encode_utf8(name).len() > 0,
        vstd::utf8::encode_utf8(name)[0] != crate::paths::SEPARATOR,
{
    assert(115u32 & 0x7F == 115) by (bit_vector);
    assert('s' as u32 == 115);
}

/// Files of this program with different names have different paths in one directory.
proof fn lemma_paths_differ(directory: Seq<u8>, a: Seq<char>, b: Seq<char>)
    requires
        a.len() > 0,
        b.len() > 0,
        a[0] == 's',
        b[0] == 's',
        a != b,
    ensures
        crate::paths::file_in(directory, a) != crate::paths::file_in(directory, b),
{
    lemma_own_name_is_relative(a);
    lemma_own_name_is_relative(b);
    let path = crate::paths::file_in(directory, a);
    if path == crate::paths::file_in(directory, b) {
        let start = path.len() - vstd::utf8::encode_utf8(a).len();
        crate::paths::law_relative_names_stay_inside(directory, vstd::utf8::encode_utf8(a));
        crate::paths::law_relative_names_stay_inside(directory, vstd::utf8::encode_utf8(b));
        assert(path.skip(start) == vstd::utf8::encode_utf8(a));
        assert(path.skip(start) == vstd::utf8::encode_utf8(b));
        vstd::utf8::encode_utf8_decode_utf8(a);
        vstd::utf8::encode_utf8_decode_utf8(b);
    }
}

/// A saved picture lies in the output directory, and pictures saved in different seconds have
/// different paths: no save overwrites an earlier one.
pub proof fn law_saves_do_not_overwrite(output_dir: Seq<u8>, a: Moment, b: Moment)
    requires
        a.exists_in_calendar(),
        b.exists_in_calendar(),
        a != b,
    ensures
        crate::paths::file_in(output_dir, capture_name(a)).take(output_dir.len() as int)
            == output_dir,
        crate::paths::file_in(output_dir, capture_name(a)) != crate::paths::file_in(
            output_dir,
            capture_name(b),
        ),
{
    reveal_strlit("screenink-");
    assert(capture_name(a)[0] == 's' && capture_name(b)[0] == 's');
    lemma_own_name_is_relative(capture_name(a));
    crate::paths::law_relative_names_stay_inside(
        output_dir,
        vstd::utf8::encode_utf8(capture_name(a)),
    );
    law_capture_names_differ(a, b);
    lemma_paths_differ(output_dir, capture_name(a), capture_name(b));
}

/// Screenshots on their way to the editor do not get mixed up: handed over by different processes,
/// or at different times, they have different paths in the temporary directory.
pub proof fn law_handoffs_do_not_collide(
    temporary_dir: Seq<u8>,
    process: u32,
    suffix: i64,
    process2: u32,
    suffix2: i64,
)
    requires
        process != process2 || suffix != suffix2,
    ensures
        crate::paths::file_in(temporary_dir, handoff_name(process, suffix))
            != crate::paths::file_in(temporary_dir, handoff_name(process2, suffix2)),
{
    reveal_strlit("screenink-portal-");
    let (a, b) = (handoff_name(process, suffix), handoff_name(process2, suffix2));
    assert(a[0] == 's' && b[0] == 's');
    law_handoff_names_differ(process, suffix, process2, suffix2);
    lemma_paths_differ(temporary_dir, a, b);
}

/// Whether a text sorts before another: at the first place where they differ it has the lesser
/// character.
pub open spec fn sorts_before(a: Seq<char>, b: Seq<char>) -> bool {
    exists|i: int|
        {
            &&& 0 <= i < a.len()
            &&& i < b.len()
            &&& #[trigger] a[i] < b[i]
            &&& a.take(i) == b.take(i)
        }
}

impl Moment {
    /// Whether a moment comes before another.
    pub open spec fn earlier(self, other: Moment) -> bool {
        if self.year != other.year {
            self.year < other.year
        } else if self.month != other.month {
            self.month < other.month
        } else if self.day != other.day {
            self.day < other.day
        } else if self.hour != other.hour {
            self.hour < other.hour
        } else if self.minute != other.minute {
            self.minute < other.minute
        } else {
            self.second < other.second
        }
    }
}

/// Where two numbers of two digits first differ, the lesser one has the lesser digit.
proof fn lemma_digits_order(a: nat, b: nat) -> (place: int)
    requires
        a < b < 100,
    ensures
        0 <= place < 2,
        two_digits(a)[place] < two_digits(b)[place],
        two_digits(a).take(place) == two_digits(b).take(place),
{
    if a / 10 < b / 10 {
        assert(two_digits(a).take(0) =~= two_digits(b).take(0));
        0
    } else {
        assert(a % 10 < b % 10);
        assert(two_digits(a).take(1) =~= two_digits(b).take(1));
        1
    }
}

/// Texts that agree up to two numbers of two digits sort as these numbers do.
proof fn lemma_sorts_by_digits(a: Seq<char>, b: Seq<char>, at: int, x: nat, y: nat)
    requires
        x < y < 100,
        0 <= at,
        at + 2 <= a.len(),
        at + 2 <= b.len(),
        a.take(at) == b.take(at),
        a.subrange(at, at + 2) == two_digits(x),
        b.subrange(at, at + 2) == two_digits(y),
    ensures
        sorts_before(a, b),
{
    let place = lemma_digits_order(x, y);
    assert(a[at + place] == two_digits(x)[place]);
    assert(b[at + place] == two_digits(y)[place]);
    assert forall|i: int| 0 <= i < at + place implies a[i] == b[i] by {
        if i < at {
            assert(a[i] == a.take(at)[i]);
            assert(b[i] == b.take(at)[i]);
        } else {
            assert(a[i] == two_digits(x)[i - at]);
            assert(b[i] == two_digits(y)[i - at]);
            assert(two_digits(x)[i - at] == two_digits(x).take(place)[i - at]);
            assert(two_digits(y)[i - at] == two_digits(y).take(place)[i - at]);
        }
    }
    assert(a.take(at + place) =~= b.take(at + place));
}

/// Sorting saved pictures by name sorts them by the time at which they were saved, in years of
/// four digits.
pub proof fn law_names_sort_by_time(a: Moment, b: Moment)
    requires
        a.exists_in_calendar(),
        b.exists_in_calendar(),
        0 <= a.year < 10000,
        0 <= b.year < 10000,
        a.earlier(b),
    ensures
        sorts_before(capture_name(a), capture_name(b)),
{
    reveal_strlit("screenink-");
    let (p, q) = (capture_name(a), capture_name(b));
    let (century_a, century_b) = ((a.year / 100) as nat, (b.year / 100) as nat);
    let (rest_a, rest_b) = ((a.year % 100) as nat, (b.year % 100) as nat);
    lemma_name_layout(a);
    lemma_name_layout(b);
    assert(p.take(10) =~= q.take(10));
    if century_a < century_b {
        lemma_sorts_by_digits(p, q, 10, century_a, century_b);
    } else {
        assert(century_a == century_b);
        lemma_agree_on(p, q, 10);
        if rest_a < rest_b {
            lemma_sorts_by_digits(p, q, 12, rest_a, rest_b);
        } else {
            lemma_agree_on(p, q, 12);
            lemma_agree_beyond(p, q, 14);
            if a.month < b.month {
                lemma_sorts_by_digits(p, q, 15, a.month as nat, b.month as nat);
            } else {
                lemma_agree_on(p, q, 15);
                lemma_agree_beyond(p, q, 17);
                if a.day < b.day {
                    lemma_sorts_by_digits(p, q, 18, a.day as nat, b.day as nat);
                } else {
                    lemma_agree_on(p, q, 18);
                    lemma_agree_beyond(p, q, 20);
                    if a.hour < b.hour {
                        lemma_sorts_by_digits(p, q, 21, a.hour as nat, b.hour as nat);
                    } else {
                        lemma_agree_on(p, q, 21);
                        lemma_agree_beyond(p, q, 23);
                        if a.minute < b.minute {
                            lemma_sorts_by_digits(p, q, 24, a.minute as nat, b.minute as nat);
                        } else {
                            lemma_agree_on(p, q, 24);
                            lemma_agree_beyond(p, q, 26);
                            lemma_sorts_by_digits(p, q, 27, a.second as nat, b.second as nat);
                        }
                    }
                }
            }
        }
    }
}

/// Where the numbers stand in the name of a picture, in years of four digits.
proof fn lemma_name_layout(moment: Moment)
    requires
        moment.exists_in_calendar(),
        0 <= moment.year < 10000,
    ensures
        ({
            let name = capture_name(moment);
            &&& name.len() == 33
            &&& name.take(10) == "screenink-"@
            &&& name.subrange(10, 12) == two_digits((moment.year / 100) as nat)
            &&& name.subrange(12, 14) == two_digits((moment.year % 100) as nat)
            &&& name.subrange(15, 17) == two_digits(moment.month as nat)
            &&& name.subrange(18, 20) == two_digits(moment.day as nat)
            &&& name.subrange(21, 23) == two_digits(moment.hour as nat)
            &&& name.subrange(24, 26) == two_digits(moment.minute as nat)
            &&& name.subrange(27, 29) == two_digits(moment.second as nat)
            &&& name[14] == '-' && name[17] == '-' && name[20] == '_'
            &&& name[23] == '-' && name[26] == '-'
        }),
{
    reveal_strlit("screenink-");
    reveal_strlit(".png");
    let name = capture_name(moment);
    assert(name.take(10) =~= "screenink-"@);
    assert(name.subrange(10, 12) =~= two_digits((moment.year / 100) as nat));
    assert(name.subrange(12, 14) =~= two_digits((moment.year % 100) as nat));
    assert(name.subrange(15, 17) =~= two_digits(moment.month as nat));
    assert(name.subrange(18, 20) =~= two_digits(moment.day as nat));
    assert(name.subrange(21, 23) =~= two_digits(moment.hour as nat));
    assert(name.subrange(24, 26) =~= two_digits(moment.minute as nat));
    assert(name.subrange(27, 29) =~= two_digits(moment.second as nat));
}

proof fn lemma_agree_on(a: Seq<char>, b: Seq<char>, at: int)
    requires
        0 <= at,
        at + 2 <= a.len(),
        at + 2 <= b.len(),
        a.take(at) == b.take(at),
        a.subrange(at, at + 2) == b.subrange(at, at + 2),
    ensures
        a.take(at + 2) == b.take(at + 2),
{
    assert(a.take(at + 2) =~= a.take(at) + a.subrange(at, at + 2));
    assert(b.take(at + 2) =~= b.take(at) + b.subrange(at, at + 2));
}

proof fn lemma_agree_beyond(a: Seq<char>, b: Seq<char>, at: int)
    requires
        0 <= at < a.len(),
        at < b.len(),
        a.take(at) == b.take(at),
        a[at] == b[at],
    ensures
        a.take(at + 1) == b.take(at + 1),
{
    assert(a.take(at + 1) =~= a.take(at).push(a[at]));
    assert(b.take(at + 1) =~= b.take(at).push(b[at]));
}

/// A number of two digits reads back.
proof fn lemma_two_digits_read(value: nat)
    requires
        value < 100,
    ensures
        two_digits(value).len() == 2,
        crate::text::number(two_digits(value)) == value,
        forall|i: int| 0 <= i < 2 ==> '0' <= #[trigger] two_digits(value)[i] <= '9',
{
    reveal_with_fuel(crate::text::number, 3);
    let text = two_digits(value);
    assert(text.drop_last() =~= seq![text[0]]);
    assert(text.drop_last().drop_last() =~= Seq::<char>::empty());
}

/// Four digits and more read back.
proof fn lemma_four_digits_read(value: nat)
    ensures
        four_digits(value).len() >= 4,
        value < 10000 ==> four_digits(value).len() == 4,
        crate::text::number(four_digits(value)) == value,
{
    reveal_with_fuel(crate::text::number, 5);
    crate::text::lemma_decimal_digits(value);
    crate::text::law_decimal_reads_back(value);
    if value < 10000 {
        let text = four_digits(value);
        assert(text.drop_last() =~= seq![text[0], text[1], text[2]]);
        assert(text.drop_last().drop_last() =~= seq![text[0], text[1]]);
        assert(text.drop_last().drop_last().drop_last() =~= seq![text[0]]);
        assert(seq![text[0]].drop_last() =~= Seq::<char>::empty());
    }
}

/// A year reads back: four digits stand for it, and where four do not suffice, or it is negative,
/// digits after a sign.
pub proof fn law_year_reads_back(year: int)
    ensures
        0 <= year < 10000 ==> year_text(year).len() == 4 && crate::text::number(year_text(year))
            == year,
        year >= 10000 ==> year_text(year)[0] == '+' && crate::text::number(year_text(year).skip(1))
            == year,
        year < 0 ==> year_text(year)[0] == '-' && year_text(year).len() >= 5
            && crate::text::number(year_text(year).skip(1)) == -year,
{
    let magnitude = if year < 0 {
        (-year) as nat
    } else {
        year as nat
    };
    lemma_four_digits_read(magnitude);
    if year < 0 || year >= 10000 {
        assert(year_text(year).skip(1) =~= four_digits(magnitude));
    }
}

/// The stamp of a moment tells it: after its year stand the month, the day, the hour, the minute
/// and the second, two digits each, with their separators between them.
pub proof fn law_stamp_tells_the_moment(moment: Moment)
    requires
        moment.exists_in_calendar(),
    ensures
        ({
            let stamp = moment.stamp();
            let rest = year_text(moment.year as int).len() as int;
            let at = |i: int| crate::text::number(stamp.subrange(rest + i, rest + i + 2));
            &&& stamp.len() == rest + 15
            &&& stamp.take(rest) == year_text(moment.year as int)
            &&& stamp[rest] == '-' && stamp[rest + 3] == '-' && stamp[rest + 6] == '_'
            &&& stamp[rest + 9] == '-' && stamp[rest + 12] == '-'
            &&& at(1) == moment.month
            &&& at(4) == moment.day
            &&& at(7) == moment.hour
            &&& at(10) == moment.minute
            &&& at(13) == moment.second
        }),
{
    let stamp = moment.stamp();
    let rest = year_text(moment.year as int).len() as int;
    lemma_two_digits_read(moment.month as nat);
    lemma_two_digits_read(moment.day as nat);
    lemma_two_digits_read(moment.hour as nat);
    lemma_two_digits_read(moment.minute as nat);
    lemma_two_digits_read(moment.second as nat);
    assert(stamp.take(rest) =~= year_text(moment.year as int));
    assert(stamp.subrange(rest + 1, rest + 3) =~= two_digits(moment.month as nat));
    assert(stamp.subrange(rest + 4, rest + 6) =~= two_digits(moment.day as nat));
    assert(stamp.subrange(rest + 7, rest + 9) =~= two_digits(moment.hour as nat));
    assert(stamp.subrange(rest + 10, rest + 12) =~= two_digits(moment.minute as nat));
    assert(stamp.subrange(rest + 13, rest + 15) =~= two_digits(moment.second as nat));
}

/// The clock of a moment tells it to the millisecond: date and time of day stand apart by a space,
/// the time has colons, and three digits after a point are the milliseconds.
pub proof fn law_clock_tells_the_moment(moment: Moment, millisecond: nat)
    requires
        moment.exists_in_calendar(),
        millisecond < 1000,
    ensures
        ({
            let clock = moment.clock(millisecond);
            let rest = year_text(moment.year as int).len() as int;
            let at = |i: int| crate::text::number(clock.subrange(rest + i, rest + i + 2));
            &&& clock.len() == rest + 19
            &&& clock.take(rest) == year_text(moment.year as int)
            &&& clock[rest] == '-' && clock[rest + 3] == '-' && clock[rest + 6] == ' '
            &&& clock[rest + 9] == ':' && clock[rest + 12] == ':' && clock[rest + 15] == '.'
            &&& at(1) == moment.month
            &&& at(4) == moment.day
            &&& at(7) == moment.hour
            &&& at(10) == moment.minute
            &&& at(13) == moment.second
            &&& crate::text::number(clock.subrange(rest + 16, rest + 19)) == millisecond
        }),
{
    let clock = moment.clock(millisecond);
    let rest = year_text(moment.year as int).len() as int;
    lemma_two_digits_read(moment.month as nat);
    lemma_two_digits_read(moment.day as nat);
    lemma_two_digits_read(moment.hour as nat);
    lemma_two_digits_read(moment.minute as nat);
    lemma_two_digits_read(moment.second as nat);
    assert(clock.take(rest) =~= year_text(moment.year as int));
    assert(clock.subrange(rest + 1, rest + 3) =~= two_digits(moment.month as nat));
    assert(clock.subrange(rest + 4, rest + 6) =~= two_digits(moment.day as nat));
    assert(clock.subrange(rest + 7, rest + 9) =~= two_digits(moment.hour as nat));
    assert(clock.subrange(rest + 10, rest + 12) =~= two_digits(moment.minute as nat));
    assert(clock.subrange(rest + 13, rest + 15) =~= two_digits(moment.second as nat));
    let text = three_digits(millisecond);
    assert(clock.subrange(rest + 16, rest + 19) =~= text);
    reveal_with_fuel(crate::text::number, 4);
    assert(text.drop_last() =~= seq![text[0], text[1]]);
    assert(text.drop_last().drop_last() =~= seq![text[0]]);
    assert(seq![text[0]].drop_last() =~= Seq::<char>::empty());
}

/// The calendar is the Gregorian one: its months have their days, of February the 29th in every
/// fourth year, but of the full centuries in every fourth only; the day has 24 hours of 60 minutes
/// of 60 seconds.
pub proof fn law_calendar_is_gregorian(moment: Moment)
    ensures
        moment.exists_in_calendar() <==> {
            let leap = moment.year % 400 == 0 || (moment.year % 4 == 0 && moment.year % 100 != 0);
            let february = if leap {
                29int
            } else {
                28
            };
            let days = seq![31, february, 31, 30, 31, 30, 31, 31, 30, 31, 30, 31];
            &&& -262143 <= moment.year <= 262142
            &&& 1 <= moment.month <= 12
            &&& 1 <= moment.day <= days[moment.month - 1]
            &&& moment.hour <= 23
            &&& moment.minute <= 59
            &&& moment.second <= 59
        },
{
    let m = moment.month;
    assert(1 <= m <= 12 ==> m == 1 || m == 2 || m == 3 || m == 4 || m == 5 || m == 6 || m == 7 || m
        == 8 || m == 9 || m == 10 || m == 11 || m == 12);
}

/// The names of files are what they tell between their beginning and their ending: a picture its
/// moment, a screenshot on its way its process and its number, one from the server its process.
pub proof fn law_parts_of_names(moment: Moment, process: u32, suffix: i64)
    ensures
        ({
            let name = capture_name(moment);
            &&& name.len() == 14 + moment.stamp().len()
            &&& name.take(10) == "screenink-"@
            &&& name.subrange(10, name.len() - 4) == moment.stamp()
            &&& name.skip(name.len() - 4) == ".png"@
        }),
        ({
            let name = handoff_name(process, suffix);
            let split = 17 + crate::text::decimal(process as nat).len() as int;
            &&& name.len() == split + 5 + crate::text::signed_decimal(suffix as int).len()
            &&& name.take(17) == "screenink-portal-"@
            &&& name.subrange(17, split) == crate::text::decimal(process as nat)
            &&& name[split] == '-'
            &&& name.subrange(split + 1, name.len() - 4) == crate::text::signed_decimal(
                suffix as int,
            )
            &&& name.skip(name.len() - 4) == ".png"@
        }),
        ({
            let name = source_name(process);
            &&& name.len() == 21 + crate::text::decimal(process as nat).len()
            &&& name.take(17) == "screenink-source-"@
            &&& name.subrange(17, name.len() - 4) == crate::text::decimal(process as nat)
            &&& name.skip(name.len() - 4) == ".png"@
        }),
{
    reveal_strlit("screenink-");
    reveal_strlit("screenink-portal-");
    reveal_strlit("screenink-source-");
    reveal_strlit(".png");
    let name = capture_name(moment);
    assert(name.take(10) =~= "screenink-"@);
    assert(name.subrange(10, name.len() - 4) =~= moment.stamp());
    assert(name.skip(name.len() - 4) =~= ".png"@);
    let name = handoff_name(process, suffix);
    let split = 17 + crate::text::decimal(process as nat).len() as int;
    assert(name.take(17) =~= "screenink-portal-"@);
    assert(name.subrange(17, split) =~= crate::text::decimal(process as nat));
    assert(name.subrange(split + 1, name.len() - 4) =~= crate::text::signed_decimal(suffix as int));
    assert(name.skip(name.len() - 4) =~= ".png"@);
    let name = source_name(process);
    assert(name.take(17) =~= "screenink-source-"@);
    assert(name.subrange(17, name.len() - 4) =~= crate::text::decimal(process as nat));
    assert(name.skip(name.len() - 4) =~= ".png"@);
}

/// The number of a screenshot is the time in nanoseconds: the count itself where there is one, and
/// otherwise a thousand for each microsecond, so that later screenshots have greater numbers.
pub proof fn law_number_is_the_time(nanoseconds: i64, microseconds: i64, later: i64)
    ensures
        time_number(Some(nanoseconds), microseconds) == nanoseconds,
        time_number(None, microseconds) == microseconds * 1000,
        microseconds < later ==> time_number(None, microseconds) < time_number(None, later),
{
}

} // verus!
