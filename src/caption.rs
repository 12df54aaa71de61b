use vstd::prelude::*;
use vstd::string::*;
use chrono::Datelike;

verus! {

/// A calendar date whose year has four digits.
#[derive(Debug, Clone, Copy, PartialEq, Eq, Structural)]
pub struct CalendarDate {
    pub year: u16,
    pub month: u8,
    pub day: u8,
}

impl CalendarDate {
    pub open spec fn wf(&self) -> bool {
        self.year <= 9999 && 1 <= self.month <= 12 && 1 <= self.day <= 31
    }

    /// The date with these parts, if the year has at most four digits and
    /// month and day are in range.
    pub fn new(year: i32, month: u32, day: u32) -> (r: Option<CalendarDate>)
        ensures
            r is Some <==> (0 <= year <= 9999 && 1 <= month <= 12 && 1 <= day <= 31),
            r matches Some(d) ==> d.wf() && d.year == year && d.month == month && d.day == day,
    {
        if 0 <= year && year <= 9999 && 1 <= month && month <= 12 && 1 <= day && day <= 31 {
            Some(CalendarDate { year: year as u16, month: month as u8, day: day as u8 })
        } else {
            None
        }
    }
}

pub open spec fn digit_char(n: nat) -> char {
    seq!['0', '1', '2', '3', '4', '5', '6', '7', '8', '9'][n as int % 10]
}

pub open spec fn is_digit(c: char) -> bool {
    '0' <= c && c <= '9'
}

/// `YYYY-MM-DD`, zero-padded.
pub open spec fn date_text(d: CalendarDate) -> Seq<char> {
    seq![
        digit_char(d.year as nat / 1000),
        digit_char(d.year as nat / 100),
        digit_char(d.year as nat / 10),
        digit_char(d.year as nat),
        '-',
        digit_char(d.month as nat / 10),
        digit_char(d.month as nat),
        '-',
        digit_char(d.day as nat / 10),
        digit_char(d.day as nat),
    ]
}

/// The caption: the date, then ` - `, then the label.
pub open spec fn spec_caption(d: CalendarDate, label: Seq<char>) -> Seq<char> {
    date_text(d) + seq![' ', '-', ' '] + label
}

/// `s` begins with `DDDD-DD-DD - `, each `D` a decimal digit.
pub open spec fn begins_with_date(s: Seq<char>) -> bool {
    &&& s.len() >= 13
    &&& forall|i: int| 0 <= i < 4 ==> is_digit(#[trigger] s[i])
    &&& s[4] == '-'
    &&& is_digit(s[5]) && is_digit(s[6])
    &&& s[7] == '-'
    &&& is_digit(s[8]) && is_digit(s[9])
    &&& s[10] == ' ' && s[11] == '-' && s[12] == ' '
}

/// The decimal digit of `n % 10`.
fn digit_str(n: u16) -> (r: &'static str)
    ensures
        r@ == seq![digit_char(n as nat)],
{
    proof {
        reveal_strlit("0");
        reveal_strlit("1");
        reveal_strlit("2");
        reveal_strlit("3");
        reveal_strlit("4");
        reveal_strlit("5");
        reveal_strlit("6");
        reveal_strlit("7");
        reveal_strlit("8");
        reveal_strlit("9");
    }
    let r = match n % 10 {
        0 => "0",
        1 => "1",
        2 => "2",
        3 => "3",
        4 => "4",
        5 => "5",
        6 => "6",
        7 => "7",
        8 => "8",
        _ => "9",
    };
    assert(r@ =~= seq![digit_char(n as nat)]);
    r
}

/// Formats the caption `YYYY-MM-DD - label`.
pub fn caption_text(date: CalendarDate, label: &str) -> (r: String)
    requires
        date.wf(),
    ensures
        r@ == spec_caption(date, label@),
        begins_with_date(r@),
{
    let y = date.year;
    let m = date.month as u16;
    let d = date.day as u16;
    let mut s = String::from_str(digit_str(y / 1000));
    s.append(digit_str(y / 100));
    s.append(digit_str(y / 10));
    s.append(digit_str(y));
    s.append("-");
    s.append(digit_str(m / 10));
    s.append(digit_str(m));
    s.append("-");
    s.append(digit_str(d / 10));
    s.append(digit_str(d));
    s.append(" - ");
    s.append(label);
    proof {
        reveal_strlit("-");
        reveal_strlit(" - ");
        assert(s@ =~= spec_caption(date, label@));
    }
    s
}

/// Relies on `std::time::SystemTime::duration_since`: how far the clock is
/// from the Unix epoch, as whole seconds and nanoseconds, `Ok` at or after
/// it and `Err` before it.
#[verifier::external_body]
fn offset_from_epoch() -> (r: Result<(u64, u32), (u64, u32)>) {
    match std::time::SystemTime::now().duration_since(std::time::UNIX_EPOCH) {
        Ok(d) => Ok((d.as_secs(), d.subsec_nanos())),
        Err(e) => Err((e.duration().as_secs(), e.duration().subsec_nanos())),
    }
}

/// The Unix time, floored to a whole second, of a clock reading `after` or
/// `before` the epoch; `None` where it does not fit an `i64`.
pub fn unix_seconds(reading: Result<(u64, u32), (u64, u32)>) -> (r: Option<i64>)
    ensures
        match reading {
            Ok((s, _)) => if s <= i64::MAX {
                r == Some(s as i64)
            } else {
                r is None
            },
            Err((s, n)) => {
                let t = if n > 0 {
                    -s - 1
                } else {
                    -s
                };
                if t >= i64::MIN {
                    r == Some(t as i64)
                } else {
                    r is None
                }
            },
        },
{
    match reading {
        Ok((s, _)) => if s <= i64::MAX as u64 {
            Some(s as i64)
        } else {
            None
        },
        Err((s, n)) => {
            let t: i128 = if n > 0 {
                -(s as i128) - 1
            } else {
                -(s as i128)
            };
            if t >= i64::MIN as i128 {
                Some(t as i64)
            } else {
                None
            }
        },
    }
}

/// The UTC calendar date (year, month, day) of a Unix time in seconds, as
/// chrono gives it, or `None` outside chrono's range.
pub uninterp spec fn utc_date_of(secs: i64) -> Option<(i32, u32, u32)>;

/// Relies on `chrono::DateTime::from_timestamp` and `Datelike`: the UTC date
/// of a Unix time, `None` out of range, month 1 to 12 and day 1 to 31.
#[verifier::external_body]
fn date_of_timestamp(secs: i64) -> (r: Option<(i32, u32, u32)>)
    ensures
        r == utc_date_of(secs),
        r matches Some(t) ==> 1 <= t.1 <= 12 && 1 <= t.2 <= 31,
{
    let day = chrono::DateTime::from_timestamp(secs, 0)?.date_naive();
    Some((day.year(), day.month(), day.day()))
}

/// What `caption_for_date` gives for a chrono date.
pub open spec fn spec_caption_for_date(date: Option<(i32, u32, u32)>, label: Seq<char>) -> Option<
    Seq<char>,
> {
    match date {
        Some((y, m, d)) => if 0 <= y <= 9999 && 1 <= m <= 12 && 1 <= d <= 31 {
            Some(
                spec_caption(CalendarDate { year: y as u16, month: m as u8, day: d as u8 }, label),
            )
        } else {
            None
        },
        None => None,
    }
}

/// The caption for a date as chrono gives it; `None` where there is no
/// date or its year does not have four digits.
pub fn caption_for_date(date: Option<(i32, u32, u32)>, label: &str) -> (r: Option<String>)
    ensures
        match spec_caption_for_date(date, label@) {
            Some(c) => r is Some && r->Some_0@ == c,
            None => r is None,
        },
{
    match date {
        Some((y, m, d)) => match CalendarDate::new(y, m, d) {
            Some(day) => Some(caption_text(day, label)),
            None => None,
        },
        None => None,
    }
}

/// The caption for the UTC date of Unix time `secs`.
pub fn caption_at(secs: i64, label: &str) -> (r: Option<String>)
    ensures
        match spec_caption_for_date(utc_date_of(secs), label@) {
            Some(c) => r is Some && r->Some_0@ == c,
            None => r is None,
        },
{
    caption_for_date(date_of_timestamp(secs), label)
}

/// The caption for today's UTC date; `None` only where the clock reads
/// outside the range of dates with a four-digit year.
pub fn current_caption(label: &str) -> (r: Option<String>)
    ensures
        r matches Some(s) ==> begins_with_date(s@) && s@.subrange(13, s@.len() as int) == label@
            && exists|d: CalendarDate| d.wf() && s@ == spec_caption(d, label@),
{
    let secs = match unix_seconds(offset_from_epoch()) {
        Some(secs) => secs,
        None => return None,
    };
    let (y, m, d) = match date_of_timestamp(secs) {
        Some(t) => t,
        None => return None,
    };
    match CalendarDate::new(y, m, d) {
        Some(day) => {
            let s = caption_text(day, label);
            proof {
                lemma_caption_shape(day, label@);
            }
            Some(s)
        },
        None => None,
    }
}

/// Every caption begins with its date and ends with its label.
pub proof fn lemma_caption_shape(d: CalendarDate, label: Seq<char>)
    requires
        d.wf(),
    ensures
        begins_with_date(spec_caption(d, label)),
        spec_caption(d, label).subrange(13, spec_caption(d, label).len() as int) == label,
{
    assert(spec_caption(d, label).subrange(13, spec_caption(d, label).len() as int) =~= label);
}

} // verus!
