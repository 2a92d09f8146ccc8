//! Schedule text: the cron expression a schedule stands for, and the short
//! words a row shows for it.
//!
//! A schedule is a five-field cron expression or one of the presets
//! `@hourly`, `@daily`, `@weekly`, `@monthly`, `@yearly` (`@annually`).
//! Rows show presets, and the plain daily, weekday, weekend and single-day
//! expressions, in words; any other expression is shown as written.

use vstd::prelude::*;

use crate::text::{
    chars_equal, chars_of, decimal, decimal_string, lemma_trim_idempotent, owned, push_all, string_of, trim, trim_chars,
    trim_end, trim_start, TrimSet,
};

verus! {

/// Why a schedule was refused.
#[derive(Debug, Clone, Copy, PartialEq, Eq, Structural)]
pub enum ScheduleError {
    /// The schedule is empty or blank.
    Empty,
}

/// The cron expression of a preset, if `s` is one.
pub open spec fn preset_cron(s: Seq<char>) -> Option<Seq<char>> {
    if s == "@hourly"@ {
        Some("0 * * * *"@)
    } else if s == "@daily"@ {
        Some("0 0 * * *"@)
    } else if s == "@weekly"@ {
        Some("0 0 * * 0"@)
    } else if s == "@monthly"@ {
        Some("0 0 1 * *"@)
    } else if s == "@yearly"@ || s == "@annually"@ {
        Some("0 0 1 1 *"@)
    } else {
        None
    }
}

/// The cron expression a schedule stands for: blank is refused; a preset
/// becomes its expression; anything else is kept, without surrounding
/// whitespace.
pub open spec fn normalize_spec(raw: Seq<char>) -> Result<Seq<char>, ScheduleError> {
    let t = trim(TrimSet::Whitespace, raw);
    if t.len() == 0 {
        Err(ScheduleError::Empty)
    } else {
        match preset_cron(t) {
            Some(c) => Ok(c),
            None => Ok(t),
        }
    }
}

fn text_is(v: &Vec<char>, lit: &str) -> (r: bool)
    ensures
        r == (v@ == lit@),
{
    let l = chars_of(lit);
    chars_equal(v.as_slice(), l.as_slice())
}

pub fn normalize_schedule(raw: &str) -> (r: Result<String, ScheduleError>)
    ensures
        match normalize_spec(raw@) {
            Ok(c) => r matches Ok(s) && s@ == c,
            Err(e) => r == Err::<String, ScheduleError>(e),
        },
{
    let chars = chars_of(raw);
    let t = trim_chars(TrimSet::Whitespace, chars.as_slice());
    if t.len() == 0 {
        return Err(ScheduleError::Empty);
    }
    if text_is(&t, "@hourly") {
        Ok(owned("0 * * * *"))
    } else if text_is(&t, "@daily") {
        Ok(owned("0 0 * * *"))
    } else if text_is(&t, "@weekly") {
        Ok(owned("0 0 * * 0"))
    } else if text_is(&t, "@monthly") {
        Ok(owned("0 0 1 * *"))
    } else if text_is(&t, "@yearly") || text_is(&t, "@annually") {
        Ok(owned("0 0 1 1 *"))
    } else {
        Ok(string_of(t.as_slice()))
    }
}

/// The fields of `s` between single spaces.
pub open spec fn fields(s: Seq<char>) -> Seq<Seq<char>>
    decreases s.len(),
{
    if s.len() == 0 {
        seq![Seq::empty()]
    } else {
        let f = fields(s.drop_last());
        if s.last() == ' ' {
            f.push(Seq::empty())
        } else {
            f.update(f.len() - 1, f.last().push(s.last()))
        }
    }
}

proof fn lemma_fields_nonempty(s: Seq<char>)
    ensures
        fields(s).len() >= 1,
    decreases s.len(),
{
    if s.len() > 0 {
        lemma_fields_nonempty(s.drop_last());
    }
}

pub open spec fn is_digit(c: char) -> bool {
    '0' <= c <= '9'
}

pub open spec fn digit_value(c: char) -> nat {
    (c as u32 - 48) as nat
}

/// A one- or two-digit number.
pub open spec fn small_number(f: Seq<char>) -> Option<nat> {
    if f.len() == 1 && is_digit(f[0]) {
        Some(digit_value(f[0]))
    } else if f.len() == 2 && is_digit(f[0]) && is_digit(f[1]) {
        Some(10 * digit_value(f[0]) + digit_value(f[1]))
    } else {
        None
    }
}

/// The words for a day-of-week field that rows show in words.
pub open spec fn day_words(f: Seq<char>) -> Option<Seq<char>> {
    if f == "*"@ {
        Some("Daily"@)
    } else if f == "1-5"@ {
        Some("Weekdays"@)
    } else if f == "0,6"@ {
        Some("Weekends"@)
    } else if f == "0"@ {
        Some("Sundays"@)
    } else if f == "1"@ {
        Some("Mondays"@)
    } else if f == "2"@ {
        Some("Tuesdays"@)
    } else if f == "3"@ {
        Some("Wednesdays"@)
    } else if f == "4"@ {
        Some("Thursdays"@)
    } else if f == "5"@ {
        Some("Fridays"@)
    } else if f == "6"@ {
        Some("Saturdays"@)
    } else {
        None
    }
}

/// A time of day on a twelve-hour clock (`6:30pm`, `12:15am`).
pub open spec fn time_of_day(hour: nat, minute: nat) -> Seq<char> {
    let h12: nat = if hour % 12 == 0 {
        12
    } else {
        hour % 12
    };
    decimal(h12) + ":"@ + (if minute < 10 {
        "0"@ + decimal(minute)
    } else {
        decimal(minute)
    }) + (if hour < 12 {
        "am"@
    } else {
        "pm"@
    })
}

/// The words for a preset, if `s` is one.
pub open spec fn preset_words(s: Seq<char>) -> Option<Seq<char>> {
    if s == "@hourly"@ {
        Some("Hourly"@)
    } else if s == "@daily"@ {
        Some("Daily"@)
    } else if s == "@weekly"@ {
        Some("Weekly"@)
    } else if s == "@monthly"@ {
        Some("Monthly"@)
    } else if s == "@yearly"@ || s == "@annually"@ {
        Some("Yearly"@)
    } else {
        None
    }
}

/// How a row shows a schedule: a preset in one word; `M H * * D` with a
/// minute below 60, an hour below 24 and a day field of every day, `1-5`,
/// `0,6` or a single day as the days and the time; anything else as
/// written.
pub open spec fn humanize_spec(raw: Seq<char>) -> Seq<char> {
    match preset_words(raw) {
        Some(w) => w,
        None => {
            let f = fields(raw);
            if f.len() == 5 && f[2] == "*"@ && f[3] == "*"@ && small_number(f[0]) is Some
                && small_number(f[0])->Some_0 < 60 && small_number(f[1]) is Some && small_number(f[1])->Some_0 < 24
                && day_words(f[4]) is Some {
                day_words(f[4])->Some_0 + " "@ + time_of_day(small_number(f[1])->Some_0, small_number(f[0])->Some_0)
            } else {
                raw
            }
        },
    }
}

fn split_fields(chars: &Vec<char>) -> (r: Vec<Vec<char>>)
    ensures
        r@.len() == fields(chars@).len(),
        forall|i: int| 0 <= i < r@.len() ==> (#[trigger] r@[i])@ == fields(chars@)[i],
{
    let mut done: Vec<Vec<char>> = Vec::new();
    let mut cur: Vec<char> = Vec::new();
    let mut i: usize = 0;
    assert(chars@.take(0) =~= Seq::<char>::empty());
    while i < chars.len()
        invariant
            i <= chars.len(),
            done@.len() + 1 == fields(chars@.take(i as int)).len(),
            forall|k: int| 0 <= k < done@.len() ==> (#[trigger] done@[k])@ == fields(chars@.take(i as int))[k],
            cur@ == fields(chars@.take(i as int)).last(),
        decreases chars.len() - i,
    {
        let ghost prev = fields(chars@.take(i as int));
        proof {
            assert(chars@.take(i + 1).drop_last() =~= chars@.take(i as int));
            assert(chars@.take(i + 1).last() == chars@[i as int]);
            lemma_fields_nonempty(chars@.take(i as int));
        }
        let c = chars[i];
        if c == ' ' {
            let ghost old_done = done@;
            done.push(cur);
            cur = Vec::new();
            proof {
                let now = fields(chars@.take(i + 1));
                assert(now == prev.push(Seq::empty()));
                assert forall|k: int| 0 <= k < done@.len() implies (#[trigger] done@[k])@ == now[k] by {
                    if k < old_done.len() {
                        assert(done@[k] == old_done[k]);
                    }
                }
            }
        } else {
            cur.push(c);
            proof {
                let now = fields(chars@.take(i + 1));
                assert(now == prev.update(prev.len() - 1, prev.last().push(c)));
                assert forall|k: int| 0 <= k < done@.len() implies (#[trigger] done@[k])@ == now[k] by {
                    assert(now[k] == prev[k]);
                }
            }
        }
        i = i + 1;
    }
    assert(chars@.take(chars.len() as int) =~= chars@);
    let ghost before = done@;
    done.push(cur);
    proof {
        assert forall|k: int| 0 <= k < done@.len() implies (#[trigger] done@[k])@ == fields(chars@)[k] by {
            if k < before.len() {
                assert(done@[k] == before[k]);
            }
        }
    }
    done
}

fn small_number_of(f: &Vec<char>) -> (r: Option<u32>)
    ensures
        match small_number(f@) {
            Some(n) => r == Some(n as u32),
            None => r is None,
        },
{
    if f.len() == 1 && '0' <= f[0] && f[0] <= '9' {
        Some(f[0] as u32 - 48)
    } else if f.len() == 2 && '0' <= f[0] && f[0] <= '9' && '0' <= f[1] && f[1] <= '9' {
        Some(10 * (f[0] as u32 - 48) + (f[1] as u32 - 48))
    } else {
        None
    }
}

fn day_words_of(f: &Vec<char>) -> (r: Option<&'static str>)
    ensures
        match day_words(f@) {
            Some(w) => r matches Some(s) && s@ == w,
            None => r is None,
        },
{
    if text_is(f, "*") {
        Some("Daily")
    } else if text_is(f, "1-5") {
        Some("Weekdays")
    } else if text_is(f, "0,6") {
        Some("Weekends")
    } else if text_is(f, "0") {
        Some("Sundays")
    } else if text_is(f, "1") {
        Some("Mondays")
    } else if text_is(f, "2") {
        Some("Tuesdays")
    } else if text_is(f, "3") {
        Some("Wednesdays")
    } else if text_is(f, "4") {
        Some("Thursdays")
    } else if text_is(f, "5") {
        Some("Fridays")
    } else if text_is(f, "6") {
        Some("Saturdays")
    } else {
        None
    }
}

/// A time of day on a twelve-hour clock (see [`time_of_day`]).
pub fn time_of_day_text(hour: u32, minute: u32) -> (r: String)
    ensures
        r@ == time_of_day(hour as nat, minute as nat),
{
    let h12 = if hour % 12 == 0 {
        12
    } else {
        hour % 12
    };
    let mut r = decimal_string(h12 as u64);
    push_all(&mut r, ":");
    if minute < 10 {
        push_all(&mut r, "0");
    }
    let m = decimal_string(minute as u64);
    push_all(&mut r, m.as_str());
    push_all(&mut r, if hour < 12 { "am" } else { "pm" });
    r
}

fn preset_words_of(raw: &Vec<char>) -> (r: Option<&'static str>)
    ensures
        match preset_words(raw@) {
            Some(w) => r matches Some(s) && s@ == w,
            None => r is None,
        },
{
    if text_is(raw, "@hourly") {
        Some("Hourly")
    } else if text_is(raw, "@daily") {
        Some("Daily")
    } else if text_is(raw, "@weekly") {
        Some("Weekly")
    } else if text_is(raw, "@monthly") {
        Some("Monthly")
    } else if text_is(raw, "@yearly") || text_is(raw, "@annually") {
        Some("Yearly")
    } else {
        None
    }
}

/// How a row shows a schedule (see [`humanize_spec`]).
pub fn humanize_schedule(raw: &str) -> (r: String)
    ensures
        r@ == humanize_spec(raw@),
{
    let chars = chars_of(raw);
    if let Some(w) = preset_words_of(&chars) {
        return owned(w);
    }
    let f = split_fields(&chars);
    if f.len() == 5 && text_is(&f[2], "*") && text_is(&f[3], "*") {
        let minute = small_number_of(&f[0]);
        let hour = small_number_of(&f[1]);
        let days = day_words_of(&f[4]);
        match (minute, hour, days) {
            (Some(m), Some(h), Some(d)) => {
                if m < 60 && h < 24 {
                    let mut r = owned(d);
                    push_all(&mut r, " ");
                    let t = time_of_day_text(h, m);
                    push_all(&mut r, t.as_str());
                    return r;
                }
            },
            _ => {},
        }
    }
    owned(raw)
}


/// A normalized schedule normalizes to itself.
pub proof fn law_normalize_idempotent(raw: Seq<char>)
    requires
        normalize_spec(raw) is Ok,
    ensures
        normalize_spec(normalize_spec(raw)->Ok_0) == normalize_spec(raw),
{
    let t = trim(TrimSet::Whitespace, raw);
    lemma_trim_idempotent(TrimSet::Whitespace, raw);
    match preset_cron(t) {
        Some(c) => {
            reveal_strlit("0 * * * *");
            reveal_strlit("0 0 * * *");
            reveal_strlit("0 0 * * 0");
            reveal_strlit("0 0 1 * *");
            reveal_strlit("0 0 1 1 *");
            reveal_strlit("@hourly");
            reveal_strlit("@daily");
            reveal_strlit("@weekly");
            reveal_strlit("@monthly");
            reveal_strlit("@yearly");
            reveal_strlit("@annually");
            assert(trim_start(TrimSet::Whitespace, c) == c);
            assert(trim_end(TrimSet::Whitespace, c) == c);
            assert(preset_cron(c) is None);
        },
        None => {},
    }
}


/// The abbreviated English name of month `m` (1 to 12).
pub open spec fn month_abbrev(m: u32) -> Seq<char> {
    if m == 1 {
        "Jan"@
    } else if m == 2 {
        "Feb"@
    } else if m == 3 {
        "Mar"@
    } else if m == 4 {
        "Apr"@
    } else if m == 5 {
        "May"@
    } else if m == 6 {
        "Jun"@
    } else if m == 7 {
        "Jul"@
    } else if m == 8 {
        "Aug"@
    } else if m == 9 {
        "Sep"@
    } else if m == 10 {
        "Oct"@
    } else if m == 11 {
        "Nov"@
    } else {
        "Dec"@
    }
}

fn month_abbrev_of(m: u32) -> (r: &'static str)
    requires
        1 <= m <= 12,
    ensures
        r@ == month_abbrev(m),
{
    match m {
        1 => "Jan",
        2 => "Feb",
        3 => "Mar",
        4 => "Apr",
        5 => "May",
        6 => "Jun",
        7 => "Jul",
        8 => "Aug",
        9 => "Sep",
        10 => "Oct",
        11 => "Nov",
        _ => "Dec",
    }
}

/// A local date and time as a row shows it (`Jul 23 9:00am`).
pub open spec fn moment_text(month: u32, day: u32, hour: u32, minute: u32) -> Seq<char> {
    month_abbrev(month) + " "@ + decimal(day as nat) + " "@ + time_of_day(hour as nat, minute as nat)
}

/// The "when next" and "when last" parts of a row's subtitle.
#[derive(Debug, Clone, Copy, PartialEq, Eq, Structural)]
pub enum MomentKind {
    Next,
    LastRan,
}

/// A subtitle part for a moment: `Next Jul 23 9:00am`, `Last ran Jul 22
/// 9:00am`.
pub fn moment_fragment(kind: MomentKind, month: u32, day: u32, hour: u32, minute: u32) -> (r: String)
    requires
        1 <= month <= 12,
    ensures
        r@ == (match kind {
            MomentKind::Next => "Next "@,
            MomentKind::LastRan => "Last ran "@,
        }) + moment_text(month, day, hour, minute),
{
    let mut r = owned(match kind {
        MomentKind::Next => "Next ",
        MomentKind::LastRan => "Last ran ",
    });
    push_all(&mut r, month_abbrev_of(month));
    push_all(&mut r, " ");
    let d = decimal_string(day as u64);
    push_all(&mut r, d.as_str());
    push_all(&mut r, " ");
    let t = time_of_day_text(hour, minute);
    push_all(&mut r, t.as_str());
    r
}

} // verus!
