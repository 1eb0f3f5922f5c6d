//! When the gateway refreshes its Gemini sessions and keeps Gemini Web warm.
use crate::config::WarmGenerateConfig;
use crate::text;
use chrono::Timelike;
use vstd::prelude::*;

verus! {

/// The seconds between two refreshes of the sessions: a minute less than a
/// session is trusted for, but never under a minute.
pub fn session_warmup_period(refresh_interval_secs: u64) -> (r: u64)
    ensures
        r == if refresh_interval_secs >= 120 {
            refresh_interval_secs - 60
        } else {
            60
        },
        r >= 60,
        refresh_interval_secs >= 120 ==> r + 60 == refresh_interval_secs,
{
    if refresh_interval_secs >= 120 {
        refresh_interval_secs - 60
    } else {
        60
    }
}

/// The seconds between two warm-up requests, and before the first one.
#[derive(Debug, Clone, Copy, PartialEq, Eq, Structural)]
pub struct WarmupSchedule {
    pub interval_secs: u64,
    pub initial_delay_secs: u64,
}

/// The schedule of the warm-up requests, where they are switched on: an interval
/// of a minute at least, and a first delay no longer than the interval.
pub fn generate_warmup_schedule(config: &WarmGenerateConfig) -> (r: Option<WarmupSchedule>)
    ensures
        r is Some <==> config.enabled,
        r matches Some(s) ==> {
            &&& s.interval_secs == if config.interval < 60 {
                60
            } else {
                config.interval
            }
            &&& s.initial_delay_secs == if config.initial_delay < s.interval_secs {
                config.initial_delay
            } else {
                s.interval_secs
            }
        },
        r matches Some(s) ==> {
            &&& s.interval_secs >= 60
            &&& s.interval_secs >= config.interval
            &&& s.interval_secs == 60 || s.interval_secs == config.interval
            &&& s.initial_delay_secs <= s.interval_secs
            &&& s.initial_delay_secs <= config.initial_delay
        },
{
    if !config.enabled {
        return None;
    }
    let interval_secs: u64 = if config.interval < 60 {
        60
    } else {
        config.interval
    };
    let initial_delay_secs: u64 = if config.initial_delay < interval_secs {
        config.initial_delay
    } else {
        interval_secs
    };
    Some(WarmupSchedule { interval_secs, initial_delay_secs })
}

/// The hour and the minute of `chrono::Local::now`, as `chrono::Timelike` hands
/// them out: an hour from 0 to 23 and a minute from 0 to 59. Which ones is up to
/// the clock and the time zone of the machine.
#[verifier::external_body]
fn local_hour_minute() -> (r: (u32, u32))
    ensures
        r.0 <= 23,
        r.1 <= 59,
{
    let now = chrono::Local::now();
    (now.hour(), now.minute())
}

/// Whether warm-up requests are due where the clock shows that hour and minute: always
/// where no period is given.
pub open spec fn due_at(periods: Seq<Seq<char>>, hour: u32, minute: u32) -> bool {
    periods.len() == 0 || active_at(periods, (hour * 60 + minute) as nat)
}

/// Whether warm-up requests are due where the clock shows that hour and minute.
pub fn warm_generate_active_at_clock(periods: &[String], hour: u32, minute: u32) -> (r: bool)
    requires
        hour <= 23,
        minute <= 59,
    ensures
        r == due_at(text::views(periods@), hour, minute),
{
    if periods.len() == 0 {
        return true;
    }
    warm_generate_active_at(periods, hour * 60 + minute)
}

/// Whether warm-up requests are due now.
pub fn warm_generate_active_now(periods: &[String]) -> (r: bool)
    ensures
        exists|hour: u32, minute: u32|
            hour <= 23 && minute <= 59 && r == #[trigger] due_at(
                text::views(periods@),
                hour,
                minute,
            ),
{
    let (hour, minute) = local_hour_minute();
    warm_generate_active_at_clock(periods, hour, minute)
}

/// Whether the minute lies in one of the periods; what is no period counts for
/// nothing.
pub open spec fn active_at(periods: Seq<Seq<char>>, minute_of_day: nat) -> bool {
    exists|i: int|
        0 <= i < periods.len() && (period(#[trigger] periods[i]) matches Some((start, end))
            && in_period(minute_of_day, start, end))
}

pub fn warm_generate_active_at(periods: &[String], minute_of_day: u32) -> (r: bool)
    ensures
        r == active_at(text::views(periods@), minute_of_day as nat),
{
    let ghost all = text::views(periods@);
    let mut i: usize = 0;
    while i < periods.len()
        invariant
            i <= periods@.len(),
            all == text::views(periods@),
            forall|k: int|
                0 <= k < i ==> !(period(#[trigger] all[k]) matches Some((start, end)) && in_period(
                    minute_of_day as nat,
                    start,
                    end,
                )),
        decreases periods@.len() - i,
    {
        assert(all[i as int] == periods@[i as int]@);
        if let Some((start, end)) = parse_warm_period(periods[i].as_str()) {
            if minute_in_period(minute_of_day, start, end) {
                return true;
            }
        }
        i = i + 1;
    }
    false
}

/// The two minutes of the day that a period such as `09:00-18:30` names.
pub open spec fn period(s: Seq<char>) -> Option<(nat, nat)> {
    match text::split_once(s, '-') {
        Some((start, end)) => match (minute_of(text::trim(start)), minute_of(text::trim(end))) {
            (Some(a), Some(b)) => Some((a, b)),
            _ => None,
        },
        None => None,
    }
}

pub fn parse_warm_period(period_text: &str) -> (r: Option<(u32, u32)>)
    ensures
        match r {
            Some((start, end)) => period(period_text@) == Some((start as nat, end as nat)),
            None => period(period_text@) is None,
        },
{
    match text::split_at_first(period_text, '-') {
        Some((start, end)) => {
            let start = parse_hhmm(text::trimmed(start.as_str()).as_str());
            let end = parse_hhmm(text::trimmed(end.as_str()).as_str());
            match (start, end) {
                (Some(a), Some(b)) => Some((a, b)),
                _ => None,
            }
        },
        None => None,
    }
}

/// The minute of the day that `hour:minute` names, on a clock of 24 hours.
pub open spec fn minute_of(s: Seq<char>) -> Option<nat> {
    match text::split_once(s, ':') {
        Some((hour, minute)) => match (text::unsigned(hour, 23), text::unsigned(minute, 59)) {
            (Some(h), Some(m)) => Some(h * 60 + m),
            _ => None,
        },
        None => None,
    }
}

pub fn parse_hhmm(value: &str) -> (r: Option<u32>)
    ensures
        match r {
            Some(m) => minute_of(value@) == Some(m as nat),
            None => minute_of(value@) is None,
        },
{
    match text::split_at_first(value, ':') {
        Some((hour, minute)) => {
            match (text::parse_u32(hour.as_str()), text::parse_u32(minute.as_str())) {
                (Some(hour), Some(minute)) => {
                    if hour > 23 || minute > 59 {
                        return None;
                    }
                    Some(hour * 60 + minute)
                },
                _ => None,
            }
        },
        None => None,
    }
}

/// Whether a minute of the day lies in the period from `start` up to `end`, which
/// goes on past midnight where `end` is the earlier one, and is the whole day
/// where they are the same.
pub open spec fn in_period(now: nat, start: nat, end: nat) -> bool {
    if start == end {
        true
    } else if start < end {
        start <= now < end
    } else {
        now >= start || now < end
    }
}

pub fn minute_in_period(now: u32, start: u32, end: u32) -> (r: bool)
    ensures
        r == in_period(now as nat, start as nat, end as nat),
{
    if start == end {
        return true;
    }
    if start < end {
        now >= start && now < end
    } else {
        now >= start || now < end
    }
}

/// A period and the one from its end back to its start share out the day: each
/// minute lies in exactly one of them.
pub proof fn law_period_and_its_rest(now: nat, start: nat, end: nat)
    requires
        start != end,
    ensures
        in_period(now, start, end) != in_period(now, end, start),
{
}

/// A period that can be read begins and ends within the day.
pub proof fn law_period_lies_within_the_day(s: Seq<char>)
    ensures
        period(s) matches Some((start, end)) ==> start < 1440 && end < 1440,
{
}

/// A time of the day, with the hour and the minute in decimal and a colon between them.
pub open spec fn clock(hour: nat, minute: nat) -> Seq<char> {
    text::decimal(hour) + seq![':'] + text::decimal(minute)
}

proof fn lemma_digits_are_no_marks(n: nat, i: int)
    requires
        0 <= i < text::decimal(n).len(),
    ensures
        text::decimal(n)[i] != ':',
        text::decimal(n)[i] != '-',
        !text::is_space(text::decimal(n)[i]),
{
    text::lemma_decimal(n);
    assert(text::is_digit(text::decimal(n)[i]));
}

proof fn lemma_clock(hour: nat, minute: nat)
    ensures
        minute_of(clock(hour, minute)) == if hour < 24 && minute < 60 {
            Some(60 * hour + minute)
        } else {
            None
        },
        clock(hour, minute).len() > 0,
        forall|i: int| 0 <= i < clock(hour, minute).len() ==> #[trigger] clock(hour, minute)[i] != '-',
        !text::is_space(clock(hour, minute)[0]),
        !text::is_space(clock(hour, minute).last()),
{
    let h = text::decimal(hour);
    let m = text::decimal(minute);
    text::lemma_decimal(hour);
    text::lemma_decimal(minute);
    assert forall|i: int| 0 <= i < h.len() implies #[trigger] h[i] != ':' by {
        lemma_digits_are_no_marks(hour, i);
    }
    text::lemma_split_once(h, ':', m);
    text::law_numbers_are_read_as_written(hour, 23);
    text::law_numbers_are_read_as_written(minute, 59);
    assert forall|i: int| 0 <= i < clock(hour, minute).len() implies #[trigger] clock(
        hour,
        minute,
    )[i] != '-' by {
        if i < h.len() {
            lemma_digits_are_no_marks(hour, i);
        } else if i > h.len() {
            lemma_digits_are_no_marks(minute, i - h.len() - 1);
        }
    }
    lemma_digits_are_no_marks(hour, 0);
    lemma_digits_are_no_marks(minute, m.len() - 1);
    assert(clock(hour, minute)[0] == h[0]);
    assert(clock(hour, minute).last() == m.last());
}

/// A period is read as it is written: two times of the day with a hyphen between them, with or
/// without white space around each, and only where both are times of the day.
pub proof fn law_periods_are_read_as_written(
    a: nat,
    b: nat,
    c: nat,
    d: nat,
    before: Seq<char>,
    after: Seq<char>,
)
    requires
        text::is_blank(before),
        text::is_blank(after),
    ensures
        period(clock(a, b) + before + seq!['-'] + after + clock(c, d)) == if a < 24 && b < 60 && c
            < 24 && d < 60 {
            Some((60 * a + b, 60 * c + d))
        } else {
            None
        },
{
    let none = Seq::<char>::empty();
    let start = clock(a, b) + before;
    let end = after + clock(c, d);
    lemma_clock(a, b);
    lemma_clock(c, d);
    assert forall|i: int| 0 <= i < start.len() implies #[trigger] start[i] != '-' by {
        if i >= clock(a, b).len() {
            assert(text::is_space(before[i - clock(a, b).len()]));
        }
    }
    text::lemma_split_once(start, '-', end);
    assert(clock(a, b) + before + seq!['-'] + after + clock(c, d) =~= start + seq!['-'] + end);
    text::law_trim_takes_white_space_alone(none, clock(a, b), before);
    text::law_trim_takes_white_space_alone(after, clock(c, d), none);
    assert(none + clock(a, b) + before =~= start);
    assert(after + clock(c, d) + none =~= end);
}

/// A period holds the minutes from its beginning up to its end, past midnight where the end is
/// the earlier one, and all of the day where they are the same.
pub proof fn law_periods_hold_their_minutes(now: nat, start: nat, end: nat)
    requires
        now < 1440,
        start < 1440,
        end < 1440,
    ensures
        start < end ==> (in_period(now, start, end) <==> start <= now && now < end),
        start > end ==> (in_period(now, start, end) <==> (start <= now && now < 1440) || (0 <= now
            && now < end)),
        start == end ==> in_period(now, start, end),
        in_period(start, start, end),
        start != end ==> !in_period(end, start, end),
{
}

/// Requests are due in each of the periods and in no other minute, and always where there are
/// no periods.
pub proof fn law_requests_are_due_in_the_periods(
    periods: Seq<Seq<char>>,
    i: int,
    hour: u32,
    minute: u32,
)
    requires
        hour <= 23,
        minute <= 59,
    ensures
        due_at(Seq::empty(), hour, minute),
        0 <= i < periods.len() && (period(periods[i]) matches Some((start, end)) && in_period(
            (60 * hour + minute) as nat,
            start,
            end,
        )) ==> due_at(periods, hour, minute),
        periods.len() > 0 && (forall|k: int|
            0 <= k < periods.len() ==> !(period(#[trigger] periods[k]) matches Some((start, end))
                && in_period((60 * hour + minute) as nat, start, end))) ==> !due_at(
            periods,
            hour,
            minute,
        ),
{
}

} // verus!
