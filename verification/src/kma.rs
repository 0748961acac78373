//! The weather forecast: which forecast run to ask for at a given time, how
//! often to ask, and how the answer reads.

use crate::kma_types::KmaItem;
use crate::text::{
    cuts_at, decimal, head_bytes, join, join_strings, push_decimal, split_at_byte, str_equal,
    strings_of, tail_bytes,
};
use chrono::{Datelike, FixedOffset, NaiveDate, Timelike, Utc};
use vstd::prelude::*;
use vstd::utf8::encode_utf8;

verus! {

/// The offset of the forecast's time zone from UTC, in seconds.
pub const KST_OFFSET_SECONDS: i32 = 32400;

/// How long to wait before a failed query is tried again, in milliseconds.
pub const RETRY_DELAY_MILLIS: u64 = 300;

/// How long a forecast run takes to be published, in minutes.
pub const PUBLICATION_DELAY_MINUTES: u32 = 15;

/// A wall-clock time, to the minute.
#[derive(Clone, Copy, Debug, PartialEq, Eq, Structural)]
pub struct ClockTime {
    pub year: i32,
    pub month: u32,
    pub day: u32,
    pub hour: u32,
    pub minute: u32,
}

/// A forecast run: at which hour it was made, and whether that was today or
/// the day before.
#[derive(Clone, Copy, Debug, PartialEq, Eq, Structural)]
pub struct BaseSlot {
    pub days_back: u32,
    pub hour: u32,
}

/// Why no base date could be given.
#[derive(Clone, Copy, Debug, PartialEq, Eq, Structural)]
pub enum BaseDateError {
    /// The clock could not be read in the forecast's time zone.
    ClockUnavailable,
    /// The calendar has no day before the given one.
    NoPreviousDay,
}

/// What to do after one attempt at a query.
#[derive(Clone, Copy, Debug, PartialEq, Eq, Structural)]
pub enum RetryAction {
    /// The attempt succeeded: its answer is the result.
    Return,
    /// The attempt failed and there are attempts left: wait, then try again.
    RetryAfter { millis: u64 },
    /// The attempt failed and it was the last: its error is the result.
    GiveUp,
}

/// The calendar day before a given one, as the `chrono` crate computes it
/// from year, month and day; `None` where the given day does not exist or
/// has no predecessor.
pub uninterp spec fn day_before(year: i32, month: u32, day: u32) -> Option<(i32, u32, u32)>;

impl ClockTime {
    /// Whether the fields are in the ranges of a clock and a calendar.
    pub open spec fn well_formed(&self) -> bool {
        &&& 1 <= self.month <= 12
        &&& 1 <= self.day <= 31
        &&& self.hour < 24
        &&& self.minute < 60
    }
}

/// Whether a forecast run is made at hour `h`: runs are made every three
/// hours from two o'clock on.
pub open spec fn is_slot(h: int) -> bool {
    0 <= h < 24 && h % 3 == 2
}

/// The minutes from the run of hour `slot`, `days_back` days ago, to the
/// time `hour`:`minute` of today.
pub open spec fn minutes_since(hour: int, minute: int, days_back: int, slot: int) -> int {
    (days_back * 24 + hour - slot) * 60 + minute
}

/// Whether a run of today or yesterday is published at `hour`:`minute`.
pub open spec fn is_published(hour: int, minute: int, days_back: int, slot: int) -> bool {
    is_slot(slot) && (days_back == 0 || days_back == 1) && minutes_since(
        hour,
        minute,
        days_back,
        slot,
    ) >= PUBLICATION_DELAY_MINUTES
}

/// Whether `slot` is the run to ask for at `hour`:`minute`: the latest that
/// is published.
pub open spec fn is_base_slot(hour: int, minute: int, slot: BaseSlot) -> bool {
    &&& is_published(hour, minute, slot.days_back as int, slot.hour as int)
    &&& forall|d: int, h: int| #[trigger]
        is_published(hour, minute, d, h) ==> minutes_since(hour, minute, d, h) >= minutes_since(
            hour,
            minute,
            slot.days_back as int,
            slot.hour as int,
        )
}

/// `n` in decimal with zeros in front up to `width` digits.
pub open spec fn zero_padded(n: nat, width: nat) -> Seq<char> {
    if decimal(n).len() >= width {
        decimal(n)
    } else {
        Seq::new((width - decimal(n).len()) as nat, |i: int| '0') + decimal(n)
    }
}

/// A year in at least four characters, the sign of a negative year
/// counted among them.
pub open spec fn year_text(year: int) -> Seq<char> {
    if year < 0 {
        "-"@ + zero_padded((-year) as nat, 3)
    } else {
        zero_padded(year as nat, 4)
    }
}

/// A date as the service wants it: year, month and day without separators.
pub open spec fn date_text(year: int, month: nat, day: nat) -> Seq<char> {
    year_text(year) + zero_padded(month, 2) + zero_padded(day, 2)
}

/// The time of a run as the service wants it: the hour in two digits and
/// two zeros.
pub open spec fn time_text(hour: nat) -> Seq<char> {
    zero_padded(hour, 2) + "00"@
}

/// The base date and time to ask for at the time `now`, given the run to
/// ask for.
pub open spec fn base_date_for(now: ClockTime, slot: BaseSlot) -> Result<
    (Seq<char>, Seq<char>),
    BaseDateError,
> {
    if slot.days_back == 0 {
        Ok((date_text(now.year as int, now.month as nat, now.day as nat), time_text(slot.hour as nat)))
    } else {
        match day_before(now.year, now.month, now.day) {
            Some((y, m, d)) => Ok((date_text(y as int, m as nat, d as nat), time_text(slot.hour as nat))),
            None => Err(BaseDateError::NoPreviousDay),
        }
    }
}

/// The values of a result that holds two strings.
pub open spec fn texts_of(r: Result<(String, String), BaseDateError>) -> Result<
    (Seq<char>, Seq<char>),
    BaseDateError,
> {
    match r {
        Ok((d, t)) => Ok((d@, t@)),
        Err(e) => Err(e),
    }
}

/// Reads the clock in the time zone that lies `offset_seconds` east of UTC.
///
/// Trusted: this calls `FixedOffset::east_opt`, `Utc::now` and
/// `DateTime::with_timezone` of the `chrono` crate. The contract claims
/// that an offset is accepted exactly when it is less than a day in either
/// direction, as `east_opt` decides, and that the fields of the time read
/// are in the ranges that `chrono` documents for them. It claims nothing
/// about which time is read. `Utc::now` does not return where the system
/// clock stands before the year 1970.
#[verifier::external_body]
fn clock_time_at_offset(offset_seconds: i32) -> (r: Option<ClockTime>)
    ensures
        r is Some <==> -86_400 < offset_seconds < 86_400,
        r matches Some(t) ==> t.well_formed(),
{
    let tz = FixedOffset::east_opt(offset_seconds)?;
    let now = Utc::now().with_timezone(&tz);
    Some(
        ClockTime {
            year: now.year(),
            month: now.month(),
            day: now.day(),
            hour: now.hour(),
            minute: now.minute(),
        },
    )
}

/// The calendar day before the given one.
///
/// Trusted: this calls `NaiveDate::from_ymd_opt` and `NaiveDate::pred_opt`
/// of the `chrono` crate. The contract gives their result a name and claims
/// only that it depends on year, month and day alone.
#[verifier::external_body]
fn previous_day(year: i32, month: u32, day: u32) -> (r: Option<(i32, u32, u32)>)
    ensures
        r == day_before(year, month, day),
{
    let date = NaiveDate::from_ymd_opt(year, month, day)?.pred_opt()?;
    Some((date.year(), date.month(), date.day()))
}

/// The run to ask for at `hour`:`minute`: the latest run of today or
/// yesterday that is published by then.
pub fn select_base_time(hour: u32, minute: u32) -> (slot: BaseSlot)
    requires
        hour < 24,
        minute < 60,
    ensures
        is_base_slot(hour as int, minute as int, slot),
{
    let now_minutes: u32 = hour * 60 + minute;
    let mut candidate: u32 = 23;
    loop
        invariant_except_break
            hour < 24,
            minute < 60,
            now_minutes == hour * 60 + minute,
            is_slot(candidate as int),
            forall|h: int|
                is_slot(h) && h > candidate ==> minutes_since(hour as int, minute as int, 0, h)
                    < PUBLICATION_DELAY_MINUTES,
        ensures
            hour < 24,
            minute < 60,
            forall|h: int|
                is_slot(h) ==> minutes_since(hour as int, minute as int, 0, h)
                    < PUBLICATION_DELAY_MINUTES,
        decreases candidate,
    {
        if now_minutes >= candidate * 60 + PUBLICATION_DELAY_MINUTES {
            return BaseSlot { days_back: 0, hour: candidate };
        }
        if candidate == 2 {
            break ;
        }
        candidate = candidate - 3;
    }
    BaseSlot { days_back: 1, hour: 23 }
}

/// `n` in decimal with zeros in front up to `width` digits.
pub fn zero_padded_string(n: u64, width: usize) -> (r: String)
    ensures
        r@ == zero_padded(n as nat, width as nat),
{
    let mut digits = String::new();
    push_decimal(&mut digits, n);
    assert(digits@ =~= decimal(n as nat));
    let len = digits.as_str().unicode_len();
    let mut r = String::new();
    let mut i: usize = len;
    while i < width
        invariant
            len <= i,
            i <= width || i == len,
            len == decimal(n as nat).len(),
            r@ == Seq::new((i - len) as nat, |j: int| '0'),
        decreases width - i,
    {
        r.push('0');
        i = i + 1;
        assert(r@ =~= Seq::new((i - len) as nat, |j: int| '0'));
    }
    assert(len >= width ==> r@ + digits@ =~= digits@);
    r.append(digits.as_str());
    r
}

/// A date as the service wants it.
pub fn format_base_date(year: i32, month: u32, day: u32) -> (r: String)
    ensures
        r@ == date_text(year as int, month as nat, day as nat),
{
    let mut r = if year < 0 {
        let mut s = "-".to_owned();
        s.append(zero_padded_string((-(year as i64)) as u64, 3).as_str());
        s
    } else {
        zero_padded_string(year as u64, 4)
    };
    r.append(zero_padded_string(month as u64, 2).as_str());
    r.append(zero_padded_string(day as u64, 2).as_str());
    r
}

/// The time of a run as the service wants it.
pub fn format_base_time(hour: u32) -> (r: String)
    ensures
        r@ == time_text(hour as nat),
{
    let mut r = zero_padded_string(hour as u64, 2);
    r.append("00");
    r
}

/// The base date and time to ask for at the time `now`.
pub fn base_date_at(now: ClockTime) -> (r: Result<(String, String), BaseDateError>)
    requires
        now.well_formed(),
    ensures
        exists|slot: BaseSlot|
            is_base_slot(now.hour as int, now.minute as int, slot) && texts_of(r) == base_date_for(
                now,
                slot,
            ),
{
    let slot = select_base_time(now.hour, now.minute);
    let time = format_base_time(slot.hour);
    let r = if slot.days_back == 0 {
        Ok((format_base_date(now.year, now.month, now.day), time))
    } else {
        match previous_day(now.year, now.month, now.day) {
            Some((y, m, d)) => Ok((format_base_date(y, m, d), time)),
            None => Err(BaseDateError::NoPreviousDay),
        }
    };
    assert(is_base_slot(now.hour as int, now.minute as int, slot) && texts_of(r) == base_date_for(
        now,
        slot,
    ));
    r
}

/// The base date and time to ask for now. Whatever time the clock gives,
/// the answer is the one for that time; the clock itself is always there,
/// as the forecast's time zone is one that it knows.
pub fn get_base_date() -> (r: Result<(String, String), BaseDateError>)
    ensures
        exists|now: ClockTime, slot: BaseSlot|
            now.well_formed() && is_base_slot(now.hour as int, now.minute as int, slot)
                && texts_of(r) == base_date_for(now, slot),
        r != Err::<(String, String), BaseDateError>(BaseDateError::ClockUnavailable),
{
    match clock_time_at_offset(KST_OFFSET_SECONDS) {
        Some(now) => base_date_at(now),
        None => Err(BaseDateError::ClockUnavailable),
    }
}

/// What to do after attempt number `attempt`, counted from zero, of at most
/// `num_retries`.
pub fn query_kma(attempt: u32, num_retries: u32, succeeded: bool) -> (r: RetryAction)
    requires
        attempt < num_retries,
    ensures
        r == if succeeded {
            RetryAction::Return
        } else if attempt + 1 == num_retries {
            RetryAction::GiveUp
        } else {
            RetryAction::RetryAfter { millis: RETRY_DELAY_MILLIS }
        },
{
    if succeeded {
        RetryAction::Return
    } else if attempt + 1 == num_retries {
        RetryAction::GiveUp
    } else {
        RetryAction::RetryAfter { millis: RETRY_DELAY_MILLIS }
    }
}

/// The category of the probability of rain.
pub const CATEGORY_RAIN_PROBABILITY: &'static str = "POP";

/// The category of the amount of rain.
pub const CATEGORY_RAIN_AMOUNT: &'static str = "PCP";

/// The amount that the service gives where no rain is forecast.
pub const NO_RAIN: &'static str = "강수없음";

/// How many values of a category a report shows.
pub const REPORT_WINDOW: usize = 12;

/// What a report reads of a forecast item.
pub struct Forecast {
    pub category: Seq<char>,
    pub date: Seq<char>,
    pub time: Seq<char>,
    pub value: Seq<char>,
}

impl View for KmaItem {
    type V = Forecast;

    open spec fn view(&self) -> Forecast {
        Forecast {
            category: self.category@,
            date: self.fcstDate@,
            time: self.fcstTime@,
            value: self.fcstValue@,
        }
    }
}

/// The values of a sequence of forecast items.
pub open spec fn forecasts_of(items: Seq<KmaItem>) -> Seq<Forecast> {
    Seq::new(items.len(), |i: int| items[i]@)
}

/// The values of those among the first `n` items that are of `category`,
/// in order.
pub open spec fn values_in(items: Seq<Forecast>, category: Seq<char>, n: nat) -> Seq<Seq<char>>
    decreases n,
{
    if n == 0 {
        Seq::empty()
    } else {
        let rest = values_in(items, category, (n - 1) as nat);
        if items[n - 1].category == category {
            rest.push(items[n - 1].value)
        } else {
            rest
        }
    }
}

/// The values that a report shows: the first of them, up to the window.
pub open spec fn window(values: Seq<Seq<char>>) -> Seq<Seq<char>> {
    if values.len() > REPORT_WINDOW {
        values.take(REPORT_WINDOW as int)
    } else {
        values
    }
}

/// How a probability reads: the value and a percent sign.
pub open spec fn probability_text(value: Seq<char>) -> Seq<char> {
    value + "%"@
}

/// How an amount reads: `0.0` where no rain is forecast; else the value
/// without its last two bytes, the unit. There is no reading where the
/// value has no two bytes or the cut falls inside a character.
pub open spec fn amount_text(value: Seq<char>) -> Option<Seq<char>> {
    let len = encode_utf8(value).len();
    if value == NO_RAIN@ {
        Some("0.0"@)
    } else if len >= 2 && cuts_at(value, len - 2) {
        Some(head_bytes(value, len - 2))
    } else {
        None
    }
}

/// The readings of the first `n` of `values`, where each has one.
pub open spec fn amount_texts(values: Seq<Seq<char>>, n: nat) -> Option<Seq<Seq<char>>>
    decreases n,
{
    if n == 0 {
        Some(Seq::empty())
    } else {
        match (amount_texts(values, (n - 1) as nat), amount_text(values[n - 1])) {
            (Some(rest), Some(text)) => Some(rest.push(text)),
            _ => None,
        }
    }
}

/// The readings of the first `n` of `values` as probabilities.
pub open spec fn probability_texts(values: Seq<Seq<char>>, n: nat) -> Seq<Seq<char>>
    decreases n,
{
    if n == 0 {
        Seq::empty()
    } else {
        probability_texts(values, (n - 1) as nat).push(probability_text(values[n - 1]))
    }
}

/// Month and day of a forecast date of the form `YYYYMMDD`, as `MM/DD`:
/// bytes four and five, a slash, and what follows. There is none where a
/// cut falls inside a character or beyond the end.
pub open spec fn date_label(date: Seq<char>) -> Option<Seq<char>> {
    if cuts_at(date, 6) && cuts_at(head_bytes(date, 6), 4) {
        Some(tail_bytes(head_bytes(date, 6), 4) + "/"@ + tail_bytes(date, 6))
    } else {
        None
    }
}

/// Hour and minute of a forecast time of the form `HHMM`, as `HH:MM`.
pub open spec fn time_label(time: Seq<char>) -> Option<Seq<char>> {
    if cuts_at(time, 2) {
        Some(head_bytes(time, 2) + ":"@ + tail_bytes(time, 2))
    } else {
        None
    }
}

/// The text of a report.
pub open spec fn report_text(
    date: Seq<char>,
    time: Seq<char>,
    probabilities: Seq<Seq<char>>,
    amounts: Seq<Seq<char>>,
) -> Seq<char> {
    "관악구청 기준, "@ + date + " "@ + time + " 이후 12시간 동안\n        강수확률: ["@ + join(
        probabilities,
        ", "@,
    ) + "]\n        강수량(mm): ["@ + join(amounts, ", "@) + "]"@
}

/// The report on a forecast: from when it holds, and the probabilities and
/// amounts of rain for the hours of the window. There is none where the
/// forecast is empty, or the date or time of its first item or one of the
/// amounts shown cannot be read.
pub open spec fn weather_report(items: Seq<Forecast>) -> Option<Seq<char>> {
    if items.len() == 0 {
        None
    } else {
        let probabilities = window(values_in(items, CATEGORY_RAIN_PROBABILITY@, items.len()));
        let amounts = window(values_in(items, CATEGORY_RAIN_AMOUNT@, items.len()));
        match (
            amount_texts(amounts, amounts.len()),
            date_label(items[0].date),
            time_label(items[0].time),
        ) {
            (Some(amount_list), Some(date), Some(time)) => Some(
                report_text(
                    date,
                    time,
                    probability_texts(probabilities, probabilities.len()),
                    amount_list,
                ),
            ),
            _ => None,
        }
    }
}

/// The value of an optional string.
pub open spec fn label_of(s: Option<String>) -> Option<Seq<char>> {
    match s {
        Some(s) => Some(s@),
        None => None,
    }
}

/// The value of an optional list of strings.
pub open spec fn labels_of(s: Option<Vec<String>>) -> Option<Seq<Seq<char>>> {
    match s {
        Some(v) => Some(strings_of(v@)),
        None => None,
    }
}

/// The values of a category among more items begin with those among fewer.
pub proof fn lemma_values_in_prefix(items: Seq<Forecast>, category: Seq<char>, n: nat, m: nat)
    requires
        n <= m,
    ensures
        values_in(items, category, n).len() <= values_in(items, category, m).len(),
        values_in(items, category, m).take(values_in(items, category, n).len() as int)
            == values_in(items, category, n),
    decreases m,
{
    let short = values_in(items, category, n);
    if n == m {
        assert(short.take(short.len() as int) =~= short);
    } else {
        lemma_values_in_prefix(items, category, n, (m - 1) as nat);
        let less = values_in(items, category, (m - 1) as nat);
        let more = values_in(items, category, m);
        assert(more.take(short.len() as int) =~= less.take(short.len() as int));
    }
}

/// The values of a category that a report shows.
pub fn collect_category(items: &Vec<KmaItem>, category: &str) -> (r: Vec<String>)
    ensures
        strings_of(r@) == window(values_in(forecasts_of(items@), category@, items@.len())),
{
    let ghost all = forecasts_of(items@);
    let mut out: Vec<String> = Vec::new();
    let mut i: usize = 0;
    assert(strings_of(out@) =~= values_in(all, category@, 0));
    while i < items.len() && out.len() < REPORT_WINDOW
        invariant
            0 <= i <= items.len(),
            all == forecasts_of(items@),
            out.len() <= REPORT_WINDOW,
            strings_of(out@) == values_in(all, category@, i as nat),
        decreases items.len() - i,
    {
        let ghost before = strings_of(out@);
        if str_equal(items[i].category.as_str(), category) {
            out.push(items[i].fcstValue.clone());
            assert(strings_of(out@) =~= before.push(all[i as int].value));
        }
        i = i + 1;
    }
    proof {
        lemma_values_in_prefix(all, category@, i as nat, items@.len());
    }
    out
}

/// How the values of `values` read as probabilities.
pub fn rain_probabilities(values: &Vec<String>) -> (r: Vec<String>)
    ensures
        strings_of(r@) == probability_texts(strings_of(values@), values@.len()),
{
    let ghost all = strings_of(values@);
    let mut out: Vec<String> = Vec::new();
    let mut i: usize = 0;
    assert(strings_of(out@) =~= probability_texts(all, 0));
    while i < values.len()
        invariant
            0 <= i <= values.len(),
            all == strings_of(values@),
            strings_of(out@) == probability_texts(all, i as nat),
        decreases values.len() - i,
    {
        let ghost before = strings_of(out@);
        let mut text = values[i].clone();
        text.append("%");
        out.push(text);
        i = i + 1;
        assert(strings_of(out@) =~= before.push(probability_text(all[i - 1])));
    }
    out
}

/// How one amount reads.
pub fn rain_amount(value: &str) -> (r: Option<String>)
    ensures
        label_of(r) == amount_text(value@),
{
    if str_equal(value, NO_RAIN) {
        return Some("0.0".to_owned());
    }
    let len = value.as_bytes().len();
    if len < 2 {
        return None;
    }
    match split_at_byte(value, len - 2) {
        Some((head, _)) => Some(head.to_owned()),
        None => None,
    }
}

/// How the values of `values` read as amounts, where each has a reading.
pub fn rain_amounts(values: &Vec<String>) -> (r: Option<Vec<String>>)
    ensures
        labels_of(r) == amount_texts(strings_of(values@), values@.len()),
{
    let ghost all = strings_of(values@);
    let mut out: Vec<String> = Vec::new();
    let mut i: usize = 0;
    assert(strings_of(out@) =~= Seq::<Seq<char>>::empty());
    while i < values.len()
        invariant
            0 <= i <= values.len(),
            all == strings_of(values@),
            amount_texts(all, i as nat) == Some(strings_of(out@)),
        decreases values.len() - i,
    {
        let ghost before = strings_of(out@);
        match rain_amount(values[i].as_str()) {
            Some(text) => {
                out.push(text);
                assert(strings_of(out@) =~= before.push(amount_text(all[i as int]).unwrap()));
            },
            None => {
                proof {
                    lemma_amount_texts_none(all, (i + 1) as nat, values@.len());
                }
                return None;
            },
        }
        i = i + 1;
    }
    Some(out)
}

/// Where the first `n` values have no reading together, no more of them
/// have.
pub proof fn lemma_amount_texts_none(values: Seq<Seq<char>>, n: nat, m: nat)
    requires
        n <= m,
        amount_texts(values, n) is None,
    ensures
        amount_texts(values, m) is None,
    decreases m,
{
    if n < m {
        lemma_amount_texts_none(values, n, (m - 1) as nat);
    }
}

/// Month and day of a forecast date, as `MM/DD`.
pub fn forecast_date_label(date: &str) -> (r: Option<String>)
    ensures
        label_of(r) == date_label(date@),
{
    let (head, day) = match split_at_byte(date, 6) {
        Some(parts) => parts,
        None => {
            return None;
        },
    };
    let month = match split_at_byte(head, 4) {
        Some((_, month)) => month,
        None => {
            return None;
        },
    };
    let mut r = month.to_owned();
    r.append("/");
    r.append(day);
    Some(r)
}

/// Hour and minute of a forecast time, as `HH:MM`.
pub fn forecast_time_label(time: &str) -> (r: Option<String>)
    ensures
        label_of(r) == time_label(time@),
{
    match split_at_byte(time, 2) {
        Some((hour, minute)) => {
            let mut r = hour.to_owned();
            r.append(":");
            r.append(minute);
            Some(r)
        },
        None => None,
    }
}

/// The report on a forecast.
pub fn get_weather(items: &Vec<KmaItem>) -> (r: Option<String>)
    ensures
        label_of(r) == weather_report(forecasts_of(items@)),
{
    if items.len() == 0 {
        return None;
    }
    let rain_probs = rain_probabilities(&collect_category(items, CATEGORY_RAIN_PROBABILITY));
    let rain_amounts = match rain_amounts(&collect_category(items, CATEGORY_RAIN_AMOUNT)) {
        Some(amounts) => amounts,
        None => {
            return None;
        },
    };
    let first_fcst_date = match forecast_date_label(items[0].fcstDate.as_str()) {
        Some(date) => date,
        None => {
            return None;
        },
    };
    let first_fcst_time = match forecast_time_label(items[0].fcstTime.as_str()) {
        Some(time) => time,
        None => {
            return None;
        },
    };
    let mut r = "관악구청 기준, ".to_owned();
    r.append(first_fcst_date.as_str());
    r.append(" ");
    r.append(first_fcst_time.as_str());
    r.append(" 이후 12시간 동안\n        강수확률: [");
    r.append(join_strings(&rain_probs, ", ").as_str());
    r.append("]\n        강수량(mm): [");
    r.append(join_strings(&rain_amounts, ", ").as_str());
    r.append("]");
    Some(r)
}

} // verus!
