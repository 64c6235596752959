//! The AniList client's decisions: what a batch request asks for, how an
//! answer is read, when a failed request is retried and how long to wait.
use vstd::prelude::*;
use crate::anilist::types::{ApiResponse, BatchAnimeQuery, MediaSort, MediaStatus, Page};
use crate::config::Config;
use crate::numeric::{decimal_u64, parse_u64};
use crate::anilist::types::FuzzyDate;
use crate::calendar::{
    date_before, date_int, date_int_fits, date_to_int, day_number, days_before_month,
    days_before_year, days_in_month, is_valid_date, shift_date, shift_in_range, shifted_date,
    MAX_DAY_NUMBER, MIN_DAY_NUMBER,
};

verus! {

/// Requests per minute allowed by the local limiter (AniList allows 30).
pub const RATE_LIMIT: u32 = 29;

/// Media per page; AniList's maximum.
pub const PER_PAGE: i32 = 50;

/// AniList serves at most 5000 entries of one listing: 5000 / PER_PAGE pages.
pub const MAX_PAGE: i32 = 100;

/// Time limit of one HTTP request.
pub const REQUEST_TIMEOUT_SECS: u64 = 30;

/// Retries of one page before the scrape fails.
pub const MAX_RETRIES: u32 = 5;

/// Pause after a failed request or a server error.
pub const BACKOFF_SECS: u64 = 5;

/// Pause after a rate-limited answer that says nothing of when to retry.
pub const DEFAULT_RATE_LIMIT_WAIT_SECS: u64 = 60;

pub const TOO_MANY_REQUESTS: u16 = 429;

pub open spec fn status_is_success(status: u16) -> bool {
    200 <= status <= 299
}

pub open spec fn status_is_server_error(status: u16) -> bool {
    500 <= status <= 599
}

/// Whether an HTTP status is in the 2xx class.
pub fn is_success(status: u16) -> (r: bool)
    ensures
        r == status_is_success(status),
{
    200 <= status && status <= 299
}

/// Whether an HTTP status is in the 5xx class.
pub fn is_server_error(status: u16) -> (r: bool)
    ensures
        r == status_is_server_error(status),
{
    500 <= status && status <= 599
}

/// The AniList endpoint and the folder of the AniList files. The HTTP
/// connection and the request limiter belong to the application.
pub struct Client {
    pub api_url: String,
    pub data_folder: String,
}

impl Client {
    pub fn new(config: &Config) -> (c: Client)
        ensures
            c.api_url@ == config.anilist_api_url@,
            c.data_folder@ == config.data_folder@,
    {
        Client { api_url: config.anilist_api_url.clone(), data_folder: config.data_folder.clone() }
    }
}

/// The GraphQL variables of a media batch request. A `None` field is left out
/// of the request.
pub struct BatchVariables {
    pub page: i32,
    pub per_page: i32,
    pub sort: Vec<MediaSort>,
    pub start: Option<i32>,
    pub end: Option<i32>,
    pub status_in: Option<Vec<MediaStatus>>,
}

fn sorts_to_vec(s: &[MediaSort]) -> (v: Vec<MediaSort>)
    ensures
        v@ == s@,
{
    let mut v: Vec<MediaSort> = Vec::new();
    let mut i: usize = 0;
    while i < s.len()
        invariant
            i <= s@.len(),
            v@ == s@.take(i as int),
        decreases s@.len() - i,
    {
        v.push(s[i]);
        i = i + 1;
        proof {
            assert(v@ =~= s@.take(i as int));
        }
    }
    proof {
        assert(s@.take(i as int) =~= s@);
    }
    v
}

fn statuses_to_vec(s: &[MediaStatus]) -> (v: Vec<MediaStatus>)
    ensures
        v@ == s@,
{
    let mut v: Vec<MediaStatus> = Vec::new();
    let mut i: usize = 0;
    while i < s.len()
        invariant
            i <= s@.len(),
            v@ == s@.take(i as int),
        decreases s@.len() - i,
    {
        v.push(s[i]);
        i = i + 1;
        proof {
            assert(v@ =~= s@.take(i as int));
        }
    }
    proof {
        assert(s@.take(i as int) =~= s@);
    }
    v
}

/// The variables of the request for one page of media: the page, the page
/// size, the sort order, and the optional start-date window and status
/// filter.
pub fn media_batch_variables(
    page: i32,
    start: Option<i32>,
    end: Option<i32>,
    sort: &[MediaSort],
    status_in: Option<&[MediaStatus]>,
) -> (v: BatchVariables)
    ensures
        v.page == page,
        v.per_page == PER_PAGE,
        v.sort@ == sort@,
        v.start == start,
        v.end == end,
        status_in is None ==> v.status_in is None,
        status_in matches Some(s) ==> v.status_in matches Some(w) && w@ == s@,
{
    let status_in = match status_in {
        Some(s) => Some(statuses_to_vec(s)),
        None => None,
    };
    BatchVariables { page, per_page: PER_PAGE, sort: sorts_to_vec(sort), start, end, status_in }
}

/// A page of an AniList listing to request.
#[derive(Debug, Clone, Copy, PartialEq, Eq, Structural)]
pub struct PageRequest {
    pub page_number: i32,
    /// Earliest start date, `yyyymmdd`.
    pub start: Option<i32>,
    /// Latest start date, `yyyymmdd`.
    pub end: Option<i32>,
    pub sort: MediaSort,
    /// Only entries still releasing or not yet released.
    pub active_only: bool,
}

impl PageRequest {
    /// The variables of this request: its page, window and single sort
    /// order, and, when only active entries are wanted, the statuses
    /// `RELEASING` and `NOT_YET_RELEASED`.
    pub fn variables(&self) -> (v: BatchVariables)
        ensures
            v.page == self.page_number,
            v.per_page == PER_PAGE,
            v.sort@ == seq![self.sort],
            v.start == self.start,
            v.end == self.end,
            !self.active_only ==> v.status_in is None,
            self.active_only ==> (v.status_in matches Some(s) && s@ == seq![
                MediaStatus::Releasing,
                MediaStatus::NotYetReleased,
            ]),
    {
        let sorts: [MediaSort; 1] = [self.sort];
        let active: [MediaStatus; 2] = [MediaStatus::Releasing, MediaStatus::NotYetReleased];
        let v = if self.active_only {
            media_batch_variables(
                self.page_number,
                self.start,
                self.end,
                sorts.as_slice(),
                Some(active.as_slice()),
            )
        } else {
            media_batch_variables(self.page_number, self.start, self.end, sorts.as_slice(), None)
        };
        proof {
            assert(v.sort@ =~= seq![self.sort]);
            if self.active_only {
                assert(v.status_in.unwrap()@ =~= seq![
                    MediaStatus::Releasing,
                    MediaStatus::NotYetReleased,
                ]);
            }
        }
        v
    }
}

/// The rate-limit headers of an answer, each as text when it is present and
/// readable.
pub struct RateLimitHeaders {
    /// `retry-after`: seconds to wait.
    pub retry_after: Option<String>,
    /// `x-ratelimit-reset`: unix time at which the limit resets.
    pub ratelimit_reset: Option<String>,
}

/// An answer to a media batch request that did not fail outright.
pub struct GetMediaBatchResponse {
    pub page: Option<Page>,
    pub headers: RateLimitHeaders,
    pub status_code: u16,
    /// The raw body of a rate-limited answer.
    pub body: Option<String>,
}

/// Why talking to AniList failed.
pub enum AnilistError {
    /// The request could not be sent or its answer not read.
    Transport { message: String },
    /// AniList answered with a status that is neither a success nor 429.
    HttpStatus { status: u16, body: String },
    /// A successful answer whose body could not be read.
    BodyUnreadable { message: String },
    /// A successful answer whose body is not the expected JSON.
    InvalidJson { body: String },
    /// A successful answer without a page.
    NoMediaFound,
    /// Every attempt at a page failed.
    RetriesExhausted { page: i32, cause: Box<AnilistError> },
    /// Every attempt at a page was rate limited.
    RateLimitRetriesExhausted { page: i32 },
    /// Every attempt at a page met a server error.
    ServerErrorRetriesExhausted { page: i32, status: u16, body: String },
    /// A listing had to be split by date, but its last entry has no usable
    /// start date.
    CutoffUnavailable,
}

pub open spec fn parsed_page(parsed: Option<ApiResponse<BatchAnimeQuery>>) -> Option<Page> {
    match parsed {
        Some(r) => match r.data {
            Some(d) => d.page,
            None => None,
        },
        None => None,
    }
}

/// The text of a body, an unreadable one counting as empty.
pub open spec fn body_text(body: Result<String, String>) -> Seq<char> {
    match body {
        Ok(b) => b@,
        Err(_) => Seq::empty(),
    }
}

/// Reads the answer to a media batch request from its status, its
/// rate-limit headers, its body (`Err` with the reason when it could not be
/// read) and the body parsed as JSON (`None` when it is not the expected
/// JSON). A 429 is handed back with its body so that the caller can wait and
/// retry; any other status outside 2xx is an error; in both cases an
/// unreadable body counts as empty. A success must have a readable body that
/// carries a page.
pub fn interpret_batch_response(
    status: u16,
    headers: RateLimitHeaders,
    body: Result<String, String>,
    parsed: Option<ApiResponse<BatchAnimeQuery>>,
) -> (r: Result<GetMediaBatchResponse, AnilistError>)
    ensures
        status == TOO_MANY_REQUESTS ==> (r matches Ok(resp) && resp.page is None
            && resp.status_code == status && resp.headers == headers && (resp.body matches Some(b)
            && b@ == body_text(body))),
        status != TOO_MANY_REQUESTS && !status_is_success(status) ==> (r matches Err(
            AnilistError::HttpStatus { status: s, body: b },
        ) && s == status && b@ == body_text(body)),
        status_is_success(status) && body is Err ==> (r matches Err(
            AnilistError::BodyUnreadable { message: m },
        ) && body == Err::<String, String>(m)),
        status_is_success(status) && body is Ok && parsed is None ==> (r matches Err(
            AnilistError::InvalidJson { body: b },
        ) && body == Ok::<String, String>(b)),
        status_is_success(status) && body is Ok && parsed is Some && parsed_page(parsed) is None
            ==> (r matches Err(AnilistError::NoMediaFound)),
        status_is_success(status) && body is Ok && parsed_page(parsed) is Some ==> (r matches Ok(
            resp,
        ) && resp.page == parsed_page(parsed) && resp.status_code == status && resp.headers
            == headers && resp.body is None),
{
    if status == TOO_MANY_REQUESTS || !is_success(status) {
        let text = match body {
            Ok(b) => b,
            Err(_) => String::new(),
        };
        if status == TOO_MANY_REQUESTS {
            return Ok(
                GetMediaBatchResponse { page: None, headers, status_code: status, body: Some(text) },
            );
        }
        return Err(AnilistError::HttpStatus { status, body: text });
    }
    let text = match body {
        Ok(b) => b,
        Err(message) => return Err(AnilistError::BodyUnreadable { message }),
    };
    let data = match parsed {
        Some(r) => r.data,
        None => return Err(AnilistError::InvalidJson { body: text }),
    };
    let page = match data {
        Some(d) => d.page,
        None => None,
    };
    match page {
        Some(p) => Ok(GetMediaBatchResponse { page: Some(p), headers, status_code: status, body: None }),
        None => Err(AnilistError::NoMediaFound),
    }
}

// ---------------------------------------------------------------------------
// Dates

/// The largest year whose `yyyymmdd` integers fit in `i32`.
pub const MAX_INT_YEAR: i32 = 214748;

/// The day number of -214748-01-01, the first date whose `yyyymmdd` integer
/// fits in `i32`.
pub const MIN_INT_DAY_NUMBER: i64 = -78435461;

/// The day number of 214748-12-31, the last date whose `yyyymmdd` integer
/// fits in `i32`.
pub const MAX_INT_DAY_NUMBER: i64 = 78435096;

/// Whether the date `days` days after `y-m-d` has a `yyyymmdd` integer that
/// fits in `i32`.
pub open spec fn shift_fits_i32(y: int, m: int, d: int, days: int) -> bool {
    MIN_INT_DAY_NUMBER <= day_number(y, m, d) + days <= MAX_INT_DAY_NUMBER
}

/// A valid date whose day number is within the `i32` dates has a year within
/// [`MAX_INT_YEAR`] of zero, and its `yyyymmdd` integer fits in `i32`; such a
/// shift stays within chrono's dates.
proof fn lemma_int_date(t: (int, int, int))
    requires
        is_valid_date(t.0, t.1, t.2),
        MIN_INT_DAY_NUMBER <= day_number(t.0, t.1, t.2) <= MAX_INT_DAY_NUMBER,
    ensures
        -214748 <= t.0 <= 214748,
        date_int_fits(t.0, t.1, t.2),
        i32::MIN <= date_int(t.0, t.1, t.2) <= i32::MAX,
{
    reveal_with_fuel(days_before_month, 13);
    assert(day_number(-214748, 1, 1) == MIN_INT_DAY_NUMBER);
    assert(day_number(214748, 12, 31) == MAX_INT_DAY_NUMBER);
    crate::calendar::lemma_between_day_numbers((-214748, 1, 1), t, (214748, 12, 31));
    let (py, pm, pd) = t;
    assert(-2147480000 <= py * 10000 <= 2147480000) by (nonlinear_arith)
        requires
            -214748 <= py <= 214748,
    ;
}

/// The day number of a valid date, computed.
fn day_number_of(y: i32, m: u32, d: u32) -> (n: i64)
    requires
        is_valid_date(y as int, m as int, d as int),
    ensures
        n == day_number(y as int, m as int, d as int),
        MIN_DAY_NUMBER <= n <= MAX_DAY_NUMBER,
{
    proof {
        crate::calendar::lemma_day_number_limits(y as int, m as int, d as int);
    }
    // 656 cycles of 400 years (146097 days each) keep the year positive.
    let p: i64 = y as i64 + 262399;
    let before_year: i64 = 365 * p + p / 4 - p / 100 + p / 400 - 146097 * 656;
    proof {
        let q = y as int - 1;
        assert(q == p - 262400);
        assert(q / 4 == p / 4 - 65600);
        assert(q / 100 == p / 100 - 2624);
        assert(q / 400 == p / 400 - 656);
        assert(before_year == days_before_year(y as int));
    }
    let cumulative: i64 = if m == 1 {
        0
    } else if m == 2 {
        31
    } else if m == 3 {
        59
    } else if m == 4 {
        90
    } else if m == 5 {
        120
    } else if m == 6 {
        151
    } else if m == 7 {
        181
    } else if m == 8 {
        212
    } else if m == 9 {
        243
    } else if m == 10 {
        273
    } else if m == 11 {
        304
    } else {
        334
    };
    let before_month: i64 = if m > 2 && leap_year(y) { cumulative + 1 } else { cumulative };
    proof {
        reveal_with_fuel(days_before_month, 13);
    }
    before_year + before_month + d as i64
}

pub open spec fn unwrap_or(o: Option<i32>, d: i32) -> i32 {
    match o {
        Some(v) => v,
        None => d,
    }
}

/// The month and day that stand in a shifted date: missing parts count as 1,
/// and the `i32` is reinterpreted as `u32`, as chrono takes it.
pub open spec fn shift_month(date: FuzzyDate) -> int {
    (unwrap_or(date.month, 1) as u32) as int
}

pub open spec fn shift_day(date: FuzzyDate) -> int {
    (unwrap_or(date.day, 1) as u32) as int
}

/// The inputs on which [`Client::fuzzy_date_to_int`] neither overflows nor
/// panics: the unshifted integer fits in `i32`; an existing date, shifted,
/// has an integer that fits in `i32`.
pub open spec fn fuzzy_date_in_range(date: FuzzyDate, margin_days: i64) -> bool {
    match date.year {
        None => true,
        Some(y) => if margin_days == 0 {
            date_int_fits(y as int, unwrap_or(date.month, 0) as int, unwrap_or(date.day, 0) as int)
        } else {
            is_valid_date(y as int, shift_month(date), shift_day(date)) ==> shift_fits_i32(
                y as int,
                shift_month(date),
                shift_day(date),
                margin_days as int,
            )
        },
    }
}

/// The integer `yyyymmdd` of a fuzzy date moved by `margin_days`: none without
/// a year; with no margin the missing month and day count as 0; with a margin
/// they count as 1 and the date must exist.
pub open spec fn fuzzy_date_value(date: FuzzyDate, margin_days: i64) -> Option<i32> {
    match date.year {
        None => None,
        Some(y) => if margin_days == 0 {
            Some(
                date_int(y as int, unwrap_or(date.month, 0) as int, unwrap_or(date.day, 0) as int)
                    as i32,
            )
        } else if is_valid_date(y as int, shift_month(date), shift_day(date)) {
            let s = shifted_date(y as int, shift_month(date), shift_day(date), margin_days as int);
            Some(date_int(s.0, s.1, s.2) as i32)
        } else {
            None
        },
    }
}

/// Later dates have larger `yyyymmdd` integers.
proof fn lemma_date_int_follows_calendar(a: (int, int, int), b: (int, int, int))
    requires
        1 <= a.1 <= 12,
        1 <= a.2 <= 31,
        1 <= b.1 <= 12,
        1 <= b.2 <= 31,
        date_before(a, b),
    ensures
        date_int(a.0, a.1, a.2) < date_int(b.0, b.1, b.2),
{
    if a.0 < b.0 {
        assert(a.0 * 10000 + 10000 <= b.0 * 10000) by (nonlinear_arith)
            requires a.0 < b.0;
    }
}

/// The date of a fuzzy date with a missing month or day read as the first.
pub open spec fn filled_date(date: FuzzyDate) -> (int, int, int) {
    (unwrap_or(date.year, 0) as int, shift_month(date), shift_day(date))
}

/// The day before a date whose shift by one day back is computed: it is the
/// date that [`fuzzy_date_value`] writes for a margin of one day back.
proof fn lemma_day_before(date: FuzzyDate) -> (prev: (int, int, int))
    requires
        date.year is Some,
        fuzzy_date_in_range(date, -1i64),
        fuzzy_date_value(date, -1i64) is Some,
    ensures
        is_valid_date(prev.0, prev.1, prev.2),
        day_number(prev.0, prev.1, prev.2) == day_number(
            filled_date(date).0,
            filled_date(date).1,
            filled_date(date).2,
        ) - 1,
        date_before(prev, filled_date(date)),
        fuzzy_date_value(date, -1i64).unwrap() == date_int(prev.0, prev.1, prev.2),
{
    let y = date.year.unwrap() as int;
    let m = shift_month(date);
    let d = shift_day(date);
    assert(is_valid_date(y, m, d));
    let prev: (int, int, int) = if d > 1 {
        (y, m, d - 1)
    } else if m > 1 {
        (y, m - 1, days_in_month(y, m - 1))
    } else {
        (y - 1, 12, 31)
    };
    if d == 1 && m == 1 {
        crate::calendar::lemma_year_length(y - 1);
        reveal_with_fuel(days_before_month, 13);
    }
    assert(is_valid_date(prev.0, prev.1, prev.2));
    assert(day_number(prev.0, prev.1, prev.2) == day_number(y, m, d) - 1);
    let t = shifted_date(y, m, d, -1);
    crate::calendar::lemma_day_number_injective(t, prev);
    lemma_int_date(prev);
    prev
}

/// A fuzzy date shifted by a margin reads a missing day as the 1st, and a
/// missing month as January: with a year and a month but no day, the result
/// is the `yyyymmdd` of the first of that month moved by the margin, so it
/// exists whenever the month does.
pub proof fn lemma_missing_day_is_the_first(date: FuzzyDate, margin_days: i64)
    requires
        date.year is Some,
        date.day is None,
        margin_days != 0,
        ({
            let y = date.year.unwrap() as int;
            let m: int = match date.month {
                Some(m) => m as int,
                None => 1,
            };
            &&& is_valid_date(y, m, 1)
            &&& shift_fits_i32(y, m, 1, margin_days as int)
        }),
    ensures
        fuzzy_date_in_range(date, margin_days),
        ({
            let y = date.year.unwrap() as int;
            let m: int = match date.month {
                Some(m) => m as int,
                None => 1,
            };
            let s = shifted_date(y, m, 1, margin_days as int);
            fuzzy_date_value(date, margin_days) == Some(date_int(s.0, s.1, s.2) as i32)
        }),
{
}

/// A full date shifted by a margin is that very day moved by the margin.
pub proof fn lemma_full_date_is_shifted(date: FuzzyDate, margin_days: i64)
    requires
        date.year is Some,
        date.month is Some,
        date.day is Some,
        margin_days != 0,
        is_valid_date(
            date.year.unwrap() as int,
            date.month.unwrap() as int,
            date.day.unwrap() as int,
        ),
    ensures
        ({
            let s = shifted_date(
                date.year.unwrap() as int,
                date.month.unwrap() as int,
                date.day.unwrap() as int,
                margin_days as int,
            );
            fuzzy_date_value(date, margin_days) == Some(date_int(s.0, s.1, s.2) as i32)
        }),
{
}

/// The cutoff that moves a full scrape's window on lies before the date of
/// the record it is taken from: the start date of the last record of a full
/// page (a missing month or day read as the first), shifted back one day,
/// gives a smaller `yyyymmdd` integer than that date.
pub proof fn lemma_cutoff_precedes_last_date(date: FuzzyDate)
    requires
        date.year is Some,
        fuzzy_date_in_range(date, -1i64),
        fuzzy_date_value(date, -1i64) is Some,
    ensures
        fuzzy_date_value(date, -1i64).unwrap() < date_int(
            date.year.unwrap() as int,
            shift_month(date),
            shift_day(date),
        ),
{
    let prev = lemma_day_before(date);
    lemma_date_int_follows_calendar(prev, filled_date(date));
}

/// The windows of a full scrape move on: when the window's records, read in
/// start-date order, do not all start on one day, the cutoff taken from the
/// last of them is not before the date of the first. AniList answers only
/// records that start after the window's start, so the next window starts
/// after the one before.
pub proof fn lemma_cutoff_not_before_first_date(first: FuzzyDate, last: FuzzyDate)
    requires
        first.year is Some,
        last.year is Some,
        is_valid_date(filled_date(first).0, filled_date(first).1, filled_date(first).2),
        date_before(filled_date(first), filled_date(last)),
        fuzzy_date_in_range(last, -1i64),
        fuzzy_date_value(last, -1i64) is Some,
    ensures
        date_int(filled_date(first).0, filled_date(first).1, filled_date(first).2)
            <= fuzzy_date_value(last, -1i64).unwrap(),
{
    let prev = lemma_day_before(last);
    let a = filled_date(first);
    crate::calendar::lemma_day_number_follows_calendar(a, filled_date(last));
    if date_before(prev, a) {
        crate::calendar::lemma_day_number_follows_calendar(prev, a);
    } else if a != prev {
        lemma_date_int_follows_calendar(a, prev);
    }
}

/// Whether `y` is a leap year of the proleptic Gregorian calendar.
fn leap_year(y: i32) -> (r: bool)
    ensures
        r == crate::calendar::is_leap_year(y as int),
{
    let a: i64 = if y < 0 { -(y as i64) } else { y as i64 };
    proof {
        assert((y as int) % 4 == 0 <==> a % 4 == 0) by (nonlinear_arith)
            requires a == y || a == -y, a >= 0;
        assert((y as int) % 100 == 0 <==> a % 100 == 0) by (nonlinear_arith)
            requires a == y || a == -y, a >= 0;
        assert((y as int) % 400 == 0 <==> a % 400 == 0) by (nonlinear_arith)
            requires a == y || a == -y, a >= 0;
    }
    (a % 4 == 0 && a % 100 != 0) || a % 400 == 0
}

/// Whether `year-month-day` is a day of chrono's calendar.
pub fn valid_date(year: i32, month: u32, day: u32) -> (r: bool)
    ensures
        r == is_valid_date(year as int, month as int, day as int),
{
    if year < crate::calendar::MIN_YEAR || year > crate::calendar::MAX_YEAR || month < 1 || month
        > 12 || day < 1 {
        return false;
    }
    let last: u32 = if month == 2 {
        if leap_year(year) {
            29
        } else {
            28
        }
    } else if month == 4 || month == 6 || month == 9 || month == 11 {
        30
    } else {
        31
    };
    day <= last
}

/// Whether [`Client::fuzzy_date_to_int`] may be called on these inputs (see
/// [`fuzzy_date_in_range`]).
pub fn fuzzy_date_fits(date: &FuzzyDate, margin_days: i64) -> (r: bool)
    ensures
        r == fuzzy_date_in_range(*date, margin_days),
{
    match date.year {
        None => true,
        Some(y) => {
            if margin_days == 0 {
                let m: i64 = match date.month {
                    Some(m) => m as i64,
                    None => 0,
                };
                let d: i64 = match date.day {
                    Some(d) => d as i64,
                    None => 0,
                };
                let yy: i64 = (y as i64) * 10_000;
                let mm: i64 = m * 100;
                let min: i64 = i32::MIN as i64;
                let max: i64 = i32::MAX as i64;
                min <= yy && yy <= max && min <= mm && mm <= max && min <= yy + mm && yy + mm <= max
                    && min <= yy + mm + d && yy + mm + d <= max
            } else {
                let m = match date.month {
                    Some(m) => m,
                    None => 1,
                };
                let d = match date.day {
                    Some(d) => d,
                    None => 1,
                };
                if !valid_date(y, m as u32, d as u32) {
                    return true;
                }
                let n: i128 = day_number_of(y, m as u32, d as u32) as i128 + margin_days as i128;
                MIN_INT_DAY_NUMBER as i128 <= n && n <= MAX_INT_DAY_NUMBER as i128
            }
        },
    }
}

impl Client {
    /// The integer `yyyymmdd` of a fuzzy date moved by `margin_days` (see
    /// [`fuzzy_date_value`]): `None` without a year, or when a margin is asked
    /// for and the date does not exist.
    pub fn fuzzy_date_to_int(date: &FuzzyDate, margin_days: i64) -> (r: Option<i32>)
        requires
            fuzzy_date_in_range(*date, margin_days),
        ensures
            r == fuzzy_date_value(*date, margin_days),
    {
        let year = match date.year {
            Some(y) => y,
            None => return None,
        };
        if margin_days == 0 {
            let month = match date.month {
                Some(m) => m,
                None => 0,
            };
            let day = match date.day {
                Some(d) => d,
                None => 0,
            };
            return Some(date_to_int(year, month, day));
        }
        let month = match date.month {
            Some(m) => m,
            None => 1,
        };
        let day = match date.day {
            Some(d) => d,
            None => 1,
        };
        let shifted = shift_date(year, month as u32, day as u32, margin_days);
        match shifted {
            Some((y, m, d)) => {
                proof {
                    lemma_int_date((y as int, m as int, d as int));
                }
                Some(date_to_int(y, m as i32, d as i32))
            },
            None => None,
        }
    }
}

/// Whether [`scrape_window`] may be called with this day: it exists, and the
/// day three years of days on has a `yyyymmdd` integer that fits in `i32`.
pub fn scrape_window_fits(today_year: i32, today_month: u32, today_day: u32) -> (r: bool)
    ensures
        r == (is_valid_date(today_year as int, today_month as int, today_day as int)
            && shift_fits_i32(today_year as int, today_month as int, today_day as int, 1095)),
{
    if !valid_date(today_year, today_month, today_day) {
        return false;
    }
    let n: i64 = day_number_of(today_year, today_month, today_day) + 1095;
    MIN_INT_DAY_NUMBER <= n && n <= MAX_INT_DAY_NUMBER
}

/// The start-date window of a full scrape, as `yyyymmdd` integers: from
/// 1940-01-01 (written 19400000) to three years of days (1095) after today.
pub fn scrape_window(today_year: i32, today_month: u32, today_day: u32) -> (w: (i32, i32))
    requires
        is_valid_date(today_year as int, today_month as int, today_day as int),
        shift_fits_i32(today_year as int, today_month as int, today_day as int, 1095),
    ensures
        w.0 == 19400000,
        ({
            let s = shifted_date(
                today_year as int,
                today_month as int,
                today_day as int,
                1095int,
            );
            w.1 == date_int(s.0, s.1, s.2)
        }),
{
    let start: i32 = 1940 * 10_000;
    let shifted = shift_date(today_year, today_month, today_day, 1095);
    match shifted {
        Some((y, m, d)) => {
            proof {
                lemma_int_date((y as int, m as int, d as int));
            }
            (start, date_to_int(y, m as i32, d as i32))
        },
        None => {
            proof {
                assert(false);
            }
            (start, start)
        },
    }
}

// ---------------------------------------------------------------------------
// Waiting after a rate-limited answer

pub open spec fn parsed_header(h: Option<String>) -> Option<u64> {
    match h {
        Some(s) => decimal_u64(s@),
        None => None,
    }
}

pub open spec fn at_least_one(x: int) -> int {
    if x < 1 {
        1
    } else {
        x
    }
}

/// Seconds to wait after a 429 at unix time `now`: `retry-after` when it is a
/// number, else the time left until `x-ratelimit-reset` when that is a number,
/// at least one second either way; else a flat minute.
pub open spec fn retry_wait_spec(headers: RateLimitHeaders, now: u64) -> u64 {
    match parsed_header(headers.retry_after) {
        Some(secs) => at_least_one(secs as int) as u64,
        None => match parsed_header(headers.ratelimit_reset) {
            Some(reset) => at_least_one(if reset >= now { reset - now } else { 0 }) as u64,
            None => DEFAULT_RATE_LIMIT_WAIT_SECS,
        },
    }
}

/// What holds of the wait whatever the clock said: it is the wait for some
/// unix time, or, when the reset time was needed but the clock read before
/// 1970, the flat minute.
pub open spec fn retry_wait_possible(headers: RateLimitHeaders, secs: u64) -> bool {
    ||| exists|now: u64| secs == retry_wait_spec(headers, now)
    ||| parsed_header(headers.retry_after) is None && parsed_header(headers.ratelimit_reset) is Some
        && secs == DEFAULT_RATE_LIMIT_WAIT_SECS
}

fn header_number(h: &Option<String>) -> (r: Option<u64>)
    ensures
        r == parsed_header(*h),
{
    match h {
        Some(s) => parse_u64(s.as_str()),
        None => None,
    }
}

/// How long to wait after a 429 at unix time `now` (see [`retry_wait_spec`]).
pub fn retry_wait_at(headers: &RateLimitHeaders, now: u64) -> (secs: u64)
    ensures
        secs == retry_wait_spec(*headers, now),
        secs >= 1,
{
    if let Some(secs) = header_number(&headers.retry_after) {
        return if secs < 1 { 1 } else { secs };
    }
    if let Some(reset) = header_number(&headers.ratelimit_reset) {
        let left = if reset >= now { reset - now } else { 0 };
        return if left < 1 { 1 } else { left };
    }
    DEFAULT_RATE_LIMIT_WAIT_SECS
}

/// How long to wait after a 429: prefers `retry-after` (seconds), falls back
/// to `x-ratelimit-reset` (unix time, read against the clock), falls back to
/// a flat 60 seconds if neither is present or a number. A clock set before
/// 1970 cannot say how long is left until the reset; the flat minute is
/// waited then.
pub fn retry_wait(headers: &RateLimitHeaders) -> (secs: u64)
    ensures
        retry_wait_possible(*headers, secs),
        secs >= 1,
        parsed_header(headers.retry_after) matches Some(s) ==> secs == at_least_one(s as int),
        parsed_header(headers.retry_after) is None ==> (parsed_header(headers.ratelimit_reset)
            matches Some(reset) ==> (1 <= secs <= at_least_one(reset as int) || secs
            == DEFAULT_RATE_LIMIT_WAIT_SECS)),
        parsed_header(headers.retry_after) is None && parsed_header(headers.ratelimit_reset) is None
            ==> secs == DEFAULT_RATE_LIMIT_WAIT_SECS,
{
    let needs_clock = header_number(&headers.retry_after).is_none() && header_number(
        &headers.ratelimit_reset,
    ).is_some();
    let clock = if needs_clock {
        crate::clock::unix_now_secs()
    } else {
        None
    };
    retry_wait_for_clock(headers, clock)
}

/// How long to wait after a 429 given what the clock read (`None` when it
/// was not read, or read before 1970): `retry-after` when it is a number, at
/// least one second; else, when `x-ratelimit-reset` is a number and the clock
/// read `now`, the seconds left until the reset, at least one; a reset
/// without a clock reading, or neither header a number, waits a minute.
pub fn retry_wait_for_clock(headers: &RateLimitHeaders, clock: Option<u64>) -> (secs: u64)
    ensures
        parsed_header(headers.retry_after) matches Some(s) ==> secs == (if s >= 1 {
            s
        } else {
            1
        }),
        parsed_header(headers.retry_after) is None ==> match parsed_header(
            headers.ratelimit_reset,
        ) {
            Some(reset) => match clock {
                Some(now) => secs == (if reset > now {
                    reset - now
                } else {
                    1
                }),
                None => secs == DEFAULT_RATE_LIMIT_WAIT_SECS,
            },
            None => secs == DEFAULT_RATE_LIMIT_WAIT_SECS,
        },
        clock matches Some(now) ==> secs == retry_wait_spec(*headers, now),
        retry_wait_possible(*headers, secs),
        secs >= 1,
{
    let needs_clock = header_number(&headers.retry_after).is_none() && header_number(
        &headers.ratelimit_reset,
    ).is_some();
    if !needs_clock {
        let secs = retry_wait_at(headers, 0);
        proof {
            assert(secs == retry_wait_spec(*headers, 0));
        }
        return secs;
    }
    match clock {
        Some(now) => {
            let secs = retry_wait_at(headers, now);
            proof {
                assert(secs == retry_wait_spec(*headers, now));
            }
            secs
        },
        None => DEFAULT_RATE_LIMIT_WAIT_SECS,
    }
}

/// The later the clock reads, the shorter the wait, by exactly the time gone
/// by until only the last second is left.
pub proof fn lemma_wait_shrinks_with_time(headers: RateLimitHeaders, now: u64, later: u64)
    requires
        now <= later,
    ensures
        retry_wait_spec(headers, later) <= retry_wait_spec(headers, now),
        retry_wait_spec(headers, later) >= 1,
        parsed_header(headers.retry_after) is None && parsed_header(headers.ratelimit_reset) is Some
            && retry_wait_spec(headers, later) > 1 ==> retry_wait_spec(headers, now)
            == retry_wait_spec(headers, later) + (later - now),
{
}

// ---------------------------------------------------------------------------
// Retrying one page

/// What a request for a page came to.
pub enum BatchOutcome {
    /// The request failed (see [`interpret_batch_response`]).
    Failed(AnilistError),
    /// AniList answered.
    Answered(GetMediaBatchResponse),
}

/// What to do after a request for a page.
pub enum RetryAction {
    /// Sleep this many seconds, then request the same page again.
    WaitSecs(u64),
    /// Stop the scrape with this error.
    GiveUp(AnilistError),
    /// The page arrived.
    Deliver(Page),
}

/// The retry state of one page.
pub struct PageRetry {
    page_number: i32,
    /// Consecutive failed attempts so far.
    retries: u32,
    /// Every attempt at this page so far, in order (`true` for a failed one).
    history: Ghost<Seq<bool>>,
}

/// Whether an outcome is one the retry loop can act on: an answer that is
/// neither rate limited nor a server error carries its page.
pub open spec fn outcome_acceptable(o: BatchOutcome) -> bool {
    match o {
        BatchOutcome::Failed(_) => true,
        BatchOutcome::Answered(r) => r.status_code == TOO_MANY_REQUESTS || status_is_server_error(
            r.status_code,
        ) || r.page is Some,
    }
}

/// Whether an outcome counts as a failed attempt.
pub open spec fn outcome_failed(o: BatchOutcome) -> bool {
    match o {
        BatchOutcome::Failed(_) => true,
        BatchOutcome::Answered(r) => r.status_code == TOO_MANY_REQUESTS || status_is_server_error(
            r.status_code,
        ),
    }
}

/// The failure count after a series of attempts at a page (`true` for a
/// failed attempt): each failure adds one, a delivered page clears it.
pub open spec fn failure_count(attempts: Seq<bool>) -> nat
    decreases attempts.len(),
{
    if attempts.len() == 0 {
        0
    } else if attempts.last() {
        failure_count(attempts.drop_last()) + 1
    } else {
        0
    }
}

/// A page is given up only after more than [`MAX_RETRIES`] attempts in a
/// row have failed: the count never exceeds the length of the trailing run
/// of failures, and equals it.
pub proof fn lemma_failure_count_is_trailing_failures(attempts: Seq<bool>)
    ensures
        failure_count(attempts) <= attempts.len(),
        forall|i: int|
            attempts.len() - failure_count(attempts) <= i < attempts.len() ==> #[trigger] attempts[i],
        failure_count(attempts) < attempts.len() ==> !attempts[attempts.len() - 1
            - failure_count(attempts)],
    decreases attempts.len(),
{
    if attempts.len() > 0 {
        let prev = attempts.drop_last();
        lemma_failure_count_is_trailing_failures(prev);
        if attempts.last() {
            assert forall|i: int|
                attempts.len() - failure_count(attempts) <= i < attempts.len() implies #[trigger] attempts[i] by {
                if i < attempts.len() - 1 {
                    assert(attempts[i] == prev[i]);
                }
            }
            if failure_count(attempts) < attempts.len() {
                assert(attempts[attempts.len() - 1 - failure_count(attempts)] == prev[prev.len() - 1
                    - failure_count(prev)]);
            }
        }
    }
}

impl PageRetry {
    /// The page being fetched.
    pub closed spec fn page(self) -> i32 {
        self.page_number
    }

    /// Consecutive failed attempts so far.
    pub closed spec fn failures(self) -> u32 {
        self.retries
    }

    /// Every attempt at this page so far, in order (`true` for a failed one).
    pub closed spec fn attempts(self) -> Seq<bool> {
        self.history@
    }

    /// The count of consecutive failures is the one the attempts so far give.
    pub closed spec fn wf(self) -> bool {
        self.retries == failure_count(self.history@)
    }

    pub fn retries(&self) -> (r: u32)
        ensures
            r == self.failures(),
    {
        self.retries
    }

    /// The retry count is the trailing run of failed attempts at the page:
    /// a page is given up only after more than [`MAX_RETRIES`] attempts in a
    /// row have failed, and a delivered page starts the count afresh.
    pub proof fn lemma_failures_are_the_trailing_run(self)
        requires
            self.wf(),
        ensures
            self.failures() == failure_count(self.attempts()),
            forall|i: int|
                self.attempts().len() - self.failures() <= i < self.attempts().len()
                    ==> #[trigger] self.attempts()[i],
            self.failures() < self.attempts().len() ==> !self.attempts()[self.attempts().len()
                - 1 - self.failures()],
    {
        lemma_failure_count_is_trailing_failures(self.history@);
    }

    pub fn new(page_number: i32) -> (p: PageRetry)
        ensures
            p.page() == page_number,
            p.failures() == 0,
            p.attempts() == Seq::<bool>::empty(),
            p.wf(),
    {
        PageRetry { page_number, retries: 0, history: Ghost(Seq::empty()) }
    }

    /// Decides what follows an attempt. A failed request, a rate-limited
    /// answer and a server error each count as a failed attempt; once more
    /// than [`MAX_RETRIES`] attempts in a row have failed the scrape gives
    /// up, otherwise it waits ([`BACKOFF_SECS`], or [`retry_wait`] after a
    /// 429) and tries again. Any other answer delivers its page and clears
    /// the count.
    pub fn on_outcome(&mut self, outcome: BatchOutcome) -> (a: RetryAction)
        requires
            old(self).wf(),
            old(self).failures() <= MAX_RETRIES,
            outcome_acceptable(outcome),
        ensures
            final(self).wf(),
            final(self).attempts() == old(self).attempts().push(outcome_failed(outcome)),
            final(self).page() == old(self).page(),
            final(self).failures() == if outcome_failed(outcome) {
                old(self).failures() + 1
            } else {
                0
            },
            match outcome {
                BatchOutcome::Failed(e) => {
                    &&& final(self).failures() == old(self).failures() + 1
                    &&& final(self).failures() > MAX_RETRIES ==> a == RetryAction::GiveUp(
                        AnilistError::RetriesExhausted {
                            page: old(self).page(),
                            cause: Box::new(e),
                        },
                    )
                    &&& final(self).failures() <= MAX_RETRIES ==> a == RetryAction::WaitSecs(
                        BACKOFF_SECS,
                    )
                },
                BatchOutcome::Answered(r) => if r.status_code == TOO_MANY_REQUESTS {
                    &&& final(self).failures() == old(self).failures() + 1
                    &&& final(self).failures() > MAX_RETRIES ==> a == RetryAction::GiveUp(
                        AnilistError::RateLimitRetriesExhausted { page: old(self).page() },
                    )
                    &&& final(self).failures() <= MAX_RETRIES ==> (a matches RetryAction::WaitSecs(w)
                        && retry_wait_possible(r.headers, w) && w >= 1)
                } else if status_is_server_error(r.status_code) {
                    &&& final(self).failures() == old(self).failures() + 1
                    &&& final(self).failures() > MAX_RETRIES ==> (a matches RetryAction::GiveUp(
                        AnilistError::ServerErrorRetriesExhausted { page: p, status: s, body: b },
                    ) && p == old(self).page() && s == r.status_code && b@ == (match r.body {
                        Some(b) => b@,
                        None => Seq::empty(),
                    }))
                    &&& final(self).failures() <= MAX_RETRIES ==> a == RetryAction::WaitSecs(
                        BACKOFF_SECS,
                    )
                } else {
                    &&& final(self).failures() == 0
                    &&& a == RetryAction::Deliver(r.page.unwrap())
                },
            },
    {
        proof {
            let ghost h = self.history@.push(outcome_failed(outcome));
            assert(h.drop_last() =~= self.history@);
            self.history = Ghost(h);
        }
        match outcome {
            BatchOutcome::Failed(e) => {
                self.retries = self.retries + 1;
                if self.retries > MAX_RETRIES {
                    RetryAction::GiveUp(
                        AnilistError::RetriesExhausted { page: self.page_number, cause: Box::new(e) },
                    )
                } else {
                    RetryAction::WaitSecs(BACKOFF_SECS)
                }
            },
            BatchOutcome::Answered(r) => {
                if r.status_code == TOO_MANY_REQUESTS {
                    self.retries = self.retries + 1;
                    if self.retries > MAX_RETRIES {
                        RetryAction::GiveUp(
                            AnilistError::RateLimitRetriesExhausted { page: self.page_number },
                        )
                    } else {
                        RetryAction::WaitSecs(retry_wait(&r.headers))
                    }
                } else if is_server_error(r.status_code) {
                    self.retries = self.retries + 1;
                    if self.retries > MAX_RETRIES {
                        let body = match r.body {
                            Some(b) => b,
                            None => String::new(),
                        };
                        RetryAction::GiveUp(
                            AnilistError::ServerErrorRetriesExhausted {
                                page: self.page_number,
                                status: r.status_code,
                                body,
                            },
                        )
                    } else {
                        RetryAction::WaitSecs(BACKOFF_SECS)
                    }
                } else {
                    self.retries = 0;
                    match r.page {
                        Some(p) => RetryAction::Deliver(p),
                        None => {
                            proof {
                                assert(false);
                            }
                            RetryAction::WaitSecs(BACKOFF_SECS)
                        },
                    }
                }
            },
        }
    }
}

} // verus!
