use atlas::anilist::client::{
    fuzzy_date_fits, interpret_batch_response, is_server_error, is_success,
    media_batch_variables, retry_wait, retry_wait_at, scrape_window, scrape_window_fits,
    valid_date, AnilistError,
    BatchOutcome, Client, GetMediaBatchResponse, PageRetry, RateLimitHeaders, RetryAction,
    BACKOFF_SECS, MAX_PAGE, MAX_RETRIES, PER_PAGE,
};
use atlas::anilist::types::{
    ApiResponse, BatchAnimeQuery, FuzzyDate, Media, MediaSort, MediaStatus, Page, PageInfo,
};
use atlas::clock::unix_now_secs;
use atlas::numeric::{parse_i64, parse_u64};
use atlas::config::Config;

fn headers(retry_after: Option<&str>, reset: Option<&str>) -> RateLimitHeaders {
    RateLimitHeaders {
        retry_after: retry_after.map(|s| s.to_string()),
        ratelimit_reset: reset.map(|s| s.to_string()),
    }
}

fn bare_media(id: i32) -> Media {
    Media {
        id,
        id_mal: None,
        title: None,
        cover_image: None,
        format: None,
        status: None,
        season: None,
        season_year: None,
        synonyms: None,
        banner_image: None,
        description: None,
        episodes: None,
        duration: None,
        genres: None,
        average_score: None,
        popularity: None,
        start_date: None,
        end_date: None,
        updated_at: None,
    }
}

fn page(ids: &[i32], has_next: bool) -> Page {
    Page {
        page_info: PageInfo { total: ids.len() as i32, last_page: 1, has_next_page: has_next },
        media: ids.iter().map(|&i| bare_media(i)).collect(),
    }
}

fn date(year: Option<i32>, month: Option<i32>, day: Option<i32>) -> FuzzyDate {
    FuzzyDate { day, month, year }
}

#[test]
fn retry_after_accepts_plain_and_plus_signed_digits() {
    assert_eq!(retry_wait_at(&headers(Some("42"), None), 0), 42);
    assert_eq!(retry_wait_at(&headers(Some("+7"), None), 0), 7);
    assert_eq!(retry_wait_at(&headers(Some("18446744073709551615"), None), 0), u64::MAX);
}

#[test]
fn retry_after_rejects_signs_spaces_and_overflow() {
    for bad in ["-1", "", "+", " 5", "5 ", "18446744073709551616", "1.5"] {
        assert_eq!(retry_wait_at(&headers(Some(bad), None), 0), 60, "{bad:?}");
    }
}

#[test]
fn status_classes() {
    assert!(is_success(200));
    assert!(is_success(299));
    assert!(!is_success(300));
    assert!(!is_success(429));
    assert!(is_server_error(500));
    assert!(is_server_error(503));
    assert!(!is_server_error(404));
}

#[test]
fn retry_wait_prefers_retry_after_and_is_at_least_one_second() {
    assert_eq!(retry_wait_at(&headers(Some("30"), Some("5000")), 1000), 30);
    assert_eq!(retry_wait_at(&headers(Some("0"), None), 1000), 1);
}

#[test]
fn retry_wait_falls_back_to_the_reset_time() {
    assert_eq!(retry_wait_at(&headers(None, Some("1100")), 1000), 100);
    assert_eq!(retry_wait_at(&headers(Some("soon"), Some("1100")), 1000), 100);
    assert_eq!(retry_wait_at(&headers(None, Some("900")), 1000), 1);
    assert_eq!(retry_wait_at(&headers(None, Some("1000")), 1000), 1);
}

#[test]
fn retry_wait_defaults_to_a_minute() {
    assert_eq!(retry_wait_at(&headers(None, None), 1000), 60);
    assert_eq!(retry_wait_at(&headers(Some("x"), Some("y")), 1000), 60);
    assert_eq!(retry_wait(&headers(None, None)), 60);
}

#[test]
fn retry_wait_reads_the_clock_only_for_the_reset_header() {
    assert_eq!(retry_wait(&headers(Some("12"), None)), 12);
    // A reset time far in the future: the wait is the time left, at least one second.
    let w = retry_wait(&headers(None, Some("9999999999")));
    assert!(w >= 1 && w <= 9999999999);
    assert!(w > 60);
    // A reset time in the past waits one second.
    assert_eq!(retry_wait(&headers(None, Some("1"))), 1);
}

#[test]
fn batch_variables_carry_the_page_and_the_filters() {
    let v = media_batch_variables(
        3,
        Some(19400000),
        None,
        &[MediaSort::StartDate],
        Some(&[MediaStatus::Releasing, MediaStatus::NotYetReleased]),
    );
    assert_eq!(v.page, 3);
    assert_eq!(v.per_page, PER_PAGE);
    assert_eq!(v.per_page, 50);
    assert_eq!(v.sort, vec![MediaSort::StartDate]);
    assert_eq!(v.start, Some(19400000));
    assert_eq!(v.end, None);
    assert_eq!(v.status_in, Some(vec![MediaStatus::Releasing, MediaStatus::NotYetReleased]));
    let w = media_batch_variables(1, None, None, &[MediaSort::UpdatedAtDesc], None);
    assert!(w.status_in.is_none());
}

#[test]
fn rate_limited_answer_is_handed_back_with_its_body() {
    let r = interpret_batch_response(429, headers(Some("3"), None), Ok("slow down".to_string()), None);
    match r {
        Ok(resp) => {
            assert!(resp.page.is_none());
            assert_eq!(resp.status_code, 429);
            assert_eq!(resp.body.as_deref(), Some("slow down"));
            assert_eq!(resp.headers.retry_after.as_deref(), Some("3"));
        }
        Err(_) => panic!("a 429 is not an error"),
    }
}

#[test]
fn other_failure_status_is_an_error() {
    let r = interpret_batch_response(500, headers(None, None), Ok("oops".to_string()), None);
    match r {
        Err(AnilistError::HttpStatus { status, body }) => {
            assert_eq!(status, 500);
            assert_eq!(body, "oops");
        }
        _ => panic!("expected an HTTP status error"),
    }
}

#[test]
fn success_without_json_or_page_is_an_error() {
    let r = interpret_batch_response(200, headers(None, None), Ok("<html>".to_string()), None);
    assert!(matches!(r, Err(AnilistError::InvalidJson { ref body }) if body == "<html>"));
    let empty = ApiResponse { data: Some(BatchAnimeQuery { page: None }) };
    let r = interpret_batch_response(200, headers(None, None), Ok("{}".to_string()), Some(empty));
    assert!(matches!(r, Err(AnilistError::NoMediaFound)));
    let none = ApiResponse { data: None };
    let r = interpret_batch_response(200, headers(None, None), Ok("{}".to_string()), Some(none));
    assert!(matches!(r, Err(AnilistError::NoMediaFound)));
}

#[test]
fn success_carries_the_page() {
    let parsed = ApiResponse { data: Some(BatchAnimeQuery { page: Some(page(&[1, 2], true)) }) };
    let r = interpret_batch_response(200, headers(None, None), Ok("{..}".to_string()), Some(parsed));
    match r {
        Ok(resp) => {
            let p = resp.page.expect("page");
            assert_eq!(p.media.len(), 2);
            assert_eq!(p.media[1].id, 2);
            assert!(resp.body.is_none());
            assert_eq!(resp.status_code, 200);
        }
        Err(_) => panic!("expected a page"),
    }
}

fn answered(status: u16, with_page: bool) -> BatchOutcome {
    BatchOutcome::Answered(GetMediaBatchResponse {
        page: if with_page { Some(page(&[7], false)) } else { None },
        headers: headers(Some("2"), None),
        status_code: status,
        body: Some("busy".to_string()),
    })
}

#[test]
fn gives_up_on_the_sixth_consecutive_failure() {
    let mut retry = PageRetry::new(4);
    for attempt in 1..=MAX_RETRIES {
        let a = retry.on_outcome(BatchOutcome::Failed(AnilistError::NoMediaFound));
        assert!(matches!(a, RetryAction::WaitSecs(s) if s == BACKOFF_SECS));
        assert_eq!(retry.retries(), attempt);
    }
    let a = retry.on_outcome(BatchOutcome::Failed(AnilistError::NoMediaFound));
    match a {
        RetryAction::GiveUp(AnilistError::RetriesExhausted { page, cause }) => {
            assert_eq!(page, 4);
            assert!(matches!(*cause, AnilistError::NoMediaFound));
        }
        _ => panic!("expected to give up"),
    }
}

#[test]
fn a_delivered_page_clears_the_failure_count() {
    let mut retry = PageRetry::new(1);
    let a = retry.on_outcome(answered(503, false));
    assert!(matches!(a, RetryAction::WaitSecs(5)));
    let a = retry.on_outcome(answered(429, false));
    assert!(matches!(a, RetryAction::WaitSecs(2)));
    assert_eq!(retry.retries(), 2);
    let a = retry.on_outcome(answered(200, true));
    match a {
        RetryAction::Deliver(p) => assert_eq!(p.media[0].id, 7),
        _ => panic!("expected the page"),
    }
    assert_eq!(retry.retries(), 0);
}

#[test]
fn rate_limit_and_server_errors_give_up_with_their_own_error() {
    let mut retry = PageRetry::new(9);
    for _ in 0..MAX_RETRIES {
        let _ = retry.on_outcome(answered(429, false));
    }
    assert!(matches!(
        retry.on_outcome(answered(429, false)),
        RetryAction::GiveUp(AnilistError::RateLimitRetriesExhausted { page: 9 })
    ));
    let mut retry = PageRetry::new(2);
    for _ in 0..MAX_RETRIES {
        let _ = retry.on_outcome(answered(502, false));
    }
    match retry.on_outcome(answered(502, false)) {
        RetryAction::GiveUp(AnilistError::ServerErrorRetriesExhausted { page, status, body }) => {
            assert_eq!((page, status), (2, 502));
            assert_eq!(body, "busy");
        }
        _ => panic!("expected to give up"),
    }
}

#[test]
fn fuzzy_date_without_margin_counts_missing_parts_as_zero() {
    assert_eq!(Client::fuzzy_date_to_int(&date(Some(2024), Some(3), Some(5)), 0), Some(20240305));
    assert_eq!(Client::fuzzy_date_to_int(&date(Some(2024), None, None), 0), Some(20240000));
    assert_eq!(Client::fuzzy_date_to_int(&date(Some(1999), Some(12), None), 0), Some(19991200));
    assert_eq!(Client::fuzzy_date_to_int(&date(None, Some(1), Some(1)), 0), None);
}

#[test]
fn fuzzy_date_with_margin_moves_across_months_and_years() {
    assert_eq!(Client::fuzzy_date_to_int(&date(Some(2024), Some(3), Some(1)), -1), Some(20240229));
    assert_eq!(Client::fuzzy_date_to_int(&date(Some(2023), Some(3), Some(1)), -1), Some(20230228));
    assert_eq!(Client::fuzzy_date_to_int(&date(Some(2024), None, None), -1), Some(20231231));
    assert_eq!(Client::fuzzy_date_to_int(&date(Some(2024), Some(12), Some(31)), 1), Some(20250101));
    assert_eq!(Client::fuzzy_date_to_int(&date(Some(2024), Some(1), Some(2)), 5000), Some(20370910));
}

#[test]
fn fuzzy_date_with_margin_needs_a_real_day() {
    assert_eq!(Client::fuzzy_date_to_int(&date(Some(2023), Some(2), Some(29)), -1), None);
    assert_eq!(Client::fuzzy_date_to_int(&date(Some(2023), Some(13), Some(1)), -1), None);
    assert_eq!(Client::fuzzy_date_to_int(&date(Some(2023), Some(-1), Some(1)), -1), None);
    assert_eq!(Client::fuzzy_date_to_int(&date(None, None, None), -1), None);
}

#[test]
fn fuzzy_date_bounds() {
    assert!(fuzzy_date_fits(&date(Some(2024), Some(3), Some(1)), -1));
    assert!(!fuzzy_date_fits(&date(Some(300000), Some(1), Some(1)), 0));
    // Out of chrono's years: no date, so no overflow either.
    assert!(fuzzy_date_fits(&date(Some(300000), Some(1), Some(1)), -1));
    assert!(!fuzzy_date_fits(&date(Some(250000), Some(1), Some(2)), -1));
    assert!(fuzzy_date_fits(&date(Some(2024), Some(1), Some(2)), 5000));
    assert!(!fuzzy_date_fits(&date(Some(2024), Some(1), Some(2)), 100_000_000));
    assert!(fuzzy_date_fits(&date(Some(214740), Some(1), Some(2)), -1));
    // The bound is the shifted date itself: its integer must fit in i32.
    assert!(fuzzy_date_fits(&date(Some(-214748), Some(1), Some(2)), -1));
    assert!(!fuzzy_date_fits(&date(Some(-214748), Some(1), Some(1)), -1));
    assert!(fuzzy_date_fits(&date(Some(214749), Some(1), Some(1)), -1));
    assert_eq!(Client::fuzzy_date_to_int(&date(Some(214749), Some(1), Some(1)), -1), Some(2147481231));
    assert_eq!(
        Client::fuzzy_date_to_int(&date(Some(-214748), Some(1), Some(2)), -1),
        Some(-2147480000 + 101)
    );
    assert!(!fuzzy_date_fits(&date(Some(214748), Some(12), Some(31)), 1));
    // A day that does not exist is never shifted, whatever the margin.
    assert!(fuzzy_date_fits(&date(Some(2023), Some(2), Some(30)), i64::MIN));
    assert!(fuzzy_date_fits(&date(None, None, None), i64::MAX));
}

#[test]
fn calendar_validity() {
    assert!(valid_date(2024, 2, 29));
    assert!(!valid_date(2023, 2, 29));
    assert!(valid_date(2000, 2, 29));
    assert!(!valid_date(1900, 2, 29));
    assert!(valid_date(-4, 2, 29));
    assert!(!valid_date(2023, 4, 31));
    assert!(!valid_date(400000, 1, 1));
}

#[test]
fn scrape_window_runs_three_years_ahead() {
    assert_eq!(scrape_window(2024, 1, 1), (19400000, 20261231));
    assert_eq!(scrape_window(2023, 6, 15), (19400000, 20260614));
}

#[test]
fn page_limit_constants() {
    assert_eq!(MAX_PAGE, 100);
    assert_eq!(MAX_PAGE * PER_PAGE, 5000);
}

#[test]
fn client_takes_its_settings_from_the_config() {
    let config = Config::from_vars(
        Some("https://graphql.anilist.co".to_string()),
        Some("https://jiten.moe".to_string()),
        Some("key".to_string()),
        Some("out".to_string()),
        Some("http://localhost:7700".to_string()),
        Some("master".to_string()),
    )
    .ok()
    .expect("complete config");
    let c = Client::new(&config);
    assert_eq!(c.api_url, "https://graphql.anilist.co");
    assert_eq!(c.data_folder, "out");
}

#[test]
fn a_transport_failure_is_kept_as_the_cause() {
    let mut retry = PageRetry::new(12);
    let mut last = None;
    for _ in 0..=MAX_RETRIES {
        last = Some(retry.on_outcome(BatchOutcome::Failed(AnilistError::Transport {
            message: "connection reset".to_string(),
        })));
    }
    match last {
        Some(RetryAction::GiveUp(AnilistError::RetriesExhausted { page: 12, cause })) => match *cause {
            AnilistError::Transport { message } => assert_eq!(message, "connection reset"),
            _ => panic!("expected the transport error"),
        },
        _ => panic!("expected to give up"),
    }
}

#[test]
fn unreadable_success_body_is_an_error() {
    let r = interpret_batch_response(200, headers(None, None), Err("connection closed".to_string()), None);
    assert!(matches!(r, Err(AnilistError::BodyUnreadable { ref message }) if message == "connection closed"));
    let r = interpret_batch_response(503, headers(None, None), Err("gone".to_string()), None);
    assert!(matches!(r, Err(AnilistError::HttpStatus { status: 503, ref body }) if body.is_empty()));
    let r = interpret_batch_response(429, headers(None, None), Err("gone".to_string()), None);
    assert!(matches!(r, Ok(ref resp) if resp.body.as_deref() == Some("")));
}

#[test]
fn scrape_window_fits_a_real_day_only() {
    assert!(scrape_window_fits(2024, 2, 29));
    assert!(!scrape_window_fits(2023, 2, 29));
    assert!(!scrape_window_fits(2024, 13, 1));
    assert!(!scrape_window_fits(214747, 1, 1));
    assert!(scrape_window_fits(214745, 12, 31));
    assert_eq!(scrape_window(214745, 12, 31), (19400000, 2147481230));
    assert!(scrape_window_fits(214746, 1, 1));
    assert!(!scrape_window_fits(214746, 1, 2));
    assert!(scrape_window_fits(1, 1, 1));
}

#[test]
fn the_clock_reads_a_time_after_1970() {
    let now = unix_now_secs().expect("clock after 1970");
    assert!(now > 1_600_000_000);
}

#[test]
fn a_rate_limit_without_headers_waits_a_minute() {
    assert_eq!(retry_wait(&headers(None, None)), 60);
    // A reset long past waits the least, one second.
    assert_eq!(retry_wait(&headers(None, Some("1000"))), 1);
}

#[test]
fn integer_parsing_agrees_with_std() {
    let cases = [
        "0", "+7", "-7", "42", "007", "", "+", "-", "+-1", "-+1", " 1", "1 ", "1_000", "12a",
        "18446744073709551615", "18446744073709551616", "9223372036854775807",
        "9223372036854775808", "-9223372036854775808", "-9223372036854775809",
        "99999999999999999999999", "\u{0661}",
    ];
    for c in cases {
        assert_eq!(parse_u64(c), c.parse::<u64>().ok(), "u64 {c:?}");
        assert_eq!(parse_i64(c), c.parse::<i64>().ok(), "i64 {c:?}");
    }
    assert_eq!(parse_u64("18446744073709551615"), Some(u64::MAX));
    assert_eq!(parse_i64("-9223372036854775808"), Some(i64::MIN));
}
