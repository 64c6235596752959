use atlas::anilist::client::{AnilistError, PageRequest};
use atlas::anilist::incremental::{
    next_scrape_cutoff, read_cutoff, CutoffError, IncrementalResult, IncrementalScrape, PageStep,
};
use atlas::calendar::{MAX_TIMESTAMP, MIN_TIMESTAMP};
use atlas::anilist::scrape::{FullScrape, ScrapePhase};
use atlas::anilist::types::{FuzzyDate, Media, MediaCoverImage, MediaFormat, MediaSort, MediaStatus, Page, PageInfo, Title};

fn media(id: i32, start_year: Option<i32>, updated_at: Option<i64>) -> Media {
    Media {
        id,
        id_mal: None,
        title: Some(Title {
            english: Some(format!("Show {id}")),
            romaji: None,
            native: None,
        }),
        cover_image: None,
        format: Some(MediaFormat::Tv),
        status: None,
        season: None,
        season_year: None,
        synonyms: Some(vec![Some("alias".to_string()), None]),
        banner_image: None,
        description: None,
        episodes: Some(12),
        duration: None,
        genres: None,
        average_score: None,
        popularity: None,
        start_date: Some(FuzzyDate { day: Some(1), month: Some(4), year: start_year }),
        end_date: None,
        updated_at,
    }
}

fn page_of(items: Vec<Media>, has_next: bool) -> Page {
    Page {
        page_info: PageInfo { total: items.len() as i32, last_page: 1, has_next_page: has_next },
        media: items,
    }
}

/// Reads empty pages of the first window until its last page number.
fn to_page_limit(s: &mut FullScrape) {
    if matches!(s.phase(), ScrapePhase::Undated { .. }) {
        assert!(s.absorb(page_of(Vec::new(), false)).is_ok());
    }
    for _ in 1..100 {
        assert!(s.absorb(page_of(Vec::new(), true)).is_ok());
    }
    assert!(matches!(s.phase(), ScrapePhase::Range { page_number: 100, .. }));
}

fn ids(v: &[Media]) -> Vec<i32> {
    v.iter().map(|m| m.id).collect()
}

#[test]
fn undated_phase_takes_entries_up_to_the_first_dated_one() {
    let mut s = FullScrape::new(19400000, 20261231);
    assert_eq!(
        s.next_request(),
        Some(PageRequest { page_number: 1, start: None, end: None, sort: MediaSort::StartDate, active_only: false })
    );
    let page = page_of(
        vec![media(1, None, None), media(1, None, None), media(2, Some(1990), None), media(3, None, None)],
        true,
    );
    assert!(s.can_absorb(&page));
    assert!(s.absorb(page).is_ok());
    assert_eq!(ids(s.out()), vec![1]);
    assert!(s.seen().contains(&1) && s.seen().len() == 1);
    assert_eq!(s.batch(), 1);
    assert_eq!(
        s.next_request(),
        Some(PageRequest { page_number: 1, start: Some(19400000), end: Some(20261231), sort: MediaSort::StartDate, active_only: false })
    );
}

#[test]
fn undated_phase_pages_on_while_every_entry_is_undated() {
    let mut s = FullScrape::new(1, 2);
    assert!(s.absorb(page_of(vec![media(5, None, None)], true)).is_ok());
    assert_eq!(s.batch(), 2);
    assert_eq!(s.next_request(), Some(PageRequest { page_number: 2, start: None, end: None, sort: MediaSort::StartDate, active_only: false }));
    assert!(s.absorb(page_of(vec![media(6, None, None)], false)).is_ok());
    assert_eq!(ids(s.out()), vec![5, 6]);
    assert!(matches!(s.phase(), ScrapePhase::Range { page_number: 1, .. }));
}

#[test]
fn range_phase_buffers_until_the_last_page() {
    let mut s = FullScrape::new(19400000, 20261231);
    assert!(s.absorb(page_of(vec![media(1, None, None)], false)).is_ok());
    assert!(s.absorb(page_of(vec![media(10, Some(2000), None), media(1, None, None)], true)).is_ok());
    // Buffered, not yet appended.
    assert_eq!(ids(s.out()), vec![1]);
    assert_eq!(s.next_request().map(|r| r.page_number), Some(2));
    assert!(s.absorb(page_of(vec![media(11, Some(2001), None), media(10, Some(2000), None)], false)).is_ok());
    assert_eq!(ids(s.out()), vec![1, 10, 11]);
    assert!(matches!(s.phase(), ScrapePhase::Done));
    assert_eq!(s.next_request(), None);
}

#[test]
fn range_phase_splits_the_window_at_the_page_limit() {
    let mut s = FullScrape::new(19400000, 20261231);
    to_page_limit(&mut s);
    let mut last = media(20, Some(2010), None);
    last.start_date = Some(FuzzyDate { day: Some(1), month: Some(3), year: Some(2012) });
    let page = page_of(vec![media(19, Some(2009), None), last], true);
    assert!(s.can_absorb(&page));
    assert!(s.absorb(page).is_ok());
    assert_eq!(ids(s.out()), vec![19, 20]);
    assert_eq!(s.batch(), 101);
    assert_eq!(
        s.next_request(),
        Some(PageRequest { page_number: 1, start: Some(20120229), end: Some(20261231), sort: MediaSort::StartDate, active_only: false })
    );
}

#[test]
fn page_limit_without_a_start_year_is_an_error() {
    let mut s = FullScrape::new(19400000, 20261231);
    to_page_limit(&mut s);
    let page = page_of(vec![media(21, None, None)], true);
    assert!(matches!(s.absorb(page), Err(AnilistError::CutoffUnavailable)));
}

#[test]
fn page_limit_on_a_date_too_far_out_cannot_be_absorbed() {
    let mut s = FullScrape::new(19400000, 20261231);
    to_page_limit(&mut s);
    let page = page_of(vec![media(22, Some(250000), None)], true);
    assert!(!s.can_absorb(&page));
}

fn noisy_copy(m: &Media, updated_at: i64) -> Media {
    let mut c = m.duplicate();
    c.updated_at = Some(updated_at);
    c
}

#[test]
fn incremental_start_indexes_the_previous_records() {
    let s = IncrementalScrape::new(
        vec![media(1, Some(2000), Some(10)), media(2, Some(2001), Some(10)), media(1, Some(2002), Some(11))],
        100,
    );
    assert_eq!(s.by_id().len(), 2);
    assert_eq!(s.seen().len(), 2);
    // The later record with an id wins.
    assert_eq!(s.by_id()[&1].updated_at, Some(11));
    assert_eq!(s.result(), IncrementalResult { real_changes: 0, new_entries: 0, noise: 0 });
    assert_eq!((s.page_number(), s.batch()), (1, 1));
}

#[test]
fn incremental_page_counts_noise_changes_and_new_entries() {
    let known = media(1, Some(2000), Some(50));
    let mut s = IncrementalScrape::new(vec![known.duplicate(), media(2, Some(2000), Some(50))], 100);
    let mut changed = media(2, Some(2000), Some(150));
    changed.episodes = Some(24);
    let page = page_of(
        vec![
            noisy_copy(&known, 200),
            changed,
            media(3, None, None),
            media(4, Some(2020), Some(120)),
            media(5, Some(2020), Some(99)),
            media(6, Some(2020), Some(300)),
        ],
        true,
    );
    let step = s.absorb_page(page);
    assert_eq!(step, PageStep::Stop);
    assert_eq!(s.result(), IncrementalResult { real_changes: 1, new_entries: 1, noise: 1 });
    // Noise keeps the stored record; a change replaces it; the entry after the cutoff is never read.
    assert_eq!(s.by_id()[&1].updated_at, Some(50));
    assert_eq!(s.by_id()[&2].episodes, Some(24));
    assert!(s.by_id().contains_key(&4));
    assert!(!s.by_id().contains_key(&3));
    assert!(!s.by_id().contains_key(&6));
    assert_eq!(s.seen().len(), s.by_id().len());
    assert!(s.result().has_changes());
    assert_eq!((s.page_number(), s.batch()), (1, 1));
}

#[test]
fn incremental_page_without_cutoff_asks_for_the_next_page() {
    let mut s = IncrementalScrape::new(Vec::new(), 0);
    let step = s.absorb_page(page_of(vec![media(8, None, Some(5))], true));
    assert_eq!(step, PageStep::FetchNext);
    assert_eq!((s.page_number(), s.batch()), (2, 2));
    let step = s.absorb_page(page_of(vec![media(9, None, Some(4))], false));
    assert_eq!(step, PageStep::Stop);
    assert_eq!(s.result().new_entries, 2);
}

#[test]
fn incremental_result_without_changes() {
    let r = IncrementalResult { real_changes: 0, new_entries: 0, noise: 7 };
    assert!(!r.has_changes());
    let r = IncrementalResult { real_changes: 0, new_entries: 1, noise: 0 };
    assert!(r.has_changes());
}

#[test]
fn content_equality_ignores_the_edit_time_only() {
    let a = media(1, Some(2000), Some(1));
    let b = noisy_copy(&a, 2);
    assert!(a.content_eq(&b));
    let mut c = a.duplicate();
    c.cover_image = Some(MediaCoverImage { medium: None, large: Some("l.png".to_string()), extra_large: None });
    assert!(!a.content_eq(&c));
    let mut d = a.duplicate();
    d.synonyms = Some(vec![Some("alias".to_string())]);
    assert!(!a.content_eq(&d));
    let mut e = a.duplicate();
    e.start_date = Some(FuzzyDate { day: None, month: Some(4), year: Some(2000) });
    assert!(!a.content_eq(&e));
}

#[test]
fn duplicate_copies_every_field() {
    let a = media(42, Some(1999), Some(7));
    let b = a.duplicate();
    assert!(a.content_eq(&b));
    assert_eq!(b.updated_at, Some(7));
    assert_eq!(b.title.as_ref().and_then(|t| t.english.clone()), Some("Show 42".to_string()));
}

#[test]
fn next_cutoff_is_an_hour_before_the_run() {
    assert_eq!(next_scrape_cutoff(1_700_000_000), 1_699_996_400);
    assert_eq!(next_scrape_cutoff(0), -3600);
}

#[test]
fn saved_cutoff_is_read_without_surrounding_white_space() {
    assert_eq!(read_cutoff(" 1700000000\n"), Ok(1_700_000_000));
    assert_eq!(read_cutoff("-3600"), Ok(-3600));
    assert_eq!(read_cutoff("\t+42 \r\n"), Ok(42));
    assert_eq!(read_cutoff("abc"), Err(CutoffError::NotANumber));
    assert_eq!(read_cutoff(""), Err(CutoffError::NotANumber));
    assert_eq!(read_cutoff("17 00"), Err(CutoffError::NotANumber));
    assert_eq!(read_cutoff("99999999999999999999"), Err(CutoffError::NotANumber));
}

#[test]
fn saved_cutoff_must_be_a_time_chrono_represents() {
    assert_eq!(read_cutoff(&MIN_TIMESTAMP.to_string()), Ok(MIN_TIMESTAMP));
    assert_eq!(read_cutoff(&MAX_TIMESTAMP.to_string()), Ok(MAX_TIMESTAMP));
    assert_eq!(read_cutoff(&(MIN_TIMESTAMP - 1).to_string()), Err(CutoffError::OutOfRange));
    assert_eq!(read_cutoff(&(MAX_TIMESTAMP + 1).to_string()), Err(CutoffError::OutOfRange));
    assert_eq!(read_cutoff(&i64::MAX.to_string()), Err(CutoffError::OutOfRange));
}

#[test]
fn incremental_run_starts_from_the_saved_text() {
    let s = IncrementalScrape::start(vec![media(1, Some(2000), Some(10))], "500\n").ok().unwrap();
    assert_eq!(s.cutoff_ts(), 500);
    assert_eq!(s.by_id().len(), 1);
    assert_eq!((s.page_number(), s.batch()), (1, 1));
    assert!(matches!(IncrementalScrape::start(Vec::new(), "soon"), Err(CutoffError::NotANumber)));
    assert!(matches!(
        IncrementalScrape::start(Vec::new(), "9223372036854775807"),
        Err(CutoffError::OutOfRange)
    ));
}

#[test]
fn incremental_requests_recent_updates_of_active_entries() {
    let mut s = IncrementalScrape::new(Vec::new(), 0);
    assert_eq!(
        s.next_request(),
        PageRequest { page_number: 1, start: None, end: None, sort: MediaSort::UpdatedAtDesc, active_only: true }
    );
    s.absorb_page(page_of(vec![media(8, None, Some(5))], true));
    assert_eq!(s.next_request().page_number, 2);
    let v = s.next_request().variables();
    assert_eq!(v.sort, vec![MediaSort::UpdatedAtDesc]);
    assert_eq!(v.status_in, Some(vec![MediaStatus::Releasing, MediaStatus::NotYetReleased]));
    assert_eq!((v.start, v.end), (None, None));
}

#[test]
fn full_scrape_requests_by_start_date_without_a_status_filter() {
    let s = FullScrape::new(19400000, 20261231);
    let v = s.next_request().unwrap().variables();
    assert_eq!(v.page, 1);
    assert_eq!(v.sort, vec![MediaSort::StartDate]);
    assert_eq!(v.status_in, None);
}

#[test]
fn fallback_result_counts_every_entry_as_new() {
    let r = IncrementalResult::from_full_scrape(1234);
    assert_eq!(r, IncrementalResult { real_changes: 0, new_entries: 1234, noise: 0 });
    assert!(r.has_changes());
    assert!(!IncrementalResult::from_full_scrape(0).has_changes());
}

#[test]
fn written_ids_are_the_ids_of_the_written_records() {
    let mut s = IncrementalScrape::new(vec![media(3, Some(2000), Some(1)), media(3, Some(2001), Some(2))], 0);
    s.absorb_page(page_of(vec![media(7, None, Some(9)), media(3, Some(2005), Some(8))], false));
    let mut written: Vec<i32> = s.by_id().values().map(|m| m.id).collect();
    written.sort();
    let mut keys: Vec<i32> = s.seen().iter().copied().collect();
    keys.sort();
    assert_eq!(written, vec![3, 7]);
    assert_eq!(keys, written);
}

#[test]
fn a_missing_cutoff_leaves_the_output_unchanged() {
    let mut s = FullScrape::new(19400000, 20261231);
    assert!(s.absorb(page_of(vec![media(1, None, None)], false)).is_ok());
    to_page_limit(&mut s);
    let page = page_of(vec![media(30, Some(2001), None), media(31, None, None)], true);
    assert!(matches!(s.absorb(page), Err(AnilistError::CutoffUnavailable)));
    assert_eq!(ids(s.out()), vec![1]);
    assert!(!s.seen().contains(&30) && !s.seen().contains(&31));
}

#[test]
fn incremental_run_keeps_an_edit_at_the_cutoff() {
    let mut s = IncrementalScrape::start(Vec::new(), "1000").ok().unwrap();
    let step = s.absorb_page(page_of(vec![media(7, None, Some(1000))], false));
    assert_eq!(step, PageStep::Stop);
    assert_eq!(s.page_number(), 1);
    let (by_id, seen) = s.into_parts();
    assert_eq!(by_id.len(), 1);
    assert_eq!(by_id[&7].id, 7);
    assert_eq!(seen.into_iter().collect::<Vec<i32>>(), vec![7]);
    assert_eq!(next_scrape_cutoff(5000), 1400);
}

#[test]
fn a_new_full_scrape_has_no_ids() {
    let s = FullScrape::new(19400000, 20261231);
    assert!(s.seen().is_empty());
    let (out, seen) = s.into_parts();
    assert!(out.is_empty() && seen.is_empty());
}
