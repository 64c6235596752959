//! The full scrape: first the entries without a start year, then the entries
//! by start date, split into windows whenever AniList's page limit is hit.
use std::collections::HashSet;
use vstd::prelude::*;
use crate::anilist::types::{FuzzyDate, Media, Page};
use crate::anilist::client::{
    fuzzy_date_in_range, fuzzy_date_value, AnilistError, Client, PageRequest, MAX_PAGE,
};
use crate::anilist::types::MediaSort;

verus! {

broadcast use vstd::std_specs::hash::group_hash_axioms;

/// The records collected so far, each id once, and the set of their ids.
pub open spec fn ids_match(seen: Set<i32>, out: Seq<Media>) -> bool {
    &&& forall|i: int| 0 <= i < out.len() ==> seen.contains(#[trigger] out[i].id)
    &&& forall|x: i32| seen.contains(x) ==> exists|i: int| 0 <= i < out.len() && #[trigger] out[i].id == x
    &&& forall|i: int, j: int| 0 <= i < j < out.len() ==> #[trigger] out[i].id != #[trigger] out[j].id
}

/// Records appended in order, each only if its id is not yet seen.
pub open spec fn dedup_append(seen: Set<i32>, out: Seq<Media>, items: Seq<Media>) -> (Set<i32>, Seq<Media>)
    decreases items.len(),
{
    if items.len() == 0 {
        (seen, out)
    } else {
        let m = items[0];
        if seen.contains(m.id) {
            dedup_append(seen, out, items.drop_first())
        } else {
            dedup_append(seen.insert(m.id), out.push(m), items.drop_first())
        }
    }
}

/// Whether a record has a known start year.
pub open spec fn has_start_year(m: Media) -> bool {
    match m.start_date {
        Some(d) => d.year is Some,
        None => false,
    }
}

/// A page of the start-date-ascending listing absorbed while collecting the
/// entries without a start year: records without one are appended (each id
/// once) up to the first record that has one, where the absorption stops;
/// the third component says whether that happened.
pub open spec fn absorb_undated(seen: Set<i32>, out: Seq<Media>, items: Seq<Media>) -> (Set<i32>, Seq<Media>, bool)
    decreases items.len(),
{
    if items.len() == 0 {
        (seen, out, false)
    } else {
        let m = items[0];
        if has_start_year(m) {
            (seen, out, true)
        } else if seen.contains(m.id) {
            absorb_undated(seen, out, items.drop_first())
        } else {
            absorb_undated(seen.insert(m.id), out.push(m), items.drop_first())
        }
    }
}

/// Appending without duplicates keeps the collected records and the set of
/// their ids in step, and keeps what was collected before as a prefix.
pub proof fn lemma_dedup_append_keeps_ids(seen: Set<i32>, out: Seq<Media>, items: Seq<Media>)
    requires
        ids_match(seen, out),
    ensures
        ids_match(dedup_append(seen, out, items).0, dedup_append(seen, out, items).1),
        out.len() <= dedup_append(seen, out, items).1.len(),
        dedup_append(seen, out, items).1.subrange(0, out.len() as int) == out,
    decreases items.len(),
{
    if items.len() > 0 {
        let m = items[0];
        if seen.contains(m.id) {
            lemma_dedup_append_keeps_ids(seen, out, items.drop_first());
        } else {
            lemma_push_keeps_ids(seen, out, m);
            lemma_dedup_append_keeps_ids(seen.insert(m.id), out.push(m), items.drop_first());
            let r = dedup_append(seen.insert(m.id), out.push(m), items.drop_first()).1;
            assert(r.subrange(0, out.len() as int) =~= r.subrange(0, (out.len() + 1) as int).subrange(
                0,
                out.len() as int,
            ));
            assert(out.push(m).subrange(0, out.len() as int) =~= out);
        }
    }
}

/// The same for the absorption of entries without a start year.
pub proof fn lemma_absorb_undated_keeps_ids(seen: Set<i32>, out: Seq<Media>, items: Seq<Media>)
    requires
        ids_match(seen, out),
    ensures
        ids_match(absorb_undated(seen, out, items).0, absorb_undated(seen, out, items).1),
        out.len() <= absorb_undated(seen, out, items).1.len(),
        absorb_undated(seen, out, items).1.subrange(0, out.len() as int) == out,
        forall|i: int|
            out.len() <= i < absorb_undated(seen, out, items).1.len() ==> !has_start_year(
                #[trigger] absorb_undated(seen, out, items).1[i],
            ),
    decreases items.len(),
{
    if items.len() > 0 {
        let m = items[0];
        if has_start_year(m) {
        } else if seen.contains(m.id) {
            lemma_absorb_undated_keeps_ids(seen, out, items.drop_first());
        } else {
            lemma_push_keeps_ids(seen, out, m);
            lemma_absorb_undated_keeps_ids(seen.insert(m.id), out.push(m), items.drop_first());
            let r = absorb_undated(seen.insert(m.id), out.push(m), items.drop_first()).1;
            assert(r.subrange(0, out.len() as int) =~= r.subrange(0, (out.len() + 1) as int).subrange(
                0,
                out.len() as int,
            ));
            assert(out.push(m).subrange(0, out.len() as int) =~= out);
            assert(r[out.len() as int] == r.subrange(0, (out.len() + 1) as int)[out.len() as int]);
        }
    }
}

proof fn lemma_push_keeps_ids(seen: Set<i32>, out: Seq<Media>, m: Media)
    requires
        ids_match(seen, out),
        !seen.contains(m.id),
    ensures
        ids_match(seen.insert(m.id), out.push(m)),
{
    let s2 = seen.insert(m.id);
    let o2 = out.push(m);
    assert forall|x: i32| s2.contains(x) implies exists|i: int| 0 <= i < o2.len() && #[trigger] o2[i].id == x by {
        if x == m.id {
            assert(o2[out.len() as int].id == x);
        } else {
            let i = choose|i: int| 0 <= i < out.len() && #[trigger] out[i].id == x;
            assert(o2[i].id == x);
        }
    }
    assert forall|i: int, j: int| 0 <= i < j < o2.len() implies #[trigger] o2[i].id != #[trigger] o2[j].id by {
        if j == out.len() {
            assert(seen.contains(out[i].id));
        } else {
            assert(o2[i] == out[i] && o2[j] == out[j]);
        }
    }
    assert forall|i: int| 0 <= i < o2.len() implies s2.contains(#[trigger] o2[i].id) by {
        if i < out.len() {
            assert(o2[i] == out[i]);
        }
    }
}

/// Where a full scrape stands.
pub enum ScrapePhase {
    /// Collecting the entries without a start year, page by page.
    Undated { page_number: i32 },
    /// Collecting the entries that start between `start` and `end`; the pages
    /// read so far in this window wait in `buffer`.
    Range { start: i32, end: i32, page_number: i32, buffer: Vec<Media> },
    /// Every entry has been collected.
    Done,
}

/// A full scrape of AniList.
pub struct FullScrape {
    /// The ids of the collected records.
    seen: HashSet<i32>,
    /// The collected records, in the order they were found.
    out: Vec<Media>,
    /// The number of pages requested so far, for the log.
    batch: i32,
    /// The end of the start-date window, `yyyymmdd`.
    end: i32,
    /// The start of the start-date window, `yyyymmdd`.
    start: i32,
    phase: ScrapePhase,
}

/// The date from which the next window of a listing that hit the page limit
/// starts: the day before the start of the last record read.
pub open spec fn last_start_date(buffer: Seq<Media>) -> Option<FuzzyDate> {
    if buffer.len() == 0 {
        None
    } else {
        buffer.last().start_date
    }
}

/// Whether a page may be absorbed without an overflow: a counter that would
/// grow stays below `i32::MAX`, and a window split on the page limit reads a
/// date the day-before computation accepts.
pub closed spec fn page_absorbable(s: &FullScrape, page: &Page) -> bool {
    &&& s.batch < i32::MAX
    &&& match s.phase {
        ScrapePhase::Undated { page_number } => page_number < i32::MAX,
        ScrapePhase::Range { start, end, page_number, buffer } => {
            page.page_info.has_next_page && page_number >= MAX_PAGE ==> match last_start_date(
                buffer@ + page.media@,
            ) {
                Some(d) => fuzzy_date_in_range(d, -1i64),
                None => true,
            }
        },
        ScrapePhase::Done => true,
    }
}

impl FullScrape {
    /// The ids of the collected records.
    pub closed spec fn ids(&self) -> Set<i32> {
        self.seen@
    }

    /// The collected records, in the order they were found.
    pub closed spec fn records(&self) -> Seq<Media> {
        self.out@
    }

    /// The number of pages requested so far.
    pub closed spec fn pages_requested(&self) -> i32 {
        self.batch
    }

    /// The start of the start-date window, `yyyymmdd`.
    pub closed spec fn window_start(&self) -> i32 {
        self.start
    }

    /// The end of the start-date window, `yyyymmdd`.
    pub closed spec fn window_end(&self) -> i32 {
        self.end
    }

    /// Where the scrape stands.
    pub closed spec fn state(&self) -> ScrapePhase {
        self.phase
    }

    /// The ids of the collected records match the records, one for each.
    pub closed spec fn wf(&self) -> bool {
        &&& ids_match(self.seen@, self.out@)
        &&& match self.phase {
            ScrapePhase::Undated { page_number } => page_number >= 1,
            ScrapePhase::Range { page_number, .. } => 1 <= page_number <= MAX_PAGE,
            ScrapePhase::Done => true,
        }
    }

    /// A scrape of the entries that start between `start` and `end`
    /// (`yyyymmdd`), after those without a start year.
    pub fn new(start: i32, end: i32) -> (s: FullScrape)
        ensures
            s.wf(),
            s.records().len() == 0,
            s.ids() == Set::<i32>::empty(),
            s.pages_requested() == 1,
            s.window_start() == start,
            s.window_end() == end,
            s.state() == (ScrapePhase::Undated { page_number: 1 }),
    {
        let s = FullScrape {
            seen: HashSet::new(),
            out: Vec::new(),
            batch: 1,
            end,
            start,
            phase: ScrapePhase::Undated { page_number: 1 },
        };
        proof {
            assert(s.seen@ =~= Set::<i32>::empty());
        }
        s
    }

    /// The page to fetch next, or `None` when the scrape is complete. Every
    /// page is asked in start-date order without a status filter. The undated
    /// entries come first in that order, so they are read from the unbounded
    /// listing; the dated ones are read by window.
    pub fn next_request(&self) -> (r: Option<PageRequest>)
        ensures
            match self.state() {
                ScrapePhase::Undated { page_number } => r == Some(
                    PageRequest {
                        page_number,
                        start: None,
                        end: None,
                        sort: MediaSort::StartDate,
                        active_only: false,
                    },
                ),
                ScrapePhase::Range { start, end, page_number, .. } => r == Some(
                    PageRequest {
                        page_number,
                        start: Some(start),
                        end: Some(end),
                        sort: MediaSort::StartDate,
                        active_only: false,
                    },
                ),
                ScrapePhase::Done => r is None,
            },
    {
        match &self.phase {
            ScrapePhase::Undated { page_number } => Some(
                PageRequest {
                    page_number: *page_number,
                    start: None,
                    end: None,
                    sort: MediaSort::StartDate,
                    active_only: false,
                },
            ),
            ScrapePhase::Range { start, end, page_number, .. } => Some(
                PageRequest {
                    page_number: *page_number,
                    start: Some(*start),
                    end: Some(*end),
                    sort: MediaSort::StartDate,
                    active_only: false,
                },
            ),
            ScrapePhase::Done => None,
        }
    }

    /// Whether [`FullScrape::absorb`] may be called with this page (see
    /// [`page_absorbable`]).
    pub fn can_absorb(&self, page: &Page) -> (r: bool)
        ensures
            r == page_absorbable(self, page),
    {
        if self.batch >= i32::MAX {
            return false;
        }
        match &self.phase {
            ScrapePhase::Undated { page_number } => *page_number < i32::MAX,
            ScrapePhase::Range { page_number, buffer, .. } => {
                if !(page.page_info.has_next_page && *page_number >= MAX_PAGE) {
                    return true;
                }
                let last = if page.media.len() > 0 {
                    &page.media[page.media.len() - 1].start_date
                } else if buffer.len() > 0 {
                    &buffer[buffer.len() - 1].start_date
                } else {
                    return true;
                };
                proof {
                    assert(last_start_date(buffer@ + page.media@) == *last);
                }
                match last {
                    Some(d) => crate::anilist::client::fuzzy_date_fits(d, -1),
                    None => true,
                }
            },
            ScrapePhase::Done => true,
        }
    }

    /// A well-formed scrape holds each collected id once, in its records,
    /// and only those ids.
    pub proof fn lemma_ids_match(self)
        requires
            self.wf(),
        ensures
            ids_match(self.ids(), self.records()),
    {
    }

    /// The collected records, in the order they were found.
    pub fn out(&self) -> (r: &Vec<Media>)
        ensures
            r@ == self.records(),
    {
        &self.out
    }

    /// The ids of the collected records.
    pub fn seen(&self) -> (r: &HashSet<i32>)
        ensures
            r@ == self.ids(),
    {
        &self.seen
    }

    pub fn batch(&self) -> (r: i32)
        ensures
            r == self.pages_requested(),
    {
        self.batch
    }

    pub fn phase(&self) -> (r: &ScrapePhase)
        ensures
            *r == self.state(),
    {
        &self.phase
    }

    /// The collected records and their ids, to be written out.
    pub fn into_parts(self) -> (r: (Vec<Media>, HashSet<i32>))
        ensures
            r.0@ == self.records(),
            r.1@ == self.ids(),
    {
        (self.out, self.seen)
    }

    /// Appends the records whose ids are new, in order.
    fn append_new(&mut self, items: Vec<Media>)
        requires
            ids_match(old(self).seen@, old(self).out@),
        ensures
            (final(self).seen@, final(self).out@) == dedup_append(
                old(self).seen@,
                old(self).out@,
                items@,
            ),
            ids_match(final(self).seen@, final(self).out@),
            final(self).batch == old(self).batch,
            final(self).start == old(self).start,
            final(self).end == old(self).end,
            final(self).phase == old(self).phase,
    {
        let ghost total = dedup_append(self.seen@, self.out@, items@);
        proof {
            lemma_dedup_append_keeps_ids(self.seen@, self.out@, items@);
        }
        let mut rest = items;
        while rest.len() > 0
            invariant
                dedup_append(self.seen@, self.out@, rest@) == total,
                ids_match(self.seen@, self.out@),
                self.batch == old(self).batch,
                self.start == old(self).start,
                self.end == old(self).end,
                self.phase == old(self).phase,
            decreases rest@.len(),
        {
            let ghost before = rest@;
            let m = rest.remove(0);
            proof {
                assert(before.drop_first() =~= rest@);
                if !self.seen@.contains(m.id) {
                    lemma_push_keeps_ids(self.seen@, self.out@, m);
                }
            }
            let ghost seen0 = self.seen@;
            if self.seen.insert(m.id) {
                self.out.push(m);
            } else {
                proof {
                    assert(self.seen@ =~= seen0);
                }
            }
        }
    }

    /// Absorbs the answer to the request [`FullScrape::next_request`] gave.
    ///
    /// While collecting undated entries, the page's records without a start
    /// year are appended up to the first one that has one; that record, or
    /// the last page, ends the phase and the dated windows begin. Within a
    /// window the pages are buffered; the last page flushes the buffer and
    /// ends the scrape; a page at the page limit flushes it and opens a new
    /// window from the day before the last record's start date (an error if
    /// that date has no year or does not exist). Records are appended only
    /// when their id is new.
    pub fn absorb(&mut self, page: Page) -> (r: Result<(), AnilistError>)
        requires
            old(self).wf(),
            !(old(self).state() is Done),
            page_absorbable(old(self), &page),
        ensures
            final(self).wf(),
            ids_match(final(self).ids(), final(self).records()),
            final(self).window_start() == old(self).window_start(),
            final(self).window_end() == old(self).window_end(),
            match old(self).state() {
                ScrapePhase::Undated { page_number } => {
                    let (seen2, out2, hit) = absorb_undated(
                        old(self).ids(),
                        old(self).records(),
                        page.media@,
                    );
                    &&& r is Ok
                    &&& final(self).ids() == seen2
                    &&& final(self).records() == out2
                    &&& if hit || !page.page_info.has_next_page {
                        &&& final(self).pages_requested() == old(self).pages_requested()
                        &&& final(self).state() matches ScrapePhase::Range {
                            start,
                            end,
                            page_number,
                            buffer,
                        }
                        &&& start == old(self).window_start()
                        &&& end == old(self).window_end()
                        &&& page_number == 1
                        &&& buffer@.len() == 0
                    } else {
                        &&& final(self).pages_requested() == old(self).pages_requested() + 1
                        &&& final(self).state() matches ScrapePhase::Undated { page_number: p2 }
                        &&& p2 == page_number + 1
                    }
                },
                ScrapePhase::Range { start, end, page_number, buffer } => {
                    let all = buffer@ + page.media@;
                    if !page.page_info.has_next_page {
                        &&& r is Ok
                        &&& (final(self).ids(), final(self).records()) == dedup_append(
                            old(self).ids(),
                            old(self).records(),
                            all,
                        )
                        &&& final(self).pages_requested() == old(self).pages_requested()
                        &&& final(self).state() is Done
                    } else if page_number >= MAX_PAGE {
                        let cutoff = match last_start_date(all) {
                            Some(d) => fuzzy_date_value(d, -1i64),
                            None => None,
                        };
                        match cutoff {
                            None => {
                                &&& r matches Err(AnilistError::CutoffUnavailable)
                                &&& final(self).ids() == old(self).ids()
                                &&& final(self).records() == old(self).records()
                            },
                            Some(c) => {
                                &&& r is Ok
                                &&& (final(self).ids(), final(self).records()) == dedup_append(
                                    old(self).ids(),
                                    old(self).records(),
                                    all,
                                )
                                &&& final(self).pages_requested() == old(self).pages_requested() + 1
                                &&& final(self).state() matches ScrapePhase::Range {
                                    start: s2,
                                    end: e2,
                                    page_number: p2,
                                    buffer: b2,
                                }
                                &&& s2 == c
                                &&& e2 == end
                                &&& p2 == 1
                                &&& b2@.len() == 0
                            },
                        }
                    } else {
                        &&& r is Ok
                        &&& final(self).ids() == old(self).ids()
                        &&& final(self).records() == old(self).records()
                        &&& final(self).pages_requested() == old(self).pages_requested() + 1
                        &&& final(self).state() matches ScrapePhase::Range {
                            start: s2,
                            end: e2,
                            page_number: p2,
                            buffer: b2,
                        }
                        &&& s2 == start
                        &&& e2 == end
                        &&& p2 == page_number + 1
                        &&& b2@ == all
                    }
                },
                ScrapePhase::Done => true,
            },
    {
        let mut phase = ScrapePhase::Done;
        core::mem::swap(&mut phase, &mut self.phase);
        let has_next = page.page_info.has_next_page;
        match phase {
            ScrapePhase::Undated { page_number } => {
                let ghost total = absorb_undated(self.seen@, self.out@, page.media@);
                proof {
                    lemma_absorb_undated_keeps_ids(self.seen@, self.out@, page.media@);
                }
                let mut rest = page.media;
                let mut hit_dated = false;
                while rest.len() > 0
                    invariant_except_break
                        !hit_dated,
                        absorb_undated(self.seen@, self.out@, rest@) == total,
                    invariant
                        ids_match(self.seen@, self.out@),
                        self.batch == old(self).batch,
                        self.start == old(self).start,
                        self.end == old(self).end,
                    ensures
                        total == (self.seen@, self.out@, hit_dated),
                        ids_match(self.seen@, self.out@),
                        self.batch == old(self).batch,
                        self.start == old(self).start,
                        self.end == old(self).end,
                    decreases rest@.len(),
                {
                    let ghost before = rest@;
                    let m = rest.remove(0);
                    proof {
                        assert(before.drop_first() =~= rest@);
                    }
                    let is_null = match &m.start_date {
                        Some(d) => d.year.is_none(),
                        None => true,
                    };
                    if !is_null {
                        hit_dated = true;
                        break;
                    }
                    proof {
                        if !self.seen@.contains(m.id) {
                            lemma_push_keeps_ids(self.seen@, self.out@, m);
                        }
                    }
                    let ghost seen0 = self.seen@;
                    if self.seen.insert(m.id) {
                        self.out.push(m);
                    } else {
                        proof {
                            assert(self.seen@ =~= seen0);
                        }
                    }
                }
                if hit_dated || !has_next {
                    self.phase = ScrapePhase::Range {
                        start: self.start,
                        end: self.end,
                        page_number: 1,
                        buffer: Vec::new(),
                    };
                } else {
                    self.batch = self.batch + 1;
                    self.phase = ScrapePhase::Undated { page_number: page_number + 1 };
                }
                Ok(())
            },
            ScrapePhase::Range { start, end, page_number, buffer } => {
                let mut buffer = buffer;
                let mut media = page.media;
                buffer.append(&mut media);
                if !has_next {
                    self.append_new(buffer);
                    return Ok(());
                }
                if page_number >= MAX_PAGE {
                    let cutoff = if buffer.len() > 0 {
                        match &buffer[buffer.len() - 1].start_date {
                            Some(d) => Client::fuzzy_date_to_int(d, -1),
                            None => None,
                        }
                    } else {
                        None
                    };
                    let cutoff = match cutoff {
                        Some(c) => c,
                        None => return Err(AnilistError::CutoffUnavailable),
                    };
                    self.append_new(buffer);
                    self.batch = self.batch + 1;
                    self.phase = ScrapePhase::Range {
                        start: cutoff,
                        end,
                        page_number: 1,
                        buffer: Vec::new(),
                    };
                    return Ok(());
                }
                self.batch = self.batch + 1;
                self.phase = ScrapePhase::Range { start, end, page_number: page_number + 1, buffer };
                Ok(())
            },
            ScrapePhase::Done => {
                proof {
                    assert(false);
                }
                Ok(())
            },
        }
    }
}

} // verus!
