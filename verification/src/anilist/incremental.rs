//! Incremental scraping: folding the most recently updated AniList entries
//! into the records kept from the previous run.
use std::collections::{HashMap, HashSet};
use vstd::prelude::*;
use crate::anilist::types::{Media, MediaSort, MediaView, Page, same_content};
use crate::anilist::client::PageRequest;
use crate::calendar::{timestamp_in_range, timestamp_representable};
use crate::numeric::{decimal_i64, parse_i64, trim, trimmed};

verus! {

broadcast use vstd::std_specs::hash::group_hash_axioms;

/// What an incremental run found: edits that changed content, entries not
/// known before, and edits that changed nothing the pipeline keeps.
#[derive(Debug, Clone, Copy, PartialEq, Eq, Structural)]
pub struct IncrementalResult {
    pub real_changes: u64,
    pub new_entries: u64,
    pub noise: u64,
}

impl IncrementalResult {
    /// The result of a run that found no saved cutoff and scraped everything
    /// instead: every one of the `total` entries counts as new.
    pub fn from_full_scrape(total: usize) -> (r: IncrementalResult)
        ensures
            r.real_changes == 0,
            r.new_entries == total,
            r.noise == 0,
    {
        IncrementalResult { real_changes: 0, new_entries: total as u64, noise: 0 }
    }

    /// Whether the later stages (Jiten, merge, index) have anything to do.
    pub fn has_changes(&self) -> (r: bool)
        ensures
            r == (self.real_changes > 0 || self.new_entries > 0),
    {
        self.real_changes > 0 || self.new_entries > 0
    }
}

/// Edits made this long before a run started are taken as seen by it.
pub const CUTOFF_MARGIN_SECS: i64 = 3600;

/// The cutoff the next incremental run uses: the start of this run minus
/// an hour, to absorb clock drift and edits made while the run was going.
pub fn next_scrape_cutoff(run_started_at: i64) -> (c: i64)
    requires
        run_started_at >= i64::MIN + CUTOFF_MARGIN_SECS,
    ensures
        c == run_started_at - CUTOFF_MARGIN_SECS,
{
    run_started_at - CUTOFF_MARGIN_SECS
}

/// Why the saved cutoff of the previous run cannot be used.
#[derive(Debug, Clone, Copy, PartialEq, Eq, Structural)]
pub enum CutoffError {
    /// The text, white space aside, is not an `i64`.
    NotANumber,
    /// The number is not a unix time chrono can represent.
    OutOfRange,
}

/// The cutoff saved by the previous run, read from the text of its file.
pub open spec fn saved_cutoff(text: Seq<char>) -> Result<i64, CutoffError> {
    match decimal_i64(trimmed(text)) {
        None => Err(CutoffError::NotANumber),
        Some(t) => if timestamp_in_range(t as int) {
            Ok(t)
        } else {
            Err(CutoffError::OutOfRange)
        },
    }
}

/// Reads the saved cutoff: the text without surrounding white space must be
/// an `i64` that is a representable unix time.
pub fn read_cutoff(text: &str) -> (r: Result<i64, CutoffError>)
    ensures
        r == saved_cutoff(text@),
{
    match parse_i64(trim(text)) {
        None => Err(CutoffError::NotANumber),
        Some(t) => if timestamp_representable(t) {
            Ok(t)
        } else {
            Err(CutoffError::OutOfRange)
        },
    }
}

/// The counters of an incremental run, as mathematical integers.
pub struct Tally {
    pub real_changes: nat,
    pub new_entries: nat,
    pub noise: nat,
}

/// The records of a list keyed by id; a later record replaces an earlier one
/// with the same id.
pub open spec fn index_by_id(s: Seq<Media>) -> Map<i32, Media>
    decreases s.len(),
{
    if s.len() == 0 {
        Map::empty()
    } else {
        index_by_id(s.drop_last()).insert(s.last().id, s.last())
    }
}

/// One updated record folded into the known records: unchanged content is
/// noise, a changed record replaces the known one, an unknown id is added.
pub open spec fn absorb_item(by_id: Map<i32, Media>, t: Tally, m: Media) -> (Map<i32, Media>, Tally) {
    if by_id.contains_key(m.id) {
        if same_content(by_id[m.id]@, m@) {
            (by_id, Tally { noise: t.noise + 1, ..t })
        } else {
            (by_id.insert(m.id, m), Tally { real_changes: t.real_changes + 1, ..t })
        }
    } else {
        (by_id.insert(m.id, m), Tally { new_entries: t.new_entries + 1, ..t })
    }
}

/// A page of records, newest edit first, folded into the known records.
/// Records without an edit time are skipped; the first record edited before
/// the cutoff ends the fold, and the third component says whether that
/// happened.
pub open spec fn absorb_updated(
    by_id: Map<i32, Media>,
    t: Tally,
    items: Seq<Media>,
    cutoff: i64,
) -> (Map<i32, Media>, Tally, bool)
    decreases items.len(),
{
    if items.len() == 0 {
        (by_id, t, false)
    } else {
        let m = items[0];
        match m.updated_at {
            None => absorb_updated(by_id, t, items.drop_first(), cutoff),
            Some(ts) => if ts < cutoff {
                (by_id, t, true)
            } else {
                let (b, t2) = absorb_item(by_id, t, m);
                absorb_updated(b, t2, items.drop_first(), cutoff)
            },
        }
    }
}

/// A known record edited in any kept field, its status for one, is a real
/// change: it replaces the stored record and counts as such, not as noise.
pub proof fn lemma_edited_record_replaces_known(by_id: Map<i32, Media>, t: Tally, m: Media)
    requires
        by_id.contains_key(m.id),
        (MediaView { updated_at: m@.updated_at, ..by_id[m.id]@ }) != m@,
    ensures
        absorb_item(by_id, t, m).0 == by_id.insert(m.id, m),
        absorb_item(by_id, t, m).1.real_changes == t.real_changes + 1,
        absorb_item(by_id, t, m).1.noise == t.noise,
        absorb_item(by_id, t, m).1.new_entries == t.new_entries,
{
    crate::anilist::types::lemma_same_content_is_equality_but_edit_time(by_id[m.id]@, m@);
}

/// Whether another page is to be fetched after one page was absorbed.
#[derive(Debug, Clone, Copy, PartialEq, Eq, Structural)]
pub enum PageStep {
    /// Fetch the page whose number the scrape now holds.
    FetchNext,
    /// The cutoff was reached or AniList has no further page.
    Stop,
}

/// The state of an incremental run over AniList's recently updated entries.
pub struct IncrementalScrape {
    /// Every record known so far, by id.
    by_id: HashMap<i32, Media>,
    /// The ids of those records.
    seen: HashSet<i32>,
    /// Entries edited before this unix time were seen by an earlier run.
    cutoff_ts: i64,
    real_changes: u64,
    new_entries: u64,
    noise: u64,
    /// The page to fetch next.
    page_number: i32,
    /// The number of pages requested so far, for the log.
    batch: i32,
}

/// Each record is kept under its own id.
pub open spec fn keyed_by_id(by_id: Map<i32, Media>) -> bool {
    forall|k: i32| by_id.contains_key(k) ==> #[trigger] by_id[k].id == k
}

/// Records indexed by id are kept under their own ids.
pub proof fn lemma_index_by_id_keyed(s: Seq<Media>)
    ensures
        keyed_by_id(index_by_id(s)),
    decreases s.len(),
{
    if s.len() > 0 {
        lemma_index_by_id_keyed(s.drop_last());
    }
}

impl IncrementalScrape {
    /// The known ids are exactly the keys of the known records, and each
    /// record is kept under its own id.
    pub closed spec fn wf(&self) -> bool {
        &&& self.seen@ == self.by_id@.dom()
        &&& keyed_by_id(self.by_id@)
    }

    /// Every record known so far, by id.
    pub closed spec fn records(&self) -> Map<i32, Media> {
        self.by_id@
    }

    /// The ids of those records.
    pub closed spec fn ids(&self) -> Set<i32> {
        self.seen@
    }

    /// Entries edited before this unix time were seen by an earlier run.
    pub closed spec fn cutoff(&self) -> i64 {
        self.cutoff_ts
    }

    /// The page to fetch next.
    pub closed spec fn next_page(&self) -> i32 {
        self.page_number
    }

    /// The number of pages requested so far.
    pub closed spec fn pages_requested(&self) -> i32 {
        self.batch
    }

    /// The counters of the run.
    pub closed spec fn tally(&self) -> Tally {
        Tally {
            real_changes: self.real_changes as nat,
            new_entries: self.new_entries as nat,
            noise: self.noise as nat,
        }
    }

    /// Starts a run from the records written by the previous one.
    pub fn new(existing: Vec<Media>, cutoff_ts: i64) -> (s: IncrementalScrape)
        ensures
            s.wf(),
            s.ids() == s.records().dom(),
            keyed_by_id(s.records()),
            s.records() == index_by_id(existing@),
            s.cutoff() == cutoff_ts,
            s.tally().real_changes == 0,
            s.tally().new_entries == 0,
            s.tally().noise == 0,
            s.next_page() == 1,
            s.pages_requested() == 1,
    {
        let ghost all = existing@;
        let mut rest = existing;
        let mut by_id: HashMap<i32, Media> = HashMap::new();
        let mut seen: HashSet<i32> = HashSet::new();
        let mut i: usize = 0;
        assert(all.len() == rest.len());
        proof {
            lemma_index_by_id_keyed(all.take(0));
        }
        while rest.len() > 0
            invariant
                all.len() <= usize::MAX,
                i + rest@.len() == all.len(),
                rest@ == all.skip(i as int),
                by_id@ == index_by_id(all.take(i as int)),
                seen@ == by_id@.dom(),
                keyed_by_id(by_id@),
            decreases rest@.len(),
        {
            let m = rest.remove(0);
            proof {
                assert(all.take(i + 1).drop_last() =~= all.take(i as int));
                assert(all.take(i + 1).last() == all[i as int]);
            }
            seen.insert(m.id);
            by_id.insert(m.id, m);
            i = i + 1;
            proof {
                assert(rest@ =~= all.skip(i as int));
                assert(seen@ =~= by_id@.dom());
                lemma_index_by_id_keyed(all.take(i as int));
            }
        }
        proof {
            assert(all.take(i as int) =~= all);
        }
        IncrementalScrape {
            by_id,
            seen,
            cutoff_ts,
            real_changes: 0,
            new_entries: 0,
            noise: 0,
            page_number: 1,
            batch: 1,
        }
    }

    /// Starts a run from the records written by the previous one and the text
    /// of the cutoff it saved.
    pub fn start(existing: Vec<Media>, saved: &str) -> (r: Result<IncrementalScrape, CutoffError>)
        ensures
            match saved_cutoff(saved@) {
                Err(e) => r == Err::<IncrementalScrape, CutoffError>(e),
                Ok(c) => r matches Ok(s) && {
                    &&& s.wf()
                    &&& s.ids() == s.records().dom()
                    &&& keyed_by_id(s.records())
                    &&& s.records() == index_by_id(existing@)
                    &&& s.cutoff() == c
                    &&& s.tally().real_changes == 0
                    &&& s.tally().new_entries == 0
                    &&& s.tally().noise == 0
                    &&& s.next_page() == 1
                    &&& s.pages_requested() == 1
                },
            },
    {
        match read_cutoff(saved) {
            Ok(c) => Ok(IncrementalScrape::new(existing, c)),
            Err(e) => Err(e),
        }
    }

    /// The page to fetch next: the listing of entries still releasing or not
    /// yet released, most recently updated first, without a date window.
    pub fn next_request(&self) -> (r: PageRequest)
        ensures
            r == (PageRequest {
                page_number: self.next_page(),
                start: None,
                end: None,
                sort: MediaSort::UpdatedAtDesc,
                active_only: true,
            }),
    {
        PageRequest {
            page_number: self.page_number,
            start: None,
            end: None,
            sort: MediaSort::UpdatedAtDesc,
            active_only: true,
        }
    }

    /// Folds one page of the updated-at-descending listing into the known
    /// records and says whether the next page is to be fetched.
    pub fn absorb_page(&mut self, page: Page) -> (step: PageStep)
        requires
            old(self).wf(),
            old(self).tally().real_changes + old(self).tally().new_entries + old(self).tally().noise
                + page.media@.len() <= u64::MAX,
            old(self).next_page() < i32::MAX,
            old(self).pages_requested() < i32::MAX,
        ensures
            final(self).wf(),
            final(self).ids() == final(self).records().dom(),
            keyed_by_id(final(self).records()),
            ({
                let (b, t, hit) = absorb_updated(
                    old(self).records(),
                    old(self).tally(),
                    page.media@,
                    old(self).cutoff(),
                );
                &&& final(self).records() == b
                &&& final(self).tally() == t
                &&& step == (if hit || !page.page_info.has_next_page {
                    PageStep::Stop
                } else {
                    PageStep::FetchNext
                })
            }),
            final(self).cutoff() == old(self).cutoff(),
            step == PageStep::Stop ==> final(self).next_page() == old(self).next_page()
                && final(self).pages_requested() == old(self).pages_requested(),
            step == PageStep::FetchNext ==> final(self).next_page() == old(self).next_page() + 1
                && final(self).pages_requested() == old(self).pages_requested() + 1,
    {
        let ghost start_by_id = self.by_id@;
        let ghost start_tally = self.tally();
        let ghost items = page.media@;
        let ghost total = absorb_updated(start_by_id, start_tally, items, self.cutoff_ts);
        let has_next_page = page.page_info.has_next_page;
        let mut rest = page.media;
        let mut hit_cutoff = false;
        let mut k: usize = 0;
        assert(items.len() == rest.len());
        while rest.len() > 0
            invariant_except_break
                !hit_cutoff,
                absorb_updated(self.by_id@, self.tally(), rest@, self.cutoff_ts) == total,
            invariant
                self.wf(),
                items.len() <= usize::MAX,
                k + rest@.len() == items.len(),
                rest@ == items.skip(k as int),
                self.real_changes + self.new_entries + self.noise + rest@.len()
                    <= start_tally.real_changes + start_tally.new_entries + start_tally.noise
                    + items.len(),
                start_tally.real_changes + start_tally.new_entries + start_tally.noise
                    + items.len() <= u64::MAX,
                self.cutoff_ts == old(self).cutoff_ts,
                self.page_number == old(self).page_number,
                self.batch == old(self).batch,
            ensures
                hit_cutoff ==> total == (self.by_id@, self.tally(), true),
                !hit_cutoff ==> total == (self.by_id@, self.tally(), false),
                self.wf(),
                self.cutoff_ts == old(self).cutoff_ts,
                self.page_number == old(self).page_number,
                self.batch == old(self).batch,
            decreases rest@.len(),
        {
            let ghost before = rest@;
            let m = rest.remove(0);
            k = k + 1;
            proof {
                assert(before.drop_first() =~= rest@);
                assert(rest@ =~= items.skip(k as int));
            }
            match m.updated_at {
                None => {},
                Some(ts) => {
                    if ts < self.cutoff_ts {
                        hit_cutoff = true;
                        break;
                    }
                    let known = self.by_id.get(&m.id);
                    match known {
                        Some(existing) => {
                            if existing.content_eq(&m) {
                                self.noise = self.noise + 1;
                            } else {
                                self.real_changes = self.real_changes + 1;
                                self.by_id.insert(m.id, m);
                            }
                        },
                        None => {
                            self.new_entries = self.new_entries + 1;
                            self.seen.insert(m.id);
                            self.by_id.insert(m.id, m);
                        },
                    }
                    proof {
                        assert(self.seen@ =~= self.by_id@.dom());
                    }
                },
            }
        }
        if hit_cutoff || !has_next_page {
            PageStep::Stop
        } else {
            self.batch = self.batch + 1;
            self.page_number = self.page_number + 1;
            PageStep::FetchNext
        }
    }

    /// The records known so far, by id.
    pub fn by_id(&self) -> (r: &HashMap<i32, Media>)
        ensures
            r@ == self.records(),
    {
        &self.by_id
    }

    /// The ids of the known records.
    pub fn seen(&self) -> (r: &HashSet<i32>)
        ensures
            r@ == self.ids(),
    {
        &self.seen
    }

    pub fn cutoff_ts(&self) -> (r: i64)
        ensures
            r == self.cutoff(),
    {
        self.cutoff_ts
    }

    pub fn page_number(&self) -> (r: i32)
        ensures
            r == self.next_page(),
    {
        self.page_number
    }

    pub fn batch(&self) -> (r: i32)
        ensures
            r == self.pages_requested(),
    {
        self.batch
    }

    /// The known records and their ids, to be written out.
    pub fn into_parts(self) -> (r: (HashMap<i32, Media>, HashSet<i32>))
        ensures
            r.0@ == self.records(),
            r.1@ == self.ids(),
    {
        (self.by_id, self.seen)
    }

    /// The counters of the run.
    pub fn result(&self) -> (r: IncrementalResult)
        ensures
            r.real_changes == self.tally().real_changes,
            r.new_entries == self.tally().new_entries,
            r.noise == self.tally().noise,
    {
        IncrementalResult {
            real_changes: self.real_changes,
            new_entries: self.new_entries,
            noise: self.noise,
        }
    }
}

/// What an incremental run writes keeps the ids in step with the records:
/// the ids written are exactly the ids of the records written, and no two
/// records share an id.
pub proof fn lemma_written_ids_match(s: IncrementalScrape)
    requires
        s.wf(),
    ensures
        s.ids() == s.records().dom(),
        forall|k: i32| s.ids().contains(k) ==> #[trigger] s.records()[k].id == k,
        forall|k: i32|
            s.records().contains_key(k) ==> s.ids().contains(#[trigger] s.records()[k].id),
        forall|k1: i32, k2: i32|
            s.records().contains_key(k1) && s.records().contains_key(k2)
                && #[trigger] s.records()[k1].id == #[trigger] s.records()[k2].id ==> k1 == k2,
{
}

/// An incremental fold only ever adds records: every id known before stays
/// known, the number of known ids grows by exactly the number of new entries
/// counted, and the three counters together grow by at most the number of
/// records on the page.
pub proof fn lemma_absorb_updated_only_adds(
    by_id: Map<i32, Media>,
    t: Tally,
    items: Seq<Media>,
    cutoff: i64,
)
    requires
        by_id.dom().finite(),
    ensures
        ({
            let (b, t2, hit) = absorb_updated(by_id, t, items, cutoff);
            &&& by_id.dom().subset_of(b.dom())
            &&& b.dom().finite()
            &&& b.dom().len() == by_id.dom().len() + (t2.new_entries - t.new_entries)
            &&& t.new_entries <= t2.new_entries
            &&& t.real_changes <= t2.real_changes
            &&& t.noise <= t2.noise
            &&& (t2.real_changes - t.real_changes) + (t2.new_entries - t.new_entries) + (t2.noise
                - t.noise) <= items.len()
        }),
    decreases items.len(),
{
    if items.len() > 0 {
        let m = items[0];
        match m.updated_at {
            None => {
                lemma_absorb_updated_only_adds(by_id, t, items.drop_first(), cutoff);
            },
            Some(ts) => {
                if ts >= cutoff {
                    let (b1, t1) = absorb_item(by_id, t, m);
                    if !by_id.contains_key(m.id) {
                        assert(b1.dom() =~= by_id.dom().insert(m.id));
                    } else {
                        assert(b1.dom() =~= by_id.dom());
                    }
                    lemma_absorb_updated_only_adds(b1, t1, items.drop_first(), cutoff);
                }
            },
        }
    }
}

/// An entry whose content did not change is left as it was: folding a page
/// in which every edited record matches the known one changes no record.
pub proof fn lemma_absorb_updated_noise_keeps_records(
    by_id: Map<i32, Media>,
    t: Tally,
    items: Seq<Media>,
    cutoff: i64,
)
    requires
        forall|i: int|
            0 <= i < items.len() ==> by_id.contains_key(#[trigger] items[i].id) && same_content(
                by_id[items[i].id]@,
                items[i]@,
            ),
    ensures
        absorb_updated(by_id, t, items, cutoff).0 == by_id,
        absorb_updated(by_id, t, items, cutoff).1.real_changes == t.real_changes,
        absorb_updated(by_id, t, items, cutoff).1.new_entries == t.new_entries,
    decreases items.len(),
{
    if items.len() > 0 {
        let m = items[0];
        assert forall|i: int| 0 <= i < items.drop_first().len() implies by_id.contains_key(
            #[trigger] items.drop_first()[i].id,
        ) && same_content(by_id[items.drop_first()[i].id]@, items.drop_first()[i]@) by {
            assert(items.drop_first()[i] == items[i + 1]);
        }
        match m.updated_at {
            None => {
                lemma_absorb_updated_noise_keeps_records(by_id, t, items.drop_first(), cutoff);
            },
            Some(ts) => {
                if ts >= cutoff {
                    let (b1, t1) = absorb_item(by_id, t, m);
                    assert(b1 == by_id);
                    lemma_absorb_updated_noise_keeps_records(b1, t1, items.drop_first(), cutoff);
                }
            },
        }
    }
}

} // verus!
