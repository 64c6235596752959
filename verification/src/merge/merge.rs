//! Joining AniList entries with Jiten's language statistics.
use std::collections::HashMap;
use vstd::prelude::*;
use crate::anilist::client::Client as AnilistClient;
use crate::anilist::types::{Media as AnilistMedia, MediaView};
use crate::config::Config;
use crate::jiten::client::Client as JitenClient;
use crate::jiten::types::{stats_of, LanguageStats, Media as JitenMedia};
use crate::merge::types::{LoadDataResponse, MergedMedia};

verus! {

broadcast use vstd::std_specs::hash::group_hash_axioms;

/// The merge stage: where its files go, and the clients whose files it
/// reads.
pub struct Merge {
    pub data_folder: String,
    pub anilist: AnilistClient,
    pub jiten: JitenClient,
}

/// The language statistics that belong to an AniList entry: those of the
/// deck its id maps to, if the map has the id and the deck is known.
pub open spec fn stats_for(
    anilist_id: i32,
    jiten_media_by_id: Map<i64, JitenMedia>,
    anilist_to_jiten: Map<i64, i64>,
) -> Option<LanguageStats> {
    let key = anilist_id as i64;
    if anilist_to_jiten.contains_key(key) && jiten_media_by_id.contains_key(anilist_to_jiten[key]) {
        Some(stats_of(jiten_media_by_id[anilist_to_jiten[key]]))
    } else {
        None
    }
}

/// A merged record is the AniList entry with the statistics that belong to
/// it.
pub open spec fn merged_from(
    m: MergedMedia,
    a: MediaView,
    jiten_media_by_id: Map<i64, JitenMedia>,
    anilist_to_jiten: Map<i64, i64>,
) -> bool {
    &&& m.anime@ == a
    &&& m.language_stats == stats_for(a.id, jiten_media_by_id, anilist_to_jiten)
}

/// The number of merged records that found statistics.
pub open spec fn matched_count(s: Seq<MergedMedia>) -> nat
    decreases s.len(),
{
    if s.len() == 0 {
        0
    } else {
        matched_count(s.drop_last()) + if s.last().language_stats is Some {
            1nat
        } else {
            0nat
        }
    }
}

/// No more records are matched than there are.
pub proof fn lemma_matched_count_bounded(s: Seq<MergedMedia>)
    ensures
        matched_count(s) <= s.len(),
    decreases s.len(),
{
    if s.len() > 0 {
        lemma_matched_count_bounded(s.drop_last());
    }
}

impl Merge {
    pub fn new(config: &Config, anilist: AnilistClient, jiten: JitenClient) -> (m: Merge)
        ensures
            m.data_folder@ == config.data_folder@,
            m.anilist == anilist,
            m.jiten == jiten,
    {
        Merge { data_folder: config.data_folder.clone(), anilist, jiten }
    }

    /// Joins one AniList entry with the statistics of its Jiten deck (see
    /// [`stats_for`]).
    pub fn merge_one(
        anilist_media: &AnilistMedia,
        jiten_media_by_id: &HashMap<i64, JitenMedia>,
        anilist_to_jiten: &HashMap<i64, i64>,
    ) -> (r: MergedMedia)
        ensures
            merged_from(r, anilist_media@, jiten_media_by_id@, anilist_to_jiten@),
    {
        let key = anilist_media.id as i64;
        let language_stats = match anilist_to_jiten.get(&key) {
            Some(jiten_id) => match jiten_media_by_id.get(jiten_id) {
                Some(deck) => Some(LanguageStats::from(deck)),
                None => None,
            },
            None => None,
        };
        MergedMedia { anime: anilist_media.duplicate(), language_stats }
    }

    /// Joins every AniList entry, in order, with the statistics of its deck.
    pub fn merge_all(data: &LoadDataResponse) -> (merged: Vec<MergedMedia>)
        ensures
            merged@.len() == data.anilist_media@.len(),
            forall|i: int|
                0 <= i < merged@.len() ==> merged_from(
                    #[trigger] merged@[i],
                    data.anilist_media@[i]@,
                    data.jiten_media_by_id@,
                    data.anilist_to_jiten@,
                ),
    {
        let mut merged: Vec<MergedMedia> = Vec::new();
        let mut i: usize = 0;
        while i < data.anilist_media.len()
            invariant
                i <= data.anilist_media@.len(),
                merged@.len() == i,
                forall|j: int|
                    0 <= j < i ==> merged_from(
                        #[trigger] merged@[j],
                        data.anilist_media@[j]@,
                        data.jiten_media_by_id@,
                        data.anilist_to_jiten@,
                    ),
            decreases data.anilist_media@.len() - i,
        {
            let m = Self::merge_one(
                &data.anilist_media[i],
                &data.jiten_media_by_id,
                &data.anilist_to_jiten,
            );
            merged.push(m);
            i = i + 1;
        }
        merged
    }

    /// The number of merged records that carry statistics.
    pub fn count_matched(merged: &Vec<MergedMedia>) -> (n: usize)
        ensures
            n == matched_count(merged@),
            n <= merged@.len(),
    {
        let mut n: usize = 0;
        let mut i: usize = 0;
        while i < merged.len()
            invariant
                i <= merged@.len(),
                n == matched_count(merged@.take(i as int)),
                n <= i,
            decreases merged@.len() - i,
        {
            proof {
                assert(merged@.take(i + 1).drop_last() =~= merged@.take(i as int));
                assert(merged@.take(i + 1).last() == merged@[i as int]);
            }
            if merged[i].language_stats.is_some() {
                n = n + 1;
            }
            i = i + 1;
        }
        proof {
            assert(merged@.take(i as int) =~= merged@);
        }
        n
    }
}

} // verus!
