//! Linking Jiten decks to AniList entries.
use std::collections::HashMap;
use vstd::prelude::*;
use crate::config::Config;
use crate::jiten::types::{LinkObject, LinkType, Media};
use crate::numeric::{decimal_i64, parse_i64};

verus! {

broadcast use vstd::std_specs::hash::group_hash_axioms;

/// The Jiten endpoint. The HTTP requests belong to the application.
pub struct Client {
    pub api_url: String,
}

/// Why an AniList id could not be read from a link.
#[derive(Debug, Clone, Copy, PartialEq, Eq, Structural)]
pub enum JitenError {
    /// The last path segment of the URL is not an `i64`.
    InvalidAnilistId,
}

/// `s` without its trailing occurrences of `c`.
pub open spec fn trim_trailing(s: Seq<char>, c: char) -> Seq<char>
    decreases s.len(),
{
    if s.len() > 0 && s.last() == c {
        trim_trailing(s.drop_last(), c)
    } else {
        s
    }
}

/// The part of `s` after its last occurrence of `c` (all of `s` if there is
/// none).
pub open spec fn after_last(s: Seq<char>, c: char) -> Seq<char>
    decreases s.len(),
{
    if s.len() == 0 {
        s
    } else if s.last() == c {
        Seq::empty()
    } else {
        after_last(s.drop_last(), c).push(s.last())
    }
}

/// The id at the end of an AniList URL: the last path segment once trailing
/// slashes are dropped, read as an `i64`.
pub open spec fn url_anilist_id(url: Seq<char>) -> Option<i64> {
    decimal_i64(after_last(trim_trailing(url, '/'), '/'))
}

/// The first link of the given type.
pub open spec fn first_link_of_type(links: Seq<LinkObject>, t: i32) -> Option<LinkObject>
    decreases links.len(),
{
    if links.len() == 0 {
        None
    } else if links[0].link_type == t {
        Some(links[0])
    } else {
        first_link_of_type(links.drop_first(), t)
    }
}

/// The AniList id a deck links to: read from its first AniList link.
pub open spec fn deck_anilist_id(m: Media) -> Option<i64> {
    match first_link_of_type(m.links@, LinkType::Anilist.spec_value()) {
        Some(l) => url_anilist_id(l.url@),
        None => None,
    }
}

/// AniList id to deck id, for every deck with a readable AniList link; when
/// two decks link to the same id, the later one wins.
pub open spec fn anilist_map(media: Seq<Media>) -> Map<i64, i64>
    decreases media.len(),
{
    if media.len() == 0 {
        Map::empty()
    } else {
        let prev = anilist_map(media.drop_last());
        match deck_anilist_id(media.last()) {
            Some(id) => prev.insert(id, media.last().deck_id),
            None => prev,
        }
    }
}

/// Trailing slashes do not change the id read from a URL.
pub proof fn lemma_trailing_slash_ignored(url: Seq<char>)
    ensures
        url_anilist_id(url.push('/')) == url_anilist_id(url),
{
    assert(url.push('/').drop_last() =~= url);
}

/// Every entry of the AniList map comes from a deck that links to that id,
/// and every deck with a readable AniList link has its id in the map.
pub proof fn lemma_anilist_map_entries(media: Seq<Media>)
    ensures
        forall|id: i64|
            #[trigger] anilist_map(media).contains_key(id) ==> exists|i: int|
                0 <= i < media.len() && deck_anilist_id(#[trigger] media[i]) == Some(id)
                    && media[i].deck_id == anilist_map(media)[id],
        forall|i: int|
            0 <= i < media.len() && #[trigger] deck_anilist_id(media[i]) is Some ==> anilist_map(
                media,
            ).contains_key(deck_anilist_id(media[i]).unwrap()),
    decreases media.len(),
{
    if media.len() > 0 {
        let prev = media.drop_last();
        lemma_anilist_map_entries(prev);
        assert forall|id: i64| #[trigger] anilist_map(media).contains_key(id) implies exists|i: int|
            0 <= i < media.len() && deck_anilist_id(#[trigger] media[i]) == Some(id)
                && media[i].deck_id == anilist_map(media)[id] by {
            if deck_anilist_id(media.last()) == Some(id) {
                assert(deck_anilist_id(media[media.len() - 1]) == Some(id));
            } else {
                let i = choose|i: int|
                    0 <= i < prev.len() && deck_anilist_id(#[trigger] prev[i]) == Some(id)
                        && prev[i].deck_id == anilist_map(prev)[id];
                assert(media[i] == prev[i]);
            }
        }
        assert forall|i: int|
            0 <= i < media.len() && #[trigger] deck_anilist_id(media[i]) is Some implies anilist_map(
                media,
            ).contains_key(deck_anilist_id(media[i]).unwrap()) by {
            if i < media.len() - 1 {
                assert(media[i] == prev[i]);
            }
        }
    }
}

/// Decks keyed by deck id; a later deck replaces an earlier one with the
/// same id.
pub open spec fn decks_by_id(media: Seq<Media>) -> Map<i64, Media>
    decreases media.len(),
{
    if media.len() == 0 {
        Map::empty()
    } else {
        decks_by_id(media.drop_last()).insert(media.last().deck_id, media.last())
    }
}

/// Keys the decks by their deck id (see [`decks_by_id`]).
pub fn media_by_deck(media: Vec<Media>) -> (m: HashMap<i64, Media>)
    ensures
        m@ == decks_by_id(media@),
{
    let ghost all = media@;
    let mut rest = media;
    let mut map: HashMap<i64, Media> = HashMap::new();
    let mut i: usize = 0;
    assert(all.len() == rest.len());
    while rest.len() > 0
        invariant
            all.len() <= usize::MAX,
            i + rest@.len() == all.len(),
            rest@ == all.skip(i as int),
            map@ == decks_by_id(all.take(i as int)),
        decreases rest@.len(),
    {
        let m = rest.remove(0);
        proof {
            assert(all.take(i + 1).drop_last() =~= all.take(i as int));
            assert(all.take(i + 1).last() == all[i as int]);
        }
        map.insert(m.deck_id, m);
        i = i + 1;
        proof {
            assert(rest@ =~= all.skip(i as int));
        }
    }
    proof {
        assert(all.take(i as int) =~= all);
    }
    map
}

impl Client {
    pub fn new(config: &Config) -> (c: Client)
        ensures
            c.api_url@ == config.jiten_api_url@,
    {
        Client { api_url: config.jiten_api_url.clone() }
    }

    /// Reads the AniList id at the end of a URL such as
    /// `https://anilist.co/anime/21/`: trailing slashes are dropped, and the
    /// last path segment must be an `i64`.
    pub fn extract_anilist_id(&self, url: &str) -> (r: Result<i64, JitenError>)
        ensures
            r == (match url_anilist_id(url@) {
                Some(id) => Ok::<i64, JitenError>(id),
                None => Err(JitenError::InvalidAnilistId),
            }),
    {
        let n = url.unicode_len();
        let mut end: usize = n;
        proof {
            assert(url@.take(n as int) =~= url@);
        }
        while end > 0 && url.get_char(end - 1) == '/'
            invariant
                n == url@.len(),
                end <= n,
                trim_trailing(url@.take(end as int), '/') == trim_trailing(url@, '/'),
            decreases end,
        {
            proof {
                assert(url@.take(end as int).drop_last() =~= url@.take(end - 1));
            }
            end = end - 1;
        }
        let ghost t = url@.take(end as int);
        assert(trim_trailing(t, '/') == t);
        let mut start: usize = end;
        proof {
            assert(t.take(end as int) =~= t);
            assert(t.subrange(end as int, end as int) =~= Seq::<char>::empty());
            assert(after_last(t, '/') + Seq::<char>::empty() =~= after_last(t, '/'));
        }
        while start > 0 && url.get_char(start - 1) != '/'
            invariant
                n == url@.len(),
                start <= end <= n,
                t == url@.take(end as int),
                after_last(t, '/') == after_last(t.take(start as int), '/') + t.subrange(
                    start as int,
                    end as int,
                ),
            decreases start,
        {
            proof {
                assert(t.take(start as int).drop_last() =~= t.take(start - 1));
                assert(t.take(start as int).last() == t[start - 1]);
                assert(after_last(t.take(start - 1), '/').push(t[start - 1]) + t.subrange(
                    start as int,
                    end as int,
                ) =~= after_last(t.take(start - 1), '/') + t.subrange(start - 1, end as int));
            }
            start = start - 1;
        }
        proof {
            if start == 0 {
                assert(t.take(0) =~= Seq::<char>::empty());
            } else {
                assert(t.take(start as int).last() == t[start - 1]);
            }
            assert(after_last(t.take(start as int), '/') + t.subrange(start as int, end as int)
                =~= t.subrange(start as int, end as int));
        }
        let segment = url.substring_char(start, end);
        assert(segment@ =~= t.subrange(start as int, end as int));
        match parse_i64(segment) {
            Some(id) => Ok(id),
            None => Err(JitenError::InvalidAnilistId),
        }
    }

    fn find_link_of_type<'a>(links: &'a Vec<LinkObject>, t: i32) -> (r: Option<&'a LinkObject>)
        ensures
            r == (match first_link_of_type(links@, t) {
                Some(l) => Some(&l),
                None => None,
            }),
    {
        let mut i: usize = 0;
        proof {
            assert(links@.skip(0) =~= links@);
        }
        while i < links.len()
            invariant
                i <= links@.len(),
                first_link_of_type(links@.skip(i as int), t) == first_link_of_type(links@, t),
            decreases links@.len() - i,
        {
            if links[i].link_type == t {
                return Some(&links[i]);
            }
            proof {
                assert(links@.skip(i as int).drop_first() =~= links@.skip(i + 1));
            }
            i = i + 1;
        }
        proof {
            assert(links@.skip(i as int) =~= Seq::<LinkObject>::empty());
        }
        None
    }

    /// Maps each AniList id to the Jiten deck that links to it (see
    /// [`anilist_map`]): decks without an AniList link, or whose link does
    /// not end in a number, are left out.
    pub fn build_anilist_map(&self, media: &[Media]) -> (m: HashMap<i64, i64>)
        ensures
            m@ == anilist_map(media@),
    {
        let anilist_value = LinkType::Anilist.value();
        let mut map: HashMap<i64, i64> = HashMap::new();
        let mut i: usize = 0;
        while i < media.len()
            invariant
                i <= media@.len(),
                anilist_value == LinkType::Anilist.spec_value(),
                map@ == anilist_map(media@.take(i as int)),
            decreases media@.len() - i,
        {
            let m = &media[i];
            proof {
                assert(media@.take(i + 1).drop_last() =~= media@.take(i as int));
                assert(media@.take(i + 1).last() == media@[i as int]);
            }
            if let Some(link) = Self::find_link_of_type(&m.links, anilist_value) {
                if let Ok(anilist_id) = self.extract_anilist_id(link.url.as_str()) {
                    map.insert(anilist_id, m.deck_id);
                }
            }
            i = i + 1;
        }
        proof {
            assert(media@.take(i as int) =~= media@);
        }
        map
    }
}

} // verus!
