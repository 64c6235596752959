//! AniList records, as the pipeline reads them.
use vstd::prelude::*;

verus! {

/// The envelope of an AniList GraphQL answer.
pub struct ApiResponse<T> {
    pub data: Option<T>,
}

/// The answer to a single-media query.
pub struct AnimeQuery {
    pub media: Option<Media>,
}

/// The answer to a paginated media query.
pub struct BatchAnimeQuery {
    pub page: Option<Page>,
}

/// One page of media together with its pagination data.
pub struct Page {
    pub page_info: PageInfo,
    pub media: Vec<Media>,
}

#[derive(Debug, Clone, Copy, PartialEq, Eq, Structural)]
pub struct PageInfo {
    pub total: i32,
    pub last_page: i32,
    pub has_next_page: bool,
}

/// A GraphQL connection wrapper.
pub struct Edge<T> {
    pub edges: T,
}

/// One anime as AniList describes it.
#[derive(Debug)]
pub struct Media {
    pub id: i32,
    pub id_mal: Option<i32>,
    pub title: Option<Title>,
    pub cover_image: Option<MediaCoverImage>,
    pub format: Option<MediaFormat>,
    pub status: Option<MediaStatus>,
    pub season: Option<MediaSeason>,
    pub season_year: Option<i32>,
    pub synonyms: Option<Vec<Option<String>>>,
    pub banner_image: Option<String>,
    pub description: Option<String>,
    pub episodes: Option<i32>,
    pub duration: Option<i32>,
    pub genres: Option<Vec<Option<String>>>,
    pub average_score: Option<i32>,
    pub popularity: Option<i32>,
    pub start_date: Option<FuzzyDate>,
    pub end_date: Option<FuzzyDate>,
    /// Unix time of the last edit on AniList.
    pub updated_at: Option<i64>,
}

#[derive(Debug)]
pub struct Title {
    pub english: Option<String>,
    pub romaji: Option<String>,
    pub native: Option<String>,
}

/// A date of which any part may be unknown.
#[derive(Debug, Clone, Copy, PartialEq, Eq)]
pub struct FuzzyDate {
    pub day: Option<i32>,
    pub month: Option<i32>,
    pub year: Option<i32>,
}

#[derive(Debug)]
pub struct MediaCoverImage {
    pub medium: Option<String>,
    pub large: Option<String>,
    pub extra_large: Option<String>,
}

#[derive(Debug, Clone, Copy, PartialEq, Eq, Structural)]
pub enum MediaFormat {
    Tv,
    TvShort,
    Movie,
    Special,
    Ova,
    Ona,
    Music,
    Manga,
    Novel,
    OneShot,
}

#[derive(Debug, Clone, Copy, PartialEq, Eq, Structural)]
pub enum MediaSeason {
    Winter,
    Spring,
    Summer,
    Fall,
}

#[derive(Debug, Clone, Copy, PartialEq, Eq, Structural)]
pub enum MediaStatus {
    Finished,
    Releasing,
    NotYetReleased,
    Cancelled,
    Hiatus,
}

/// Sort orders the pipeline asks AniList for.
#[derive(Debug, Clone, Copy, PartialEq, Eq, Structural)]
pub enum MediaSort {
    StartDate,
    UpdatedAtDesc,
}

// ---------------------------------------------------------------------------
// Mathematical views

pub open spec fn opt_str_view(s: Option<String>) -> Option<Seq<char>> {
    match s {
        Some(s) => Some(s@),
        None => None,
    }
}

pub open spec fn str_list_view(v: Vec<Option<String>>) -> Seq<Option<Seq<char>>> {
    v@.map_values(|s: Option<String>| opt_str_view(s))
}

pub open spec fn opt_str_list_view(v: Option<Vec<Option<String>>>) -> Option<Seq<Option<Seq<char>>>> {
    match v {
        Some(v) => Some(str_list_view(v)),
        None => None,
    }
}

pub struct TitleView {
    pub english: Option<Seq<char>>,
    pub romaji: Option<Seq<char>>,
    pub native: Option<Seq<char>>,
}

impl View for Title {
    type V = TitleView;

    open spec fn view(&self) -> TitleView {
        TitleView {
            english: opt_str_view(self.english),
            romaji: opt_str_view(self.romaji),
            native: opt_str_view(self.native),
        }
    }
}

pub struct CoverImageView {
    pub medium: Option<Seq<char>>,
    pub large: Option<Seq<char>>,
    pub extra_large: Option<Seq<char>>,
}

impl View for MediaCoverImage {
    type V = CoverImageView;

    open spec fn view(&self) -> CoverImageView {
        CoverImageView {
            medium: opt_str_view(self.medium),
            large: opt_str_view(self.large),
            extra_large: opt_str_view(self.extra_large),
        }
    }
}

pub open spec fn opt_title_view(t: Option<Title>) -> Option<TitleView> {
    match t {
        Some(t) => Some(t@),
        None => None,
    }
}

pub open spec fn opt_cover_view(c: Option<MediaCoverImage>) -> Option<CoverImageView> {
    match c {
        Some(c) => Some(c@),
        None => None,
    }
}

/// A media record with its text taken as character sequences.
pub struct MediaView {
    pub id: i32,
    pub id_mal: Option<i32>,
    pub title: Option<TitleView>,
    pub cover_image: Option<CoverImageView>,
    pub format: Option<MediaFormat>,
    pub status: Option<MediaStatus>,
    pub season: Option<MediaSeason>,
    pub season_year: Option<i32>,
    pub synonyms: Option<Seq<Option<Seq<char>>>>,
    pub banner_image: Option<Seq<char>>,
    pub description: Option<Seq<char>>,
    pub episodes: Option<i32>,
    pub duration: Option<i32>,
    pub genres: Option<Seq<Option<Seq<char>>>>,
    pub average_score: Option<i32>,
    pub popularity: Option<i32>,
    pub start_date: Option<FuzzyDate>,
    pub end_date: Option<FuzzyDate>,
    pub updated_at: Option<i64>,
}

impl View for Media {
    type V = MediaView;

    open spec fn view(&self) -> MediaView {
        MediaView {
            id: self.id,
            id_mal: self.id_mal,
            title: opt_title_view(self.title),
            cover_image: opt_cover_view(self.cover_image),
            format: self.format,
            status: self.status,
            season: self.season,
            season_year: self.season_year,
            synonyms: opt_str_list_view(self.synonyms),
            banner_image: opt_str_view(self.banner_image),
            description: opt_str_view(self.description),
            episodes: self.episodes,
            duration: self.duration,
            genres: opt_str_list_view(self.genres),
            average_score: self.average_score,
            popularity: self.popularity,
            start_date: self.start_date,
            end_date: self.end_date,
            updated_at: self.updated_at,
        }
    }
}

/// Two records describe the same anime in the same way: every field agrees
/// except the time of the last edit.
pub open spec fn same_content(a: MediaView, b: MediaView) -> bool {
    &&& a.id == b.id
    &&& a.id_mal == b.id_mal
    &&& a.title == b.title
    &&& a.cover_image == b.cover_image
    &&& a.format == b.format
    &&& a.status == b.status
    &&& a.season == b.season
    &&& a.season_year == b.season_year
    &&& a.synonyms == b.synonyms
    &&& a.banner_image == b.banner_image
    &&& a.description == b.description
    &&& a.episodes == b.episodes
    &&& a.duration == b.duration
    &&& a.genres == b.genres
    &&& a.average_score == b.average_score
    &&& a.popularity == b.popularity
    &&& a.start_date == b.start_date
    &&& a.end_date == b.end_date
}

/// Two records have the same content exactly when they are equal once the
/// edit time is set aside: every kept field (the status among them) counts.
pub proof fn lemma_same_content_is_equality_but_edit_time(a: MediaView, b: MediaView)
    ensures
        same_content(a, b) <==> (MediaView { updated_at: b.updated_at, ..a }) == b,
{
}

/// An edited status is a change of content.
pub proof fn lemma_status_change_is_a_change(a: MediaView, b: MediaView)
    requires
        a.status != b.status,
    ensures
        !same_content(a, b),
{
    lemma_same_content_is_equality_but_edit_time(a, b);
}

// ---------------------------------------------------------------------------
// Comparison and copying

fn opt_i32_eq(a: Option<i32>, b: Option<i32>) -> (r: bool)
    ensures
        r == (a == b),
{
    match (a, b) {
        (Some(x), Some(y)) => x == y,
        (None, None) => true,
        _ => false,
    }
}

fn opt_string_eq(a: &Option<String>, b: &Option<String>) -> (r: bool)
    ensures
        r == (opt_str_view(*a) == opt_str_view(*b)),
{
    match a {
        Some(x) => match b {
            Some(y) => x.eq(y),
            None => false,
        },
        None => b.is_none(),
    }
}

fn string_list_eq(a: &Vec<Option<String>>, b: &Vec<Option<String>>) -> (r: bool)
    ensures
        r == (str_list_view(*a) == str_list_view(*b)),
{
    if a.len() != b.len() {
        proof {
            assert(str_list_view(*a).len() != str_list_view(*b).len());
        }
        return false;
    }
    let mut i: usize = 0;
    while i < a.len()
        invariant
            a.len() == b.len(),
            i <= a.len(),
            forall|j: int| 0 <= j < i ==> opt_str_view(#[trigger] a@[j]) == opt_str_view(b@[j]),
        decreases a.len() - i,
    {
        if !opt_string_eq(&a[i], &b[i]) {
            proof {
                assert(str_list_view(*a)[i as int] != str_list_view(*b)[i as int]);
            }
            return false;
        }
        i = i + 1;
    }
    proof {
        assert(str_list_view(*a) =~= str_list_view(*b));
    }
    true
}

fn opt_string_list_eq(a: &Option<Vec<Option<String>>>, b: &Option<Vec<Option<String>>>) -> (r: bool)
    ensures
        r == (opt_str_list_view(*a) == opt_str_list_view(*b)),
{
    match (a, b) {
        (Some(x), Some(y)) => string_list_eq(x, y),
        (None, None) => true,
        _ => false,
    }
}

fn opt_title_eq(a: &Option<Title>, b: &Option<Title>) -> (r: bool)
    ensures
        r == (opt_title_view(*a) == opt_title_view(*b)),
{
    match (a, b) {
        (Some(x), Some(y)) => {
            opt_string_eq(&x.english, &y.english) && opt_string_eq(&x.romaji, &y.romaji)
                && opt_string_eq(&x.native, &y.native)
        },
        (None, None) => true,
        _ => false,
    }
}

fn opt_cover_eq(a: &Option<MediaCoverImage>, b: &Option<MediaCoverImage>) -> (r: bool)
    ensures
        r == (opt_cover_view(*a) == opt_cover_view(*b)),
{
    match (a, b) {
        (Some(x), Some(y)) => {
            opt_string_eq(&x.medium, &y.medium) && opt_string_eq(&x.large, &y.large)
                && opt_string_eq(&x.extra_large, &y.extra_large)
        },
        (None, None) => true,
        _ => false,
    }
}

fn opt_date_eq(a: Option<FuzzyDate>, b: Option<FuzzyDate>) -> (r: bool)
    ensures
        r == (a == b),
{
    match (a, b) {
        (Some(x), Some(y)) => opt_i32_eq(x.day, y.day) && opt_i32_eq(x.month, y.month)
            && opt_i32_eq(x.year, y.year),
        (None, None) => true,
        _ => false,
    }
}

fn opt_format_eq(a: Option<MediaFormat>, b: Option<MediaFormat>) -> (r: bool)
    ensures
        r == (a == b),
{
    match (a, b) {
        (Some(x), Some(y)) => x == y,
        (None, None) => true,
        _ => false,
    }
}

fn opt_status_eq(a: Option<MediaStatus>, b: Option<MediaStatus>) -> (r: bool)
    ensures
        r == (a == b),
{
    match (a, b) {
        (Some(x), Some(y)) => x == y,
        (None, None) => true,
        _ => false,
    }
}

fn opt_season_eq(a: Option<MediaSeason>, b: Option<MediaSeason>) -> (r: bool)
    ensures
        r == (a == b),
{
    match (a, b) {
        (Some(x), Some(y)) => x == y,
        (None, None) => true,
        _ => false,
    }
}

fn clone_opt_string(s: &Option<String>) -> (r: Option<String>)
    ensures
        opt_str_view(r) == opt_str_view(*s),
{
    match s {
        Some(x) => Some(x.clone()),
        None => None,
    }
}

fn clone_string_list(v: &Vec<Option<String>>) -> (r: Vec<Option<String>>)
    ensures
        str_list_view(r) == str_list_view(*v),
{
    let mut out: Vec<Option<String>> = Vec::new();
    let mut i: usize = 0;
    while i < v.len()
        invariant
            i <= v.len(),
            out.len() == i,
            forall|j: int| 0 <= j < i ==> opt_str_view(#[trigger] out@[j]) == opt_str_view(v@[j]),
        decreases v.len() - i,
    {
        out.push(clone_opt_string(&v[i]));
        i = i + 1;
    }
    proof {
        assert(str_list_view(out) =~= str_list_view(*v));
    }
    out
}

fn clone_opt_string_list(v: &Option<Vec<Option<String>>>) -> (r: Option<Vec<Option<String>>>)
    ensures
        opt_str_list_view(r) == opt_str_list_view(*v),
{
    match v {
        Some(x) => Some(clone_string_list(x)),
        None => None,
    }
}

impl Media {
    /// Whether two records agree on everything but the time of their last
    /// edit: an update that changed nothing the pipeline keeps.
    pub fn content_eq(&self, other: &Media) -> (r: bool)
        ensures
            r == same_content(self@, other@),
            r ==> self.id == other.id,
            r ==> self.id_mal == other.id_mal,
            r ==> self.format == other.format,
            r ==> self.status == other.status,
            r ==> self.season == other.season,
            r ==> self.season_year == other.season_year,
            r ==> self.episodes == other.episodes,
            r ==> self.duration == other.duration,
            r ==> self.average_score == other.average_score,
            r ==> self.popularity == other.popularity,
            r ==> self.start_date == other.start_date,
            r ==> self.end_date == other.end_date,
    {
        self.id == other.id && opt_i32_eq(self.id_mal, other.id_mal) && opt_title_eq(
            &self.title,
            &other.title,
        ) && opt_cover_eq(&self.cover_image, &other.cover_image) && opt_format_eq(
            self.format,
            other.format,
        ) && opt_status_eq(self.status, other.status) && opt_season_eq(self.season, other.season)
            && opt_i32_eq(self.season_year, other.season_year) && opt_string_list_eq(
            &self.synonyms,
            &other.synonyms,
        ) && opt_string_eq(&self.banner_image, &other.banner_image) && opt_string_eq(
            &self.description,
            &other.description,
        ) && opt_i32_eq(self.episodes, other.episodes) && opt_i32_eq(self.duration, other.duration)
            && opt_string_list_eq(&self.genres, &other.genres) && opt_i32_eq(
            self.average_score,
            other.average_score,
        ) && opt_i32_eq(self.popularity, other.popularity) && opt_date_eq(
            self.start_date,
            other.start_date,
        ) && opt_date_eq(self.end_date, other.end_date)
    }

    /// A copy of this record.
    pub fn duplicate(&self) -> (r: Media)
        ensures
            r@ == self@,
    {
        let title = match &self.title {
            Some(t) => Some(
                Title {
                    english: clone_opt_string(&t.english),
                    romaji: clone_opt_string(&t.romaji),
                    native: clone_opt_string(&t.native),
                },
            ),
            None => None,
        };
        let cover_image = match &self.cover_image {
            Some(c) => Some(
                MediaCoverImage {
                    medium: clone_opt_string(&c.medium),
                    large: clone_opt_string(&c.large),
                    extra_large: clone_opt_string(&c.extra_large),
                },
            ),
            None => None,
        };
        Media {
            id: self.id,
            id_mal: self.id_mal,
            title,
            cover_image,
            format: self.format,
            status: self.status,
            season: self.season,
            season_year: self.season_year,
            synonyms: clone_opt_string_list(&self.synonyms),
            banner_image: clone_opt_string(&self.banner_image),
            description: clone_opt_string(&self.description),
            episodes: self.episodes,
            duration: self.duration,
            genres: clone_opt_string_list(&self.genres),
            average_score: self.average_score,
            popularity: self.popularity,
            start_date: self.start_date,
            end_date: self.end_date,
            updated_at: self.updated_at,
        }
    }
}

} // verus!
