//! The Meilisearch index of merged records: which settings it should have,
//! whether the settings it has already match, and what an index creation
//! task came to. The SDK calls belong to the application.
use vstd::prelude::*;
use vstd::multiset::Multiset;

verus! {

/// The index holding the merged records.
pub const INDEX_ANIMES: &'static str = "animes";

/// The field that identifies a document.
pub const PRIMARY_KEY: &'static str = "id";

/// The parts of an index's settings that the pipeline manages. For
/// filterable attributes, each entry is the text by which the SDK's
/// attribute values are compared: their `Debug` form.
pub struct IndexSettings {
    pub searchable_attributes: Option<Vec<String>>,
    pub filterable_attributes: Option<Vec<String>>,
    pub sortable_attributes: Option<Vec<String>>,
}

pub open spec fn names_view(v: Vec<String>) -> Seq<Seq<char>> {
    v@.map_values(|s: String| s@)
}

/// A list of attributes as a multiset of names; a missing list is empty.
pub open spec fn attribute_bag(v: Option<Vec<String>>) -> Multiset<Seq<char>> {
    match v {
        Some(v) => names_view(v).to_multiset(),
        None => Multiset::empty(),
    }
}

/// Two settings agree when each managed list holds the same names the same
/// number of times, in whatever order.
pub open spec fn settings_agree(current: IndexSettings, desired: IndexSettings) -> bool {
    &&& attribute_bag(current.searchable_attributes) == attribute_bag(desired.searchable_attributes)
    &&& attribute_bag(current.sortable_attributes) == attribute_bag(desired.sortable_attributes)
    &&& attribute_bag(current.filterable_attributes) == attribute_bag(
        desired.filterable_attributes,
    )
}

fn strings(items: &[&str]) -> (v: Vec<String>)
    ensures
        v@.len() == items@.len(),
        forall|i: int| 0 <= i < items@.len() ==> #[trigger] v@[i]@ == items@[i]@,
{
    let mut v: Vec<String> = Vec::new();
    let mut i: usize = 0;
    while i < items.len()
        invariant
            i <= items@.len(),
            v@.len() == i,
            forall|j: int| 0 <= j < i ==> #[trigger] v@[j]@ == items@[j]@,
        decreases items@.len() - i,
    {
        v.push(String::from_str(items[i]));
        i = i + 1;
    }
    v
}

/// The settings the index should have: the titles, synonyms and id are
/// searched; genre, status, season, season year, format and popularity
/// filter; word count, unique kanji count, difficulty, speech duration and
/// speech speed sort.
pub fn desired_settings() -> (s: IndexSettings)
    ensures
        s.searchable_attributes matches Some(v) && names_view(v) == seq![
            "id"@,
            "title.english"@,
            "title.romaji"@,
            "title.native"@,
            "synonyms"@,
        ],
        s.filterable_attributes matches Some(v) && names_view(v) == seq![
            "genres"@,
            "status"@,
            "season"@,
            "seasonYear"@,
            "format"@,
            "popularity"@,
        ],
        s.sortable_attributes matches Some(v) && names_view(v) == seq![
            "language_stats.wordCount"@,
            "language_stats.unique_kanji_count"@,
            "language_stats.difficulty"@,
            "language_stats.speechDuration"@,
            "language_stats.speechSpeed"@,
        ],
{
    let searchable = strings(&["id", "title.english", "title.romaji", "title.native", "synonyms"]);
    let filterable = strings(
        &["genres", "status", "season", "seasonYear", "format", "popularity"],
    );
    let sortable = strings(
        &[
            "language_stats.wordCount",
            "language_stats.unique_kanji_count",
            "language_stats.difficulty",
            "language_stats.speechDuration",
            "language_stats.speechSpeed",
        ],
    );
    assert(names_view(searchable) =~= seq![
        "id"@,
        "title.english"@,
        "title.romaji"@,
        "title.native"@,
        "synonyms"@,
    ]);
    assert(names_view(filterable) =~= seq![
        "genres"@,
        "status"@,
        "season"@,
        "seasonYear"@,
        "format"@,
        "popularity"@,
    ]);
    assert(names_view(sortable) =~= seq![
        "language_stats.wordCount"@,
        "language_stats.unique_kanji_count"@,
        "language_stats.difficulty"@,
        "language_stats.speechDuration"@,
        "language_stats.speechSpeed"@,
    ]);
    IndexSettings {
        searchable_attributes: Some(searchable),
        filterable_attributes: Some(filterable),
        sortable_attributes: Some(sortable),
    }
}

proof fn lemma_take_push_multiset(s: Seq<Seq<char>>, i: int)
    requires
        0 <= i < s.len(),
    ensures
        s.take(i + 1).to_multiset() == s.take(i).to_multiset().insert(s[i]),
{
    broadcast use vstd::seq_lib::group_to_multiset_ensures;

    assert(s.take(i + 1) =~= s.take(i).push(s[i]));
}

/// Whether two lists hold the same names the same number of times.
fn same_names(a: &Vec<String>, b: &Vec<String>) -> (r: bool)
    ensures
        r == (names_view(*a).to_multiset() == names_view(*b).to_multiset()),
{
    broadcast use vstd::seq_lib::group_to_multiset_ensures;
    broadcast use vstd::multiset::group_multiset_axioms;

    let ghost av = names_view(*a);
    let ghost bv = names_view(*b);
    let mut rest: Vec<String> = Vec::new();
    let mut k: usize = 0;
    while k < b.len()
        invariant
            k <= b@.len(),
            rest@.len() == k,
            forall|q: int| 0 <= q < k ==> #[trigger] rest@[q]@ == b@[q]@,
            bv == names_view(*b),
        decreases b@.len() - k,
    {
        let c = b[k].clone();
        assert(c@ == b@[k as int]@);
        rest.push(c);
        k = k + 1;
    }
    proof {
        assert(names_view(rest) =~= bv);
        assert(av.take(0) =~= Seq::<Seq<char>>::empty());
        assert(av.take(0).to_multiset() =~= Multiset::empty());
        assert(Multiset::<Seq<char>>::empty().add(bv.to_multiset()) =~= bv.to_multiset());
    }
    let mut i: usize = 0;
    while i < a.len()
        invariant
            i <= a@.len(),
            av == names_view(*a),
            bv == names_view(*b),
            av.take(i as int).to_multiset().add(names_view(rest).to_multiset()) == bv.to_multiset(),
        decreases a@.len() - i,
    {
        let mut j: usize = 0;
        let mut found = false;
        while j < rest.len()
            invariant_except_break
                !found,
            invariant
                j <= rest@.len(),
                forall|q: int| 0 <= q < j ==> #[trigger] names_view(rest)[q] != av[i as int],
                i < a@.len(),
                av == names_view(*a),
            ensures
                found ==> j < rest@.len() && names_view(rest)[j as int] == av[i as int],
                !found ==> j == rest@.len(),
                forall|q: int| 0 <= q < j ==> #[trigger] names_view(rest)[q] != av[i as int],
            decreases rest@.len() - j,
        {
            if rest[j] == a[i] {
                found = true;
                break;
            }
            j = j + 1;
        }
        if !found {
            proof {
                let x = av[i as int];
                let rv = names_view(rest);
                assert forall|q: int| 0 <= q < rv.len() implies rv[q] != x by {
                    assert(names_view(rest)[q] != av[i as int]);
                }
                assert(!rv.contains(x));
                vstd::seq_lib::to_multiset_contains(rv, x);
                assert(rv.to_multiset().count(x) == 0);
                lemma_take_push_multiset(av, i as int);
                assert(av =~= av.take(i + 1) + av.skip(i + 1));
                vstd::seq_lib::lemma_multiset_commutative(av.take(i + 1), av.skip(i + 1));
                assert(av.to_multiset() =~= av.take(i + 1).to_multiset().add(
                    av.skip(i + 1).to_multiset(),
                ));
                assert(av.to_multiset().count(x) > bv.to_multiset().count(x));
            }
            return false;
        }
        proof {
            let x = av[i as int];
            let rv = names_view(rest);
            assert(rv[j as int] == x);
            lemma_take_push_multiset(av, i as int);
            vstd::seq_lib::to_multiset_remove(rv, j as int);
            assert(rv.contains(x));
            vstd::seq_lib::to_multiset_contains(rv, x);
            assert(rv.to_multiset().count(x) > 0);
            assert(rv.remove(j as int).to_multiset() == rv.to_multiset().remove(x));
            assert(av.take(i + 1).to_multiset().add(rv.remove(j as int).to_multiset())
                =~= av.take(i as int).to_multiset().add(rv.to_multiset()));
        }
        let ghost rv_before = names_view(rest);
        rest.remove(j);
        proof {
            assert(names_view(rest) =~= rv_before.remove(j as int));
        }
        i = i + 1;
    }
    proof {
        assert(av.take(i as int) =~= av);
    }
    if rest.len() == 0 {
        proof {
            assert(names_view(rest).to_multiset() =~= Multiset::empty());
            assert(av.to_multiset().add(Multiset::empty()) =~= av.to_multiset());
        }
        true
    } else {
        proof {
            assert(av.to_multiset().len() + names_view(rest).to_multiset().len() == bv.to_multiset().len());
            assert(names_view(rest).len() > 0);
        }
        false
    }
}

fn same_attribute_list(a: &Option<Vec<String>>, b: &Option<Vec<String>>) -> (r: bool)
    ensures
        r == (attribute_bag(*a) == attribute_bag(*b)),
{
    broadcast use vstd::seq_lib::group_to_multiset_ensures;

    let empty: Vec<String> = Vec::new();
    let av = match a {
        Some(v) => v,
        None => &empty,
    };
    let bv = match b {
        Some(v) => v,
        None => &empty,
    };
    proof {
        assert(names_view(empty) =~= Seq::<Seq<char>>::empty());
        assert(names_view(empty).to_multiset() =~= Multiset::empty());
    }
    same_names(av, bv)
}

/// Whether the index already has the managed settings: searchable, sortable
/// and filterable attributes compared regardless of order.
pub fn settings_match(current: &IndexSettings, desired: &IndexSettings) -> (r: bool)
    ensures
        r == settings_agree(*current, *desired),
{
    same_attribute_list(&current.searchable_attributes, &desired.searchable_attributes)
        && same_attribute_list(&current.sortable_attributes, &desired.sortable_attributes)
        && same_attribute_list(&current.filterable_attributes, &desired.filterable_attributes)
}

/// Comparing settings does not depend on which side is the index's.
pub proof fn lemma_settings_agree_symmetric(a: IndexSettings, b: IndexSettings)
    ensures
        settings_agree(a, b) == settings_agree(b, a),
{
}

/// Settings agree with themselves, so an index that was given the desired
/// settings is left alone on the next run.
pub proof fn lemma_settings_agree_reflexive(a: IndexSettings)
    ensures
        settings_agree(a, a),
{
}

/// Agreement carries over: settings that agree with settings that agree with
/// a third agree with it.
pub proof fn lemma_settings_agree_transitive(
    a: IndexSettings,
    b: IndexSettings,
    c: IndexSettings,
)
    requires
        settings_agree(a, b),
        settings_agree(b, c),
    ensures
        settings_agree(a, c),
{
}

/// The names of a managed list, an absent list holding none.
pub open spec fn list_names(list: Option<Vec<String>>) -> Seq<Seq<char>> {
    match list {
        Some(v) => v@.map_values(|s: String| s@),
        None => Seq::empty(),
    }
}

/// How many times `name` occurs in a managed list.
pub open spec fn name_count(list: Option<Vec<String>>, name: Seq<char>) -> nat {
    list_names(list).to_multiset().count(name)
}

proof fn lemma_bag_counts(list: Option<Vec<String>>)
    ensures
        forall|x: Seq<char>| #[trigger] attribute_bag(list).count(x) == name_count(list, x),
{
    broadcast use vstd::seq_lib::to_multiset_len;
    broadcast use vstd::multiset::lemma_multiset_empty_len;

    if list is None {
        assert(list_names(list).to_multiset().len() == 0);
        assert(list_names(list).to_multiset() =~= Multiset::empty());
    } else {
        assert(list_names(list) == names_view(list.unwrap()));
    }
}

/// Settings agree exactly when each managed list (searchable, sortable,
/// filterable) names every attribute as many times as the other's, in any
/// order, an absent list naming none: lists that hold different names, even
/// of the same length, do not agree.
pub proof fn lemma_agreement_is_same_names(a: IndexSettings, b: IndexSettings)
    ensures
        settings_agree(a, b) <==> {
            &&& forall|x: Seq<char>|
                name_count(a.searchable_attributes, x) == #[trigger] name_count(
                    b.searchable_attributes,
                    x,
                )
            &&& forall|x: Seq<char>|
                name_count(a.sortable_attributes, x) == #[trigger] name_count(
                    b.sortable_attributes,
                    x,
                )
            &&& forall|x: Seq<char>|
                name_count(a.filterable_attributes, x) == #[trigger] name_count(
                    b.filterable_attributes,
                    x,
                )
        },
{
    lemma_bag_counts(a.searchable_attributes);
    lemma_bag_counts(b.searchable_attributes);
    lemma_bag_counts(a.sortable_attributes);
    lemma_bag_counts(b.sortable_attributes);
    lemma_bag_counts(a.filterable_attributes);
    lemma_bag_counts(b.filterable_attributes);
    if forall|x: Seq<char>|
        name_count(a.searchable_attributes, x) == #[trigger] name_count(b.searchable_attributes, x) {
        assert(attribute_bag(a.searchable_attributes) =~= attribute_bag(b.searchable_attributes));
    }
    if forall|x: Seq<char>|
        name_count(a.sortable_attributes, x) == #[trigger] name_count(b.sortable_attributes, x) {
        assert(attribute_bag(a.sortable_attributes) =~= attribute_bag(b.sortable_attributes));
    }
    if forall|x: Seq<char>|
        name_count(a.filterable_attributes, x) == #[trigger] name_count(
            b.filterable_attributes,
            x,
        ) {
        assert(attribute_bag(a.filterable_attributes) =~= attribute_bag(b.filterable_attributes));
    }
}

/// Whether settings agree depends on each list only through its bag of
/// names: settings whose lists hold the same names, in any order and with a
/// missing list standing for an empty one, agree with the same settings.
pub proof fn lemma_settings_agree_depends_on_bags(
    a: IndexSettings,
    b: IndexSettings,
    d: IndexSettings,
)
    requires
        attribute_bag(a.searchable_attributes) == attribute_bag(b.searchable_attributes),
        attribute_bag(a.sortable_attributes) == attribute_bag(b.sortable_attributes),
        attribute_bag(a.filterable_attributes) == attribute_bag(b.filterable_attributes),
    ensures
        settings_agree(a, d) == settings_agree(b, d),
{
}

/// A missing list and an empty one hold the same names.
pub proof fn lemma_missing_list_is_empty(v: Vec<String>)
    requires
        v@.len() == 0,
    ensures
        attribute_bag(None) == attribute_bag(Some(v)),
{
    broadcast use vstd::seq_lib::to_multiset_len;
    broadcast use vstd::multiset::lemma_multiset_empty_len;

    assert(names_view(v).len() == 0);
    assert(names_view(v).to_multiset().len() == 0);
    assert(names_view(v).to_multiset() =~= Multiset::empty());
}

/// Exchanging two entries of a list leaves its names as they were; every
/// reordering is a series of such exchanges.
pub proof fn lemma_swap_keeps_names(v: Vec<String>, w: Vec<String>, i: int, j: int)
    requires
        0 <= i < v@.len(),
        0 <= j < v@.len(),
        names_view(w) == names_view(v).update(i, names_view(v)[j]).update(j, names_view(v)[i]),
    ensures
        attribute_bag(Some(v)) == attribute_bag(Some(w)),
{
    broadcast use vstd::seq_lib::to_multiset_update;
    broadcast use vstd::multiset::group_multiset_axioms;

    let s = names_view(v);
    let s1 = s.update(i, s[j]);
    assert(s1.to_multiset() == s.to_multiset().insert(s[j]).remove(s[i]));
    assert(s1.update(j, s[i]).to_multiset() == s1.to_multiset().insert(s[i]).remove(s1[j]));
    if i == j {
        assert(s1.update(j, s[i]) =~= s);
    } else {
        broadcast use vstd::seq_lib::to_multiset_contains;

        assert(s1[j] == s[j]);
        assert(s.contains(s[i]));
        assert(s.to_multiset().count(s[i]) > 0);
        let m = s.to_multiset();
        assert(m.insert(s[j]).remove(s[i]).insert(s[i]).remove(s[j]) =~= m);
    }
}

/// A list read backwards holds the same names.
pub proof fn lemma_reversed_list_keeps_names(v: Vec<String>, w: Vec<String>)
    requires
        names_view(w) == names_view(v).reverse(),
    ensures
        attribute_bag(Some(v)) == attribute_bag(Some(w)),
{
    names_view(v).lemma_reverse_to_multiset();
}

/// How the task that creates the index ended.
pub enum CreateIndexTask {
    Succeeded,
    /// Failed because the index exists already.
    AlreadyExists,
    /// Failed for another reason, described by `message`.
    Failed { message: String },
    /// Still enqueued or processing when the wait ended.
    Pending,
}

/// What the pipeline concludes from an index creation task.
#[derive(Debug, Clone, Copy, PartialEq, Eq, Structural)]
pub enum IndexCreation {
    Created,
    AlreadyExisted,
    NotFinished,
}

/// Why setting up the index failed.
pub enum MeiliError {
    CreateIndexFailed { message: String },
}

/// An index that exists already is not an error; any other failure is.
pub fn index_creation_outcome(task: CreateIndexTask) -> (r: Result<IndexCreation, MeiliError>)
    ensures
        task is Succeeded ==> r == Ok::<IndexCreation, MeiliError>(IndexCreation::Created),
        task is AlreadyExists ==> r == Ok::<IndexCreation, MeiliError>(
            IndexCreation::AlreadyExisted,
        ),
        task is Pending ==> r == Ok::<IndexCreation, MeiliError>(IndexCreation::NotFinished),
        task matches CreateIndexTask::Failed { message } ==> r == Err::<IndexCreation, MeiliError>(
            MeiliError::CreateIndexFailed { message },
        ),
{
    match task {
        CreateIndexTask::Succeeded => Ok(IndexCreation::Created),
        CreateIndexTask::AlreadyExists => Ok(IndexCreation::AlreadyExisted),
        CreateIndexTask::Failed { message } => Err(MeiliError::CreateIndexFailed { message }),
        CreateIndexTask::Pending => Ok(IndexCreation::NotFinished),
    }
}

} // verus!
