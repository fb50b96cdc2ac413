use vstd::prelude::*;

use crate::frequency::{count_of, FrequencyTable};
use crate::fuzzy::{fuzzy_accepts, lemma_fuzzy_accepts_subsequence, skim_match, skim_result, subsequence_ignoring_case};
use crate::record::{presents, AppInfo, AppResult};
use crate::text::{lower_of, lowercase};

verus! {

/// Most results a search returns.
pub const SEARCH_LIMIT: usize = 10;

/// Most results the frequency-only view returns.
pub const FREQUENT_LIMIT: usize = 6;

/// Weight of one recorded launch in the ranking key.
pub const FREQUENCY_WEIGHT: i128 = 10;

/// Bonus of a shortcut over a raw executable.
pub open spec fn origin_bonus(is_shortcut: bool) -> int {
    if is_shortcut {
        100
    } else {
        50
    }
}

/// The ranking key: fuzzy score, origin bonus and ten per recorded launch.
pub open spec fn ranking_key(fuzzy: int, is_shortcut: bool, launches: int) -> int {
    fuzzy + origin_bonus(is_shortcut) + 10 * launches
}

/// The keys of `apps` given their fuzzy scores (`None`: not a match).
pub open spec fn search_keys(
    apps: Seq<AppInfo>,
    scores: Seq<Option<i64>>,
    freq: Map<Seq<char>, u32>,
) -> Seq<Option<i128>> {
    Seq::new(
        apps.len(),
        |i: int|
            match scores[i] {
                Some(s) => Some(
                    ranking_key(s as int, apps[i].is_shortcut, count_of(freq, apps[i].path@) as int) as i128,
                ),
                None => None,
            },
    )
}

/// A score of zero for each of `n` candidates: every one takes part.
pub open spec fn unscored(n: nat) -> Seq<Option<i64>> {
    Seq::new(n, |i: int| Some(0i64))
}

/// The fuzzy scores of the lowercased names of `apps` against `pattern`.
pub open spec fn fuzzy_scores(apps: Seq<AppInfo>, pattern: Seq<char>) -> Seq<Option<i64>> {
    Seq::new(apps.len(), |i: int| skim_result(lower_of(apps[i].name@), pattern))
}

/// The fuzzy scores alone as keys.
pub open spec fn score_keys(scores: Seq<Option<i64>>) -> Seq<Option<i128>> {
    Seq::new(
        scores.len(),
        |i: int|
            match scores[i] {
                Some(s) => Some(s as i128),
                None => None,
            },
    )
}

/// `r` shows, in order, the applications of `apps` at the positions `idx`.
pub open spec fn presents_ranking(r: Seq<AppResult>, apps: Seq<AppInfo>, idx: Seq<usize>) -> bool {
    &&& r.len() == idx.len()
    &&& forall|a: int| 0 <= a < r.len() ==> presents(#[trigger] r[a], apps[idx[a] as int])
}

/// Candidate `i` goes before candidate `j`: both take part, and `i` has the
/// higher key, or the same key and the earlier position.
pub open spec fn ranks_before(keys: Seq<Option<i128>>, i: int, j: int) -> bool {
    &&& keys[i] is Some
    &&& keys[j] is Some
    &&& (keys[i]->Some_0 > keys[j]->Some_0 || (keys[i]->Some_0 == keys[j]->Some_0 && i < j))
}

/// `r` lists, best first, the `limit` best candidates of `keys` (all of them
/// if fewer take part). A candidate takes part when its key is `Some`; keys
/// rank in descending order and equal keys keep their order of position.
pub open spec fn is_top_ranking(keys: Seq<Option<i128>>, limit: int, r: Seq<usize>) -> bool {
    &&& r.len() <= limit
    &&& forall|a: int| 0 <= a < r.len() ==> #[trigger] r[a] < keys.len() && keys[r[a] as int] is Some
    &&& forall|a: int, b: int|
        0 <= a < b < r.len() ==> ranks_before(keys, #[trigger] r[a] as int, #[trigger] r[b] as int)
    &&& forall|j: int|
        0 <= j < keys.len() && #[trigger] keys[j] is Some && !r.contains(j as usize) ==> {
            &&& r.len() == limit
            &&& forall|a: int| 0 <= a < r.len() ==> ranks_before(keys, #[trigger] r[a] as int, j)
        }
}

fn key_at_least(keys: &Vec<Option<i128>>, idx: usize, k: i128) -> (b: bool)
    requires
        idx < keys.len(),
    ensures
        b == (keys@[idx as int] is Some && keys@[idx as int]->Some_0 >= k),
{
    match keys[idx] {
        Some(kp) => kp >= k,
        None => false,
    }
}

/// The positions of the `limit` best candidates of `keys`, best first.
pub fn top_ranked(keys: &Vec<Option<i128>>, limit: usize) -> (r: Vec<usize>)
    ensures
        is_top_ranking(keys@, limit as int, r@),
{
    let mut r: Vec<usize> = Vec::new();
    let mut i: usize = 0;
    while i < keys.len()
        invariant
            i <= keys.len(),
            r.len() <= limit,
            forall|a: int| 0 <= a < r.len() ==> #[trigger] r[a] < i && keys@[r[a] as int] is Some,
            forall|a: int, b: int|
                0 <= a < b < r.len() ==> ranks_before(keys@, #[trigger] r[a] as int, #[trigger] r[b] as int),
            forall|j: int|
                0 <= j < i && #[trigger] keys@[j] is Some && !r@.contains(j as usize) ==> {
                    &&& r.len() == limit
                    &&& forall|a: int| 0 <= a < r.len() ==> ranks_before(keys@, #[trigger] r[a] as int, j)
                },
        decreases keys.len() - i,
    {
        if let Some(k) = keys[i] {
            let mut p: usize = 0;
            while p < r.len() && key_at_least(keys, r[p], k)
                invariant
                    i < keys.len(),
                    p <= r.len(),
                    forall|a: int| 0 <= a < r.len() ==> #[trigger] r[a] < i && keys@[r[a] as int] is Some,
                    forall|a: int| 0 <= a < p ==> keys@[#[trigger] r[a] as int]->Some_0 >= k,
                decreases r.len() - p,
            {
                p = p + 1;
            }
            if p < limit {
                let ghost old_r = r@;
                r.insert(p, i);
                assert(r@ == old_r.insert(p as int, i));
                assert forall|a: int, b: int| 0 <= a < b < r.len() implies ranks_before(
                    keys@,
                    #[trigger] r[a] as int,
                    #[trigger] r[b] as int,
                ) by {
                    if b < p {
                    } else if b == p {
                    } else if a < p {
                        assert(ranks_before(keys@, old_r[a] as int, old_r[b - 1] as int) || a == b - 1);
                    } else if a == p {
                        assert(p < old_r.len());
                        if b - 1 > p {
                            assert(ranks_before(keys@, old_r[p as int] as int, old_r[b - 1] as int));
                        }
                    } else {
                        assert(ranks_before(keys@, old_r[a - 1] as int, old_r[b - 1] as int));
                    }
                }
                if r.len() > limit {
                    let ghost full = r@;
                    let dropped = r.pop();
                    assert(r@ == full.drop_last());
                    assert(full[p as int] == i);
                    assert(r@[p as int] == i);
                    assert forall|j: int|
                        0 <= j <= i && #[trigger] keys@[j] is Some && !r@.contains(j as usize) implies {
                            &&& r.len() == limit
                            &&& forall|a: int| 0 <= a < r.len() ==> ranks_before(keys@, #[trigger] r[a] as int, j)
                        } by {
                        if j as usize == dropped.unwrap() {
                            assert forall|a: int| 0 <= a < r.len() implies ranks_before(keys@, #[trigger] r[a] as int, j) by {
                                assert(full[a] == r[a]);
                            }
                        } else {
                            assert(!old_r.contains(j as usize)) by {
                                if old_r.contains(j as usize) {
                                    let t = choose|t: int| 0 <= t < old_r.len() && old_r[t] == j as usize;
                                    if t < p {
                                        assert(r@[t] == j as usize);
                                    } else {
                                        assert(full[t + 1] == j as usize);
                                        if t + 1 < r.len() {
                                            assert(r@[t + 1] == j as usize);
                                        }
                                    }
                                }
                            }
                            assert(j != i);
                            assert forall|a: int| 0 <= a < r.len() implies ranks_before(keys@, #[trigger] r[a] as int, j) by {
                                if a < p {
                                    assert(r[a] == old_r[a]);
                                } else if a == p {
                                    assert(ranks_before(keys@, old_r[p as int] as int, j));
                                } else {
                                    assert(r[a] == old_r[a - 1]);
                                }
                            }
                        }
                    }
                } else {
                    assert forall|j: int|
                        0 <= j <= i && #[trigger] keys@[j] is Some && !r@.contains(j as usize) implies {
                            &&& r.len() == limit
                            &&& forall|a: int| 0 <= a < r.len() ==> ranks_before(keys@, #[trigger] r[a] as int, j)
                        } by {
                        assert(r@[p as int] == i);
                        assert(!old_r.contains(j as usize)) by {
                            if old_r.contains(j as usize) {
                                let t = choose|t: int| 0 <= t < old_r.len() && old_r[t] == j as usize;
                                if t < p {
                                    assert(r@[t] == j as usize);
                                } else {
                                    assert(r@[t + 1] == j as usize);
                                }
                            }
                        }
                    }
                }
            } else {
                assert(keys@[i as int] is Some);
                assert forall|a: int| 0 <= a < r.len() implies ranks_before(keys@, #[trigger] r[a] as int, i as int) by {
                    assert(keys@[r[a] as int]->Some_0 >= k);
                }
                assert forall|j: int|
                    0 <= j <= i && #[trigger] keys@[j] is Some && !r@.contains(j as usize) implies {
                        &&& r.len() == limit
                        &&& forall|a: int| 0 <= a < r.len() ==> ranks_before(keys@, #[trigger] r[a] as int, j)
                    } by {
                    if j == i {
                    }
                }
            }
        }
        i = i + 1;
    }
    r
}

/// The ranking key of one scored application.
pub fn ranking_key_of(app: &AppInfo, score: i64, tracker: &FrequencyTable) -> (k: i128)
    requires
        tracker.wf(),
    ensures
        k == ranking_key(score as int, app.is_shortcut, count_of(tracker@, app.path@) as int),
{
    let bonus: i128 = if app.is_shortcut {
        100
    } else {
        50
    };
    let launches = tracker.get(app.path.as_str());
    score as i128 + bonus + FREQUENCY_WEIGHT * (launches as i128)
}

/// The `limit` best of `apps` by fuzzy score, origin and launch count, shown
/// as results. `scores[i]` is the fuzzy score of `apps[i]`, `None` where its
/// name does not match.
pub fn rank_scored(
    apps: &Vec<AppInfo>,
    scores: &Vec<Option<i64>>,
    tracker: &FrequencyTable,
    limit: usize,
) -> (r: Vec<AppResult>)
    requires
        apps.len() == scores.len(),
        tracker.wf(),
    ensures
        r.len() <= limit,
        exists|idx: Seq<usize>|
            is_top_ranking(search_keys(apps@, scores@, tracker@), limit as int, idx)
                && presents_ranking(r@, apps@, idx),
{
    let ghost target = search_keys(apps@, scores@, tracker@);
    let mut keys: Vec<Option<i128>> = Vec::new();
    let mut i: usize = 0;
    while i < apps.len()
        invariant
            apps.len() == scores.len(),
            tracker.wf(),
            target == search_keys(apps@, scores@, tracker@),
            i <= apps.len(),
            keys@ == target.take(i as int),
        decreases apps.len() - i,
    {
        let k = match scores[i] {
            Some(s) => Some(ranking_key_of(&apps[i], s, tracker)),
            None => None,
        };
        keys.push(k);
        i = i + 1;
        assert(keys@ =~= target.take(i as int));
    }
    assert(keys@ =~= target);
    let idx = top_ranked(&keys, limit);
    let mut r: Vec<AppResult> = Vec::new();
    let mut n: usize = 0;
    while n < idx.len()
        invariant
            is_top_ranking(keys@, limit as int, idx@),
            keys@.len() == apps.len(),
            n <= idx.len(),
            r.len() == n,
            forall|a: int| 0 <= a < n ==> presents(#[trigger] r[a], apps@[idx[a] as int]),
        decreases idx.len() - n,
    {
        r.push(AppResult::from_app(&apps[idx[n]]));
        n = n + 1;
    }
    assert(presents_ranking(r@, apps@, idx@));
    r
}

/// The ranking of an empty query: the ten best of `apps` by origin and launch count.
pub fn convert_to_results(apps: &Vec<AppInfo>, tracker: &FrequencyTable) -> (r: Vec<AppResult>)
    requires
        tracker.wf(),
    ensures
        r.len() <= SEARCH_LIMIT,
        exists|idx: Seq<usize>|
            is_top_ranking(search_keys(apps@, unscored(apps@.len()), tracker@), SEARCH_LIMIT as int, idx)
                && presents_ranking(r@, apps@, idx),
{
    let mut scores: Vec<Option<i64>> = Vec::new();
    let mut i: usize = 0;
    while i < apps.len()
        invariant
            i <= apps.len(),
            scores@ == unscored(i as nat),
        decreases apps.len() - i,
    {
        scores.push(Some(0i64));
        i = i + 1;
        assert(scores@ =~= unscored(i as nat));
    }
    rank_scored(apps, &scores, tracker, SEARCH_LIMIT)
}

/// The fuzzy score of each lowercased name of `apps` against `pattern`.
pub fn match_scores(apps: &Vec<AppInfo>, pattern: &str) -> (r: Vec<Option<i64>>)
    ensures
        r@ == fuzzy_scores(apps@, pattern@),
        forall|i: int|
            0 <= i < r.len() ==> (#[trigger] r@[i] is Some <==> fuzzy_accepts(lower_of(apps@[i].name@), pattern@)),
{
    let ghost target = fuzzy_scores(apps@, pattern@);
    let mut r: Vec<Option<i64>> = Vec::new();
    let mut i: usize = 0;
    while i < apps.len()
        invariant
            i <= apps.len(),
            target == fuzzy_scores(apps@, pattern@),
            r@ == target.take(i as int),
            forall|j: int|
                0 <= j < i ==> (#[trigger] r@[j] is Some <==> fuzzy_accepts(lower_of(apps@[j].name@), pattern@)),
        decreases apps.len() - i,
    {
        let name = lowercase(apps[i].name.as_str());
        r.push(skim_match(name.as_str(), pattern));
        i = i + 1;
        assert(r@ =~= target.take(i as int));
    }
    assert(r@ =~= target);
    r
}

/// Searches `apps` for `query`: with an empty query the ten best by origin and
/// launch count; otherwise the ten best of the applications whose lowercased
/// name fuzzy-matches the lowercased query, by fuzzy score, origin and launch
/// count.
pub fn search_apps(query: &str, apps: &Vec<AppInfo>, tracker: &FrequencyTable) -> (r: Vec<AppResult>)
    requires
        tracker.wf(),
    ensures
        r.len() <= SEARCH_LIMIT,
        query@.len() == 0 ==> exists|idx: Seq<usize>|
            is_top_ranking(search_keys(apps@, unscored(apps@.len()), tracker@), SEARCH_LIMIT as int, idx)
                && presents_ranking(r@, apps@, idx),
        query@.len() > 0 ==> exists|idx: Seq<usize>|
            is_top_ranking(
                search_keys(apps@, fuzzy_scores(apps@, lower_of(query@)), tracker@),
                SEARCH_LIMIT as int,
                idx,
            ) && presents_ranking(r@, apps@, idx),
        query@.len() > 0 ==> forall|a: int|
            0 <= a < r.len() ==> subsequence_ignoring_case(lower_of(query@), lower_of(#[trigger] r[a].title@)),
{
    if query.is_empty() {
        return convert_to_results(apps, tracker);
    }
    let pattern = lowercase(query);
    let scores = match_scores(apps, pattern.as_str());
    let r = rank_scored(apps, &scores, tracker, SEARCH_LIMIT);
    proof {
        let idx = choose|idx: Seq<usize>|
            is_top_ranking(search_keys(apps@, scores@, tracker@), SEARCH_LIMIT as int, idx)
                && presents_ranking(r@, apps@, idx);
        let keys = search_keys(apps@, scores@, tracker@);
        assert forall|a: int| 0 <= a < r.len() implies subsequence_ignoring_case(
            lower_of(query@),
            lower_of(#[trigger] r[a].title@),
        ) by {
            let j = idx[a] as int;
            assert(keys[j] is Some);
            assert(presents(r[a], apps@[j]));
            assert(scores@[j] is Some);
            assert(fuzzy_accepts(lower_of(apps@[j].name@), lower_of(query@)));
            lemma_fuzzy_accepts_subsequence(lower_of(apps@[j].name@), lower_of(query@));
        }
    }
    r
}

/// Filters `all_apps` by fuzzy match of the lowercased name against the
/// lowercased query and orders the matches by descending fuzzy score (equal
/// scores keep their order); an empty query keeps every application as is.
pub fn search_windows_apps(query: &str, all_apps: Vec<AppInfo>) -> (r: Vec<AppInfo>)
    ensures
        query@.len() == 0 ==> r@ == all_apps@,
        query@.len() > 0 ==> exists|idx: Seq<usize>|
            is_top_ranking(score_keys(fuzzy_scores(all_apps@, lower_of(query@))), all_apps@.len() as int, idx)
                && r@.len() == idx.len() && forall|a: int|
                0 <= a < r@.len() ==> #[trigger] r@[a] == all_apps@[idx[a] as int],
        query@.len() > 0 ==> forall|a: int|
            0 <= a < r.len() ==> subsequence_ignoring_case(lower_of(query@), lower_of(#[trigger] r[a].name@)),
{
    if query.is_empty() {
        return all_apps;
    }
    let pattern = lowercase(query);
    let scores = match_scores(&all_apps, pattern.as_str());
    let ghost target = score_keys(scores@);
    let mut keys: Vec<Option<i128>> = Vec::new();
    let mut i: usize = 0;
    while i < scores.len()
        invariant
            i <= scores.len(),
            target == score_keys(scores@),
            keys@ == target.take(i as int),
        decreases scores.len() - i,
    {
        let k = match scores[i] {
            Some(s) => Some(s as i128),
            None => None,
        };
        keys.push(k);
        i = i + 1;
        assert(keys@ =~= target.take(i as int));
    }
    assert(keys@ =~= target);
    let idx = top_ranked(&keys, all_apps.len());
    let mut r: Vec<AppInfo> = Vec::new();
    let mut n: usize = 0;
    while n < idx.len()
        invariant
            is_top_ranking(keys@, all_apps.len() as int, idx@),
            keys@.len() == all_apps.len(),
            n <= idx.len(),
            r.len() == n,
            forall|a: int| 0 <= a < n ==> #[trigger] r@[a] == all_apps@[idx[a] as int],
        decreases idx.len() - n,
    {
        r.push(all_apps[idx[n]].duplicate());
        n = n + 1;
    }
    assert forall|a: int| 0 <= a < r.len() implies subsequence_ignoring_case(
        lower_of(query@),
        lower_of(#[trigger] r[a].name@),
    ) by {
        let j = idx[a] as int;
        assert(keys@[j] is Some);
        assert(scores@[j] is Some);
        lemma_fuzzy_accepts_subsequence(lower_of(all_apps@[j].name@), lower_of(query@));
    }
    r
}

/// A candidate with a higher key ranks first: where the lower one is
/// listed, the higher one is listed too, and earlier.
pub proof fn lemma_higher_key_ranks_first(keys: Seq<Option<i128>>, limit: int, idx: Seq<usize>, i: usize, j: usize)
    requires
        is_top_ranking(keys, limit, idx),
        0 <= i < keys.len(),
        0 <= j < keys.len(),
        keys[i as int] is Some,
        keys[j as int] is Some,
        keys[i as int]->Some_0 > keys[j as int]->Some_0,
        idx.contains(j),
    ensures
        exists|a: int, b: int| 0 <= a < b < idx.len() && idx[a] == i && idx[b] == j,
{
    let b = choose|b: int| 0 <= b < idx.len() && idx[b] == j;
    if !idx.contains(i) {
        assert(ranks_before(keys, idx[b] as int, i as int));
    } else {
        let a = choose|a: int| 0 <= a < idx.len() && idx[a] == i;
        if a > b {
            assert(ranks_before(keys, idx[b] as int, idx[a] as int));
        }
        assert(a != b);
        assert(0 <= a < b < idx.len() && idx[a] == i && idx[b] == j);
    }
}

/// Between two applications with the same fuzzy score, the one with the
/// larger origin-plus-frequency bonus ranks first: where the other is
/// listed, it is listed too, and earlier. With equal launch counts this
/// puts a shortcut (bonus 100) above a raw executable (bonus 50).
pub proof fn lemma_bonus_breaks_fuzzy_ties(
    apps: Seq<AppInfo>,
    scores: Seq<Option<i64>>,
    freq: Map<Seq<char>, u32>,
    limit: int,
    idx: Seq<usize>,
    i: usize,
    j: usize,
)
    requires
        apps.len() == scores.len(),
        is_top_ranking(search_keys(apps, scores, freq), limit, idx),
        0 <= i < apps.len(),
        0 <= j < apps.len(),
        scores[i as int] is Some,
        scores[i as int] == scores[j as int],
        origin_bonus(apps[i as int].is_shortcut) + 10 * count_of(freq, apps[i as int].path@) > origin_bonus(
            apps[j as int].is_shortcut,
        ) + 10 * count_of(freq, apps[j as int].path@),
        idx.contains(j),
    ensures
        exists|a: int, b: int| 0 <= a < b < idx.len() && idx[a] == i && idx[b] == j,
{
    let keys = search_keys(apps, scores, freq);
    lemma_higher_key_ranks_first(keys, limit, idx, i, j);
}

/// The title of a frequently launched path: its file stem, "Unknown App"
/// where it has none.
pub fn frequent_title(stem: Option<String>) -> (r: String)
    ensures
        stem is Some ==> r == stem->Some_0,
        stem is None ==> r@ == "Unknown App"@,
{
    match stem {
        Some(s) => s,
        None => String::from_str("Unknown App"),
    }
}

/// The result shown for a frequently launched path.
pub fn frequent_result(path: String, stem: Option<String>, icon_path: Option<String>) -> (r: AppResult)
    ensures
        r.result_type@ == "app"@,
        stem is Some ==> r.title == stem->Some_0,
        stem is None ==> r.title@ == "Unknown App"@,
        r.path == path,
        r.icon_path == icon_path,
{
    AppResult { result_type: String::from_str("app"), title: frequent_title(stem), path, icon_path }
}

/// The paths of the frequency-only view: the six most launched, most launched first.
pub fn frequent_paths(tracker: &FrequencyTable) -> (r: Vec<String>)
    requires
        tracker.wf(),
    ensures
        r.len() <= FREQUENT_LIMIT,
        forall|a: int| 0 <= a < r.len() ==> tracker@.contains_key(#[trigger] r[a]@),
        forall|a: int, b: int|
            0 <= a < b < r.len() ==> #[trigger] r[a]@ != #[trigger] r[b]@ && tracker@[r[a]@] >= tracker@[r[b]@],
        forall|p: Seq<char>|
            #[trigger] tracker@.contains_key(p) && !r@.map_values(|s: String| s@).contains(p) ==> r.len()
                == FREQUENT_LIMIT && forall|a: int| 0 <= a < r.len() ==> tracker@[#[trigger] r[a]@] >= tracker@[p],
{
    let top = tracker.most_frequent(FREQUENT_LIMIT);
    let mut r: Vec<String> = Vec::new();
    let mut n: usize = 0;
    while n < top.len()
        invariant
            n <= top.len(),
            r.len() == n,
            forall|a: int| 0 <= a < n ==> (#[trigger] r[a])@ == top[a].0@,
        decreases top.len() - n,
    {
        r.push(top[n].0.clone());
        n = n + 1;
    }
    assert(r@.map_values(|s: String| s@) =~= crate::frequency::listed_paths(top@));
    assert forall|a: int| 0 <= a < r.len() implies tracker@.contains_key(#[trigger] r[a]@) by {
        assert(r[a]@ == top[a].0@);
    }
    assert forall|a: int, b: int|
        0 <= a < b < r.len() implies #[trigger] r[a]@ != #[trigger] r[b]@ && tracker@[r[a]@] >= tracker@[r[b]@] by {
        assert(r[a]@ == top[a].0@);
        assert(r[b]@ == top[b].0@);
    }
    assert forall|p: Seq<char>|
        #[trigger] tracker@.contains_key(p) && !r@.map_values(|s: String| s@).contains(p) implies r.len()
            == FREQUENT_LIMIT && forall|a: int| 0 <= a < r.len() ==> tracker@[#[trigger] r[a]@] >= tracker@[p] by {
        assert forall|a: int| 0 <= a < r.len() implies tracker@[#[trigger] r[a]@] >= tracker@[p] by {
            assert(r[a]@ == top[a].0@);
        }
    }
    r
}

} // verus!
