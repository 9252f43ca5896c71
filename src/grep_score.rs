use vstd::prelude::*;

use rayon::slice::ParallelSliceMut;

use crate::text::{contains_seq, contains_upper, ends_with_seq, has_upper, lower_of, lowercase, str_contains, str_ends_with};
use crate::types::{FuzzyHit, GrepItem, GrepItemView, MatchKind, Score};

verus! {

/// Per-call settings of the fuzzy re-ranking.
pub struct GrepScoringContext<'a> {
    pub query: &'a str,
    pub max_results: usize,
    pub max_typos: u16,
    pub max_threads: usize,
}

/// The contents of each item.
pub open spec fn views(items: Seq<GrepItem>) -> Seq<GrepItemView> {
    items.map_values(|it: GrepItem| it@)
}

/// The candidate indices that a list of hits names.
pub open spec fn hit_indices(hits: Seq<FuzzyHit>) -> Seq<int> {
    hits.map_values(|h: FuzzyHit| h.index as int)
}

/// Every hit names one of `n` candidates, and no candidate twice.
pub open spec fn hits_within(hits: Seq<FuzzyHit>, n: int) -> bool {
    &&& forall|k: int| 0 <= k < hits.len() ==> (#[trigger] hits[k]).index < n
    &&& hit_indices(hits).no_duplicates()
}

/// The hits, as (candidate index, score, exact) triples, that the fuzzy
/// matcher gives for a query over a list of haystacks, with a typo budget and
/// the two case bonuses.
pub uninterp spec fn fuzzy_hits_of(
    query: Seq<char>,
    haystacks: Seq<Seq<char>>,
    max_typos: u16,
    capitalization_bonus: u16,
    matching_case_bonus: u16,
) -> Set<(usize, u16, bool)>;

/// The hits of a list, as (candidate index, score, exact) triples.
pub open spec fn hit_set(hits: Seq<FuzzyHit>) -> Set<(usize, u16, bool)> {
    hits.map_values(|h: FuzzyHit| (h.index, h.score, h.exact)).to_set()
}

/// The combined view of each item: its path and its line, lower-cased and
/// joined by a space.
pub open spec fn combined_views(items: Seq<GrepItem>) -> Seq<Seq<char>> {
    items.map_values(
        |it: GrepItem| lower_of(it.relative_path@) + seq![' '] + lower_of(it.line_content@),
    )
}

/// The line-only view of each item: its line, lower-cased.
pub open spec fn line_views(items: Seq<GrepItem>) -> Seq<Seq<char>> {
    items.map_values(|it: GrepItem| lower_of(it.line_content@))
}

/// Weight for exact capitalization: on only for a query with an upper-case
/// letter.
pub open spec fn capitalization_bonus_for(query: Seq<char>) -> u16 {
    if has_upper(query) {
        8
    } else {
        0
    }
}

/// Weight for matching case: on only for a query with an upper-case letter.
pub open spec fn matching_case_bonus_for(query: Seq<char>) -> u16 {
    if has_upper(query) {
        4
    } else {
        0
    }
}

/// `hits` and `line_hits` are what the fuzzy matcher gives for `query` over
/// the combined and the line-only views of `items`.
pub open spec fn matcher_output(
    items: Seq<GrepItem>,
    query: Seq<char>,
    max_typos: u16,
    hits: Seq<FuzzyHit>,
    line_hits: Seq<FuzzyHit>,
) -> bool {
    let cap = capitalization_bonus_for(query);
    let case = matching_case_bonus_for(query);
    &&& hits_within(hits, items.len() as int)
    &&& hits_within(line_hits, items.len() as int)
    &&& hit_set(hits) == fuzzy_hits_of(query, combined_views(items), max_typos, cap, case)
    &&& hit_set(line_hits) == fuzzy_hits_of(query, line_views(items), max_typos, cap, case)
}

/// Bonus for the kind of file: source code first, then tests, then
/// configuration.
pub open spec fn file_type_bonus_of(path: Seq<char>) -> i32 {
    if ends_with_seq(path, ".rs"@) || ends_with_seq(path, ".ts"@) || ends_with_seq(path, ".tsx"@)
        || ends_with_seq(path, ".js"@) || ends_with_seq(path, ".jsx"@) || ends_with_seq(
        path,
        ".py"@,
    ) || ends_with_seq(path, ".go"@) || ends_with_seq(path, ".java"@) || ends_with_seq(path, ".c"@)
        || ends_with_seq(path, ".cpp"@) || ends_with_seq(path, ".h"@) {
        5
    } else if contains_seq(path, "test"@) || contains_seq(path, "spec"@) {
        2
    } else if ends_with_seq(path, ".toml"@) || ends_with_seq(path, ".json"@) || ends_with_seq(
        path,
        ".yaml"@,
    ) || ends_with_seq(path, ".yml"@) {
        1
    } else {
        0
    }
}

/// Bonus for a match near the start of its line.
pub open spec fn position_bonus_of(column: usize) -> i32 {
    if column < 10 {
        5
    } else if column < 30 {
        2
    } else {
        0
    }
}

/// The score of the last hit in `hits` that names candidate `i`, if any.
pub open spec fn last_score_for(hits: Seq<FuzzyHit>, i: int) -> Option<u16>
    decreases hits.len(),
{
    if hits.len() == 0 {
        None
    } else if hits.last().index == i {
        Some(hits.last().score)
    } else {
        last_score_for(hits.drop_last(), i)
    }
}

/// A quarter of what the line alone scores above the combined view.
pub open spec fn line_bonus_of(line_score: Option<u16>, base: i32) -> i32 {
    match line_score {
        Some(s) => if s as i32 > base {
            ((s as i32 - base) / 4) as i32
        } else {
            0
        },
        None => 0,
    }
}

/// `a + b`, held to the range of `i32`.
pub open spec fn sat_add(a: i32, b: i32) -> i32 {
    if a + b > i32::MAX {
        i32::MAX
    } else if a + b < i32::MIN {
        i32::MIN
    } else {
        (a + b) as i32
    }
}

/// The score of a candidate that the combined-view match kept as `hit`.
pub open spec fn score_of(item: GrepItemView, hit: FuzzyHit, line_hits: Seq<FuzzyHit>) -> Score {
    let base = hit.score as i32;
    let line_bonus = line_bonus_of(last_score_for(line_hits, hit.index as int), base);
    let position_bonus = position_bonus_of(item.column);
    let file_bonus = file_type_bonus_of(item.relative_path);
    Score {
        total: sat_add(sat_add(sat_add(base, line_bonus), position_bonus), file_bonus),
        base_score: base,
        filename_bonus: line_bonus,
        special_filename_bonus: file_bonus,
        frecency_boost: position_bonus,
        distance_penalty: 0,
        current_file_penalty: 0,
        exact_match: hit.exact,
        match_type: MatchKind::Grep,
    }
}

/// For each hit, its total and its position among the hits.
pub open spec fn rank_keys(items: Seq<GrepItemView>, hits: Seq<FuzzyHit>, line_hits: Seq<FuzzyHit>) -> Seq<(i32, usize)> {
    Seq::new(
        hits.len(),
        |k: int| (score_of(items[hits[k].index as int], hits[k], line_hits).total, k as usize),
    )
}

/// `order` holds the keys of all hits, by total from highest to lowest.
pub open spec fn is_ranking(order: Seq<(i32, usize)>, keys: Seq<(i32, usize)>) -> bool {
    &&& order.to_multiset() == keys.to_multiset()
    &&& sorted_by_total(order)
}

/// The output holds, index-aligned, the first `max_results` candidates of a
/// ranking of the hits, each with its score.
pub open spec fn ranked(
    items: Seq<GrepItemView>,
    hits: Seq<FuzzyHit>,
    line_hits: Seq<FuzzyHit>,
    max_results: usize,
    out_items: Seq<GrepItemView>,
    out_scores: Seq<Score>,
) -> bool {
    &&& out_items.len() == out_scores.len()
    &&& out_items.len() == if hits.len() < max_results { hits.len() as int } else { max_results as int }
    &&& exists|order: Seq<(i32, usize)>|
        #![trigger is_ranking(order, rank_keys(items, hits, line_hits))]
        {
            &&& is_ranking(order, rank_keys(items, hits, line_hits))
            &&& forall|j: int|
                0 <= j < out_items.len() ==> {
                    let hit = hits[order[j].1 as int];
                    &&& #[trigger] out_items[j] == items[hit.index as int]
                    &&& out_scores[j] == score_of(items[hit.index as int], hit, line_hits)
                }
        }
}

/// A list of hits that names no candidate twice is no longer than the list of
/// candidates.
pub proof fn lemma_hits_bounded(hits: Seq<FuzzyHit>, n: int)
    requires
        0 <= n,
        hits_within(hits, n),
    ensures
        hits.len() <= n,
{
    let idx = hit_indices(hits);
    idx.unique_seq_to_set();
    vstd::set_lib::lemma_int_range(0, n);
    assert(idx.to_set().subset_of(vstd::set_lib::set_int_range(0, n)));
    vstd::set_lib::lemma_len_subset(idx.to_set(), vstd::set_lib::set_int_range(0, n));
}

/// Bonus for the kind of file at `path`.
pub fn get_file_type_bonus(path: &str) -> (r: i32)
    ensures
        r == file_type_bonus_of(path@),
{
    if str_ends_with(path, ".rs") || str_ends_with(path, ".ts") || str_ends_with(path, ".tsx")
        || str_ends_with(path, ".js") || str_ends_with(path, ".jsx") || str_ends_with(path, ".py")
        || str_ends_with(path, ".go") || str_ends_with(path, ".java") || str_ends_with(path, ".c")
        || str_ends_with(path, ".cpp") || str_ends_with(path, ".h") {
        5
    } else if str_contains(path, "test") || str_contains(path, "spec") {
        2
    } else if str_ends_with(path, ".toml") || str_ends_with(path, ".json") || str_ends_with(
        path,
        ".yaml",
    ) || str_ends_with(path, ".yml") {
        1
    } else {
        0
    }
}

fn saturating_add_i32(a: i32, b: i32) -> (r: i32)
    ensures
        r == sat_add(a, b),
{
    let s: i64 = a as i64 + b as i64;
    if s > i32::MAX as i64 {
        i32::MAX
    } else if s < i32::MIN as i64 {
        i32::MIN
    } else {
        s as i32
    }
}

/// The score of one kept candidate; `line_score` is what the line alone
/// scored, if it was kept too.
pub fn score_candidate(item: &GrepItem, hit: FuzzyHit, line_score: Option<u16>) -> (r: Score)
    ensures
        forall|line_hits: Seq<FuzzyHit>|
            last_score_for(line_hits, hit.index as int) == line_score ==> r == #[trigger] score_of(
                item@,
                hit,
                line_hits,
            ),
{
    let base_score = hit.score as i32;
    let line_match_bonus: i32 = match line_score {
        Some(s) => if s as i32 > base_score {
            (s as i32 - base_score) / 4
        } else {
            0
        },
        None => 0,
    };
    let position_bonus: i32 = if item.column < 10 {
        5
    } else if item.column < 30 {
        2
    } else {
        0
    };
    let file_type_bonus = get_file_type_bonus(&item.relative_path);
    let total = saturating_add_i32(
        saturating_add_i32(saturating_add_i32(base_score, line_match_bonus), position_bonus),
        file_type_bonus,
    );
    Score {
        total,
        base_score,
        filename_bonus: line_match_bonus,
        special_filename_bonus: file_type_bonus,
        frecency_boost: position_bonus,
        distance_penalty: 0,
        current_file_penalty: 0,
        exact_match: hit.exact,
        match_type: MatchKind::Grep,
    }
}

/// Relies on rayon's `par_sort_unstable_by`: the same elements afterwards,
/// ordered by the comparator, here the first field from highest to lowest.
#[verifier::external_body]
fn sort_by_total_desc(keys: &mut Vec<(i32, usize)>)
    ensures
        final(keys)@.len() == old(keys)@.len(),
        final(keys)@.to_multiset() == old(keys)@.to_multiset(),
        sorted_by_total(final(keys)@),
{
    keys.par_sort_unstable_by(|a, b| b.0.cmp(&a.0));
}

/// Relies on neo_frizbee's `Matcher::match_list_parallel`, unsorted and
/// ignoring case: each haystack is matched once, each hit carries the index
/// of its haystack, and which haystacks are kept with which scores depends on
/// the query, the haystacks and the settings alone (the threads change only
/// the order).
#[verifier::external_body]
fn fuzzy_match_unsorted(
    query: &str,
    haystacks: &Vec<String>,
    max_typos: u16,
    capitalization_bonus: u16,
    matching_case_bonus: u16,
    threads: usize,
) -> (r: Vec<FuzzyHit>)
    requires
        haystacks@.len() <= u32::MAX,
    ensures
        hits_within(r@, haystacks@.len() as int),
        hit_set(r@) == fuzzy_hits_of(
            query@,
            haystacks@.map_values(|h: String| h@),
            max_typos,
            capitalization_bonus,
            matching_case_bonus,
        ),
{
    let config = neo_frizbee::Config {
        max_typos: Some(max_typos),
        casing: neo_frizbee::CaseMatching::Ignore,
        sort: neo_frizbee::SortStrategy::Unsorted,
        scoring: neo_frizbee::Scoring { capitalization_bonus, matching_case_bonus, ..Default::default() },
        ..Default::default()
    };
    let found = neo_frizbee::Matcher::new(query, &config).match_list_parallel(haystacks, threads);
    found.into_iter().map(|m| FuzzyHit { index: m.index as usize, score: m.score, exact: m.exact }).collect()
}

/// For each of `n` candidates, the score of the last hit in `line_hits` that
/// names it.
fn line_score_table(line_hits: &Vec<FuzzyHit>, n: usize) -> (table: Vec<Option<u16>>)
    requires
        hits_within(line_hits@, n as int),
    ensures
        table@.len() == n,
        forall|i: int| 0 <= i < n ==> table@[i] == last_score_for(line_hits@, i),
{
    let mut table: Vec<Option<u16>> = Vec::new();
    let mut i: usize = 0;
    while i < n
        invariant
            i <= n,
            table@.len() == i,
            forall|j: int| 0 <= j < i ==> table@[j] == None::<u16>,
        decreases n - i,
    {
        table.push(None);
        i = i + 1;
    }
    let mut k: usize = 0;
    while k < line_hits.len()
        invariant
            k <= line_hits@.len(),
            table@.len() == n,
            hits_within(line_hits@, n as int),
            forall|j: int| 0 <= j < n ==> table@[j] == last_score_for(line_hits@.subrange(0, k as int), j),
        decreases line_hits@.len() - k,
    {
        let h = line_hits[k];
        assert(h.index < n);
        table.set(h.index, Some(h.score));
        assert(line_hits@.subrange(0, k + 1).drop_last() =~= line_hits@.subrange(0, k as int));
        k = k + 1;
    }
    assert(line_hits@.subrange(0, line_hits@.len() as int) =~= line_hits@);
    table
}

/// Scores each hit, ranks them by total from highest to lowest (equal totals
/// in no set order) and keeps the first `max_results`; also returns how many
/// hits there were.
pub fn rank_hits(items: &Vec<GrepItem>, hits: &Vec<FuzzyHit>, line_hits: &Vec<FuzzyHit>, max_results: usize) -> (r: (Vec<GrepItem>, Vec<Score>, usize))
    requires
        hits_within(hits@, items@.len() as int),
        hits_within(line_hits@, items@.len() as int),
    ensures
        r.2 == hits@.len(),
        ranked(views(items@), hits@, line_hits@, max_results, views(r.0@), r.1@),
{
    let ghost iv = views(items@);
    let table = line_score_table(line_hits, items.len());
    let mut scores: Vec<Score> = Vec::new();
    let mut keys: Vec<(i32, usize)> = Vec::new();
    let mut k: usize = 0;
    while k < hits.len()
        invariant
            k <= hits@.len(),
            iv == views(items@),
            hits_within(hits@, items@.len() as int),
            table@.len() == items@.len(),
            forall|i: int| 0 <= i < items@.len() ==> table@[i] == last_score_for(line_hits@, i),
            scores@.len() == k,
            keys@.len() == k,
            forall|j: int| 0 <= j < k ==> #[trigger] scores@[j] == score_of(iv[hits@[j].index as int], hits@[j], line_hits@),
            forall|j: int| 0 <= j < k ==> #[trigger] keys@[j] == (scores@[j].total, j as usize),
        decreases hits@.len() - k,
    {
        let h = hits[k];
        let s = score_candidate(&items[h.index], h, table[h.index]);
        proof {
            let _ = score_of(items@[h.index as int]@, h, line_hits@);
        }
        scores.push(s);
        keys.push((s.total, k));
        k = k + 1;
    }
    let ghost keys0 = keys@;
    assert(keys0 =~= rank_keys(iv, hits@, line_hits@));
    sort_by_total_desc(&mut keys);
    let count = if hits.len() < max_results { hits.len() } else { max_results };
    let mut out_items: Vec<GrepItem> = Vec::new();
    let mut out_scores: Vec<Score> = Vec::new();
    let mut j: usize = 0;
    while j < count
        invariant
            j <= count,
            count <= hits@.len(),
            count <= max_results,
            keys@.len() == hits@.len(),
            keys@.to_multiset() == keys0.to_multiset(),
            keys0 == rank_keys(iv, hits@, line_hits@),
            iv == views(items@),
            hits_within(hits@, items@.len() as int),
            scores@.len() == hits@.len(),
            forall|i: int| 0 <= i < hits@.len() ==> #[trigger] scores@[i] == score_of(iv[hits@[i].index as int], hits@[i], line_hits@),
            forall|i: int| 0 <= i < hits@.len() ==> #[trigger] keys0[i] == (scores@[i].total, i as usize),
            out_items@.len() == j,
            out_scores@.len() == j,
            forall|i: int| 0 <= i < j ==> #[trigger] keys@[i].1 < hits@.len(),
            forall|i: int| 0 <= i < j ==> #[trigger] out_scores@[i] == scores@[keys@[i].1 as int],
            forall|i: int| 0 <= i < j ==> #[trigger] out_items@[i]@ == iv[hits@[keys@[i].1 as int].index as int],
        decreases count - j,
    {
        let key = keys[j];
        let ghost old_scores = out_scores@;
        let ghost old_items = out_items@;
        proof {
            keys@.to_multiset_ensures();
            keys0.to_multiset_ensures();
            assert(keys@[j as int] == key);
            assert(keys@.contains(key));
            assert(keys@.to_multiset().count(key) > 0);
            assert(keys0.to_multiset().count(key) > 0);
            assert(keys0.contains(key));
        }
        let ghost w = choose|w: int| 0 <= w < keys0.len() && keys0[w] == key;
        assert(keys0[w] == (scores@[w].total, w as usize));
        let pos = key.1;
        let it = items[hits[pos].index].duplicate();
        assert(iv[hits@[pos as int].index as int] == items@[hits@[pos as int].index as int]@);
        out_items.push(it);
        out_scores.push(scores[pos]);
        assert(out_items@[j as int]@ == iv[hits@[keys@[j as int].1 as int].index as int]);
        assert(out_scores@[j as int] == scores@[keys@[j as int].1 as int]);
        assert(keys@[j as int].1 < hits@.len());
        assert forall|i: int| 0 <= i < j + 1 implies #[trigger] out_items@[i]@ == iv[hits@[keys@[i].1 as int].index as int] by {
            if i < j {
                assert(out_items@[i] == old_items[i]);
            }
        }
        j = j + 1;
    }
    proof {
        let order = keys@;
        assert(is_ranking(order, rank_keys(iv, hits@, line_hits@)));
        assert forall|i: int| 0 <= i < views(out_items@).len() implies {
            let hit = hits@[order[i].1 as int];
            &&& #[trigger] views(out_items@)[i] == iv[hit.index as int]
            &&& out_scores@[i] == score_of(iv[hit.index as int], hit, line_hits@)
        } by {
            assert(out_scores@[i] == scores@[order[i].1 as int]);
            assert(out_items@[i]@ == iv[hits@[order[i].1 as int].index as int]);
        }
    }
    (out_items, out_scores, hits.len())
}

/// Scores the items against the query on two views (path with line, and line
/// alone), ranks the kept ones and returns the first `max_results` with their
/// scores, and how many the combined view kept.
pub fn match_and_score_grep_items(items: &Vec<GrepItem>, context: &GrepScoringContext) -> (r: (Vec<GrepItem>, Vec<Score>, usize))
    requires
        items@.len() <= u32::MAX,
    ensures
        items@.len() == 0 ==> r.0@.len() == 0 && r.1@.len() == 0 && r.2 == 0,
        r.2 <= items@.len(),
        items@.len() > 0 ==> exists|hits: Seq<FuzzyHit>, line_hits: Seq<FuzzyHit>|
            #![trigger ranked(views(items@), hits, line_hits, context.max_results, views(r.0@), r.1@)]
            {
                &&& matcher_output(items@, context.query@, context.max_typos, hits, line_hits)
                &&& r.2 == hits.len()
                &&& ranked(views(items@), hits, line_hits, context.max_results, views(r.0@), r.1@)
            },
{
    if items.len() == 0 {
        return (Vec::new(), Vec::new(), 0);
    }
    let upper = contains_upper(context.query);
    let capitalization_bonus: u16 = if upper { 8 } else { 0 };
    let matching_case_bonus: u16 = if upper { 4 } else { 0 };
    let mut combined: Vec<String> = Vec::new();
    let mut lines: Vec<String> = Vec::new();
    let mut i: usize = 0;
    while i < items.len()
        invariant
            i <= items@.len(),
            combined@.len() == i,
            lines@.len() == i,
            forall|j: int| 0 <= j < i ==> #[trigger] combined@[j]@ == lower_of(items@[j].relative_path@) + seq![' '] + lower_of(items@[j].line_content@),
            forall|j: int| 0 <= j < i ==> #[trigger] lines@[j]@ == lower_of(items@[j].line_content@),
        decreases items@.len() - i,
    {
        let mut view = lowercase(&items[i].relative_path);
        proof {
            reveal_strlit(" ");
        }
        view.append(" ");
        let line = lowercase(&items[i].line_content);
        view.append(line.as_str());
        combined.push(view);
        lines.push(line);
        i = i + 1;
    }
    let hits = fuzzy_match_unsorted(
        context.query,
        &combined,
        context.max_typos,
        capitalization_bonus,
        matching_case_bonus,
        context.max_threads,
    );
    let line_hits = fuzzy_match_unsorted(
        context.query,
        &lines,
        context.max_typos,
        capitalization_bonus,
        matching_case_bonus,
        context.max_threads,
    );
    proof {
        lemma_hits_bounded(hits@, items@.len() as int);
    }
    assert(combined@.map_values(|h: String| h@) =~= combined_views(items@));
    assert(lines@.map_values(|h: String| h@) =~= line_views(items@));
    let r = rank_hits(items, &hits, &line_hits, context.max_results);
    r
}


/// Keys ordered from highest to lowest first field.
pub open spec fn sorted_by_total(s: Seq<(i32, usize)>) -> bool {
    forall|i: int, j: int| 0 <= i < j < s.len() ==> s[i].0 >= s[j].0
}

/// Two orderings of the same keys, each from highest to lowest total, have
/// the same total at every position.
pub proof fn lemma_sorted_keys_agree(a: Seq<(i32, usize)>, b: Seq<(i32, usize)>)
    requires
        sorted_by_total(a),
        sorted_by_total(b),
        a.to_multiset() == b.to_multiset(),
    ensures
        a.len() == b.len(),
        forall|j: int| 0 <= j < a.len() ==> #[trigger] a[j].0 == b[j].0,
    decreases a.len(),
{
    a.to_multiset_ensures();
    b.to_multiset_ensures();
    if a.len() == 0 {
        return;
    }
    assert(a.contains(a[0]));
    assert(a.to_multiset().count(a[0]) > 0);
    assert(b.to_multiset().count(a[0]) > 0);
    assert(b.contains(a[0]));
    let p = choose|p: int| 0 <= p < b.len() && b[p] == a[0];
    assert(b.contains(b[0]));
    assert(b.to_multiset().count(b[0]) > 0);
    assert(a.to_multiset().count(b[0]) > 0);
    assert(a.contains(b[0]));
    let q = choose|q: int| 0 <= q < a.len() && a[q] == b[0];
    assert(a[0].0 >= a[q].0);
    assert(b[0].0 >= b[p].0);
    assert(b[0].0 == a[0].0);
    let a1 = a.remove(0);
    let b1 = b.remove(p);
    assert(a1.to_multiset() == a.to_multiset().remove(a[0]));
    assert(b1.to_multiset() == b.to_multiset().remove(b[p]));
    assert(sorted_by_total(a1)) by {
        assert forall|i: int, j: int| 0 <= i < j < a1.len() implies a1[i].0 >= a1[j].0 by {
            assert(a1[i] == a[i + 1] && a1[j] == a[j + 1]);
        }
    }
    assert(sorted_by_total(b1)) by {
        assert forall|i: int, j: int| 0 <= i < j < b1.len() implies b1[i].0 >= b1[j].0 by {
            let ii = if i < p { i } else { i + 1 };
            let jj = if j < p { j } else { j + 1 };
            assert(b1[i] == b[ii] && b1[j] == b[jj]);
        }
    }
    lemma_sorted_keys_agree(a1, b1);
    assert forall|j: int| 0 <= j < a.len() implies #[trigger] a[j].0 == b[j].0 by {
        if j == 0 {
        } else if j <= p {
            assert(a[j] == a1[j - 1]);
            assert(a1[j - 1].0 == b1[j - 1].0);
            assert(b1[j - 1] == b[j - 1]);
            assert(b[0].0 >= b[j].0);
            assert(b[j].0 >= b[p].0);
            assert(b[j - 1].0 >= b[j].0);
            assert(b[0].0 >= b[j - 1].0);
        } else {
            assert(a[j] == a1[j - 1]);
            assert(a1[j - 1].0 == b1[j - 1].0);
            assert(b1[j - 1] == b[j]);
        }
    }
}

/// Ranking the same hits twice gives the same totals at every position of
/// the result: only candidates with equal totals can trade places.
pub proof fn lemma_rankings_agree(
    items: Seq<GrepItemView>,
    hits: Seq<FuzzyHit>,
    line_hits: Seq<FuzzyHit>,
    max_results: usize,
    first_items: Seq<GrepItemView>,
    first_scores: Seq<Score>,
    second_items: Seq<GrepItemView>,
    second_scores: Seq<Score>,
)
    requires
        hits.len() <= usize::MAX,
        hits_within(hits, items.len() as int),
        ranked(items, hits, line_hits, max_results, first_items, first_scores),
        ranked(items, hits, line_hits, max_results, second_items, second_scores),
    ensures
        first_scores.len() == second_scores.len(),
        forall|j: int| 0 <= j < first_scores.len() ==> #[trigger] first_scores[j].total == second_scores[j].total,
{
    let keys = rank_keys(items, hits, line_hits);
    let o1 = choose|order: Seq<(i32, usize)>| #![trigger is_ranking(order, keys)] {
        &&& is_ranking(order, keys)
        &&& forall|j: int| 0 <= j < first_items.len() ==> {
            let hit = hits[order[j].1 as int];
            &&& #[trigger] first_items[j] == items[hit.index as int]
            &&& first_scores[j] == score_of(items[hit.index as int], hit, line_hits)
        }
    };
    let o2 = choose|order: Seq<(i32, usize)>| #![trigger is_ranking(order, keys)] {
        &&& is_ranking(order, keys)
        &&& forall|j: int| 0 <= j < second_items.len() ==> {
            let hit = hits[order[j].1 as int];
            &&& #[trigger] second_items[j] == items[hit.index as int]
            &&& second_scores[j] == score_of(items[hit.index as int], hit, line_hits)
        }
    };
    lemma_sorted_keys_agree(o1, o2);
    o1.to_multiset_ensures();
    keys.to_multiset_ensures();
    assert forall|j: int| 0 <= j < first_scores.len() implies #[trigger] first_scores[j].total == second_scores[j].total by {
        lemma_key_is_total(o1, keys, items, hits, line_hits, j);
        lemma_key_is_total(o2, keys, items, hits, line_hits, j);
        assert(first_items[j] == items[hits[o1[j].1 as int].index as int]);
        assert(second_items[j] == items[hits[o2[j].1 as int].index as int]);
    }
}

/// Each key of a ranking is the total of the hit that it names.
proof fn lemma_key_is_total(
    order: Seq<(i32, usize)>,
    keys: Seq<(i32, usize)>,
    items: Seq<GrepItemView>,
    hits: Seq<FuzzyHit>,
    line_hits: Seq<FuzzyHit>,
    j: int,
)
    requires
        hits.len() <= usize::MAX,
        keys == rank_keys(items, hits, line_hits),
        order.to_multiset() == keys.to_multiset(),
        0 <= j < order.len(),
    ensures
        order[j].1 < hits.len(),
        order[j].0 == score_of(items[hits[order[j].1 as int].index as int], hits[order[j].1 as int], line_hits).total,
{
    order.to_multiset_ensures();
    keys.to_multiset_ensures();
    assert(order.contains(order[j]));
    assert(order.to_multiset().count(order[j]) > 0);
    assert(keys.to_multiset().count(order[j]) > 0);
    assert(keys.contains(order[j]));
    let w = choose|w: int| 0 <= w < keys.len() && keys[w] == order[j];
    assert(keys[w] == (score_of(items[hits[w].index as int], hits[w], line_hits).total, w as usize));
}

} // verus!
