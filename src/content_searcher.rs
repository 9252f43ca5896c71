use vstd::prelude::*;

use crate::grep_score::{match_and_score_grep_items, matcher_output, ranked, views, GrepScoringContext};
use crate::text::push_char;
use crate::types::{neutral_score, FuzzyHit, GrepItem, GrepSearchResult, Score, SearchError};

verus! {

/// Characters that have a meaning of their own in a regular expression.
pub open spec fn is_regex_meta(c: char) -> bool {
    c == '\\' || c == '.' || c == '+' || c == '*' || c == '?' || c == '(' || c == ')'
        || c == '|' || c == '[' || c == ']' || c == '{' || c == '}' || c == '^' || c == '$'
}

/// A pattern that matches `c` literally.
pub open spec fn escape_char(c: char) -> Seq<char> {
    if is_regex_meta(c) {
        seq!['\\', c]
    } else {
        seq![c]
    }
}

/// A pattern that matches `s` literally.
pub open spec fn escaped(s: Seq<char>) -> Seq<char>
    decreases s.len(),
{
    if s.len() == 0 {
        Seq::empty()
    } else {
        escaped(s.drop_last()) + escape_char(s.last())
    }
}

/// A pattern that matches `c` or any single character: `(c|.)`.
pub open spec fn char_or_any(c: char) -> Seq<char> {
    seq!['('] + escape_char(c) + seq!['|', '.', ')']
}

/// One `char_or_any` group for each character of `s`, in order.
pub open spec fn wildcards(s: Seq<char>) -> Seq<char>
    decreases s.len(),
{
    if s.len() == 0 {
        Seq::empty()
    } else {
        wildcards(s.drop_last()) + char_or_any(s.last())
    }
}

/// The typo-tolerant pattern for a query: short queries stay literal; longer
/// ones keep their first and last characters literal and let every interior
/// character be itself or any single character.
pub open spec fn fuzzy_pattern(q: Seq<char>) -> Seq<char> {
    if q.len() <= 2 {
        escaped(q)
    } else {
        escape_char(q[0]) + wildcards(q.subrange(1, q.len() - 1)) + escape_char(q[q.len() - 1])
    }
}

/// Whether the regex engine accepts `pattern`.
pub uninterp spec fn regex_accepts(pattern: Seq<char>) -> bool;

#[verifier::external_type_specification]
#[verifier::external_body]
pub struct ExRegexMatcher(grep_regex::RegexMatcher);

#[verifier::external_type_specification]
#[verifier::external_body]
pub struct ExRegexError(grep_regex::Error);

/// Relies on grep_regex's `RegexMatcherBuilder::build`, with case-insensitive
/// matching on: it succeeds exactly on the patterns that the engine accepts.
#[verifier::external_body]
fn build_case_insensitive(pattern: &str) -> (r: Result<grep_regex::RegexMatcher, grep_regex::Error>)
    ensures
        r is Ok <==> regex_accepts(pattern@),
{
    grep_regex::RegexMatcherBuilder::new().case_insensitive(true).build(pattern)
}

/// Relies on grep_regex's `Display` for its error: the engine's message.
#[verifier::external_body]
fn regex_error_message(e: &grep_regex::Error) -> String {
    e.to_string()
}

/// Relies on `pathdiff::diff_paths`: `path` written relative to `base`, when
/// the two can be related.
#[verifier::external_body]
fn diff_paths(path: &str, base: &str) -> Option<String> {
    pathdiff::diff_paths(std::path::Path::new(path), std::path::Path::new(base)).map(
        |p| p.to_string_lossy().into_owned(),
    )
}

/// The relative path when there is one, else the path itself.
pub open spec fn relative_or_path(relative: Option<String>, path: Seq<char>) -> Seq<char> {
    match relative {
        Some(rel) => rel@,
        None => path,
    }
}

/// `s` without the newlines at its end.
pub open spec fn without_trailing_newlines(s: Seq<char>) -> Seq<char>
    decreases s.len(),
{
    if s.len() > 0 && s.last() == '\n' {
        without_trailing_newlines(s.drop_last())
    } else {
        s
    }
}

/// The smaller of two counts.
pub open spec fn min_len(a: int, b: int) -> int {
    if a < b {
        a
    } else {
        b
    }
}

/// How many typos the fuzzy matcher tolerates for a query of `len` bytes:
/// a quarter of it, but from 2 to 6.
pub open spec fn typo_budget_of(len: nat) -> u16 {
    if len / 4 < 2 {
        2
    } else if len / 4 > 6 {
        6
    } else {
        (len / 4) as u16
    }
}

/// A query of at most two characters becomes the literal pattern for it,
/// with no tolerance for typos.
pub proof fn lemma_short_query_literal(q: Seq<char>)
    requires
        q.len() <= 2,
    ensures
        fuzzy_pattern(q) == escaped(q),
{
}

/// For a longer query the pattern starts with the literal first character
/// and ends with the literal last one, and in between has, for each interior
/// position in order, a group that accepts the query's character there or
/// any single character.
pub proof fn lemma_long_query_shape(q: Seq<char>)
    requires
        q.len() > 2,
    ensures
        fuzzy_pattern(q) == escape_char(q[0]) + wildcards(q.subrange(1, q.len() - 1))
            + escape_char(q[q.len() - 1]),
        forall|k: int|
            1 <= k < q.len() - 1 ==> #[trigger] wildcards(q.subrange(1, q.len() - 1)) == wildcards(
                q.subrange(1, k),
            ) + char_or_any(q[k]) + wildcards(q.subrange(k + 1, q.len() - 1)),
{
    assert forall|k: int| 1 <= k < q.len() - 1 implies #[trigger] wildcards(q.subrange(1, q.len() - 1))
        == wildcards(q.subrange(1, k)) + char_or_any(q[k]) + wildcards(
        q.subrange(k + 1, q.len() - 1),
    ) by {
        let left = q.subrange(1, k + 1);
        let right = q.subrange(k + 1, q.len() - 1);
        assert(q.subrange(1, q.len() - 1) =~= left + right);
        lemma_wildcards_concat(left, right);
        assert(left.drop_last() =~= q.subrange(1, k));
    }
}

/// The groups for two pieces of a query, one after the other, are the
/// groups for the whole.
pub proof fn lemma_wildcards_concat(a: Seq<char>, b: Seq<char>)
    ensures
        wildcards(a + b) == wildcards(a) + wildcards(b),
    decreases b.len(),
{
    if b.len() == 0 {
        assert(a + b =~= a);
        assert(wildcards(a) + wildcards(b) =~= wildcards(a));
    } else {
        lemma_wildcards_concat(a, b.drop_last());
        assert((a + b).drop_last() =~= a + b.drop_last());
        assert((a + b).last() == b.last());
        assert(wildcards(a) + wildcards(b) =~= wildcards(a) + wildcards(b.drop_last()) + char_or_any(b.last()));
    }
}

/// Searches the files under one root directory.
pub struct ContentSearcher {
    pub base_path: String,
}

impl ContentSearcher {
    /// A searcher rooted at `base_path`; `path_exists` tells whether that path
    /// exists on disk.
    pub fn new(base_path: String, path_exists: bool) -> (r: Result<ContentSearcher, SearchError>)
        ensures
            path_exists ==> r is Ok && r->Ok_0.base_path@ == base_path@,
            !path_exists ==> (r matches Err(SearchError::InvalidPath(p)) && p@ == base_path@),
    {
        if !path_exists {
            return Err(SearchError::InvalidPath(base_path));
        }
        Ok(ContentSearcher { base_path })
    }

    /// Compiles a search pattern, matching case-insensitively.
    pub fn compile_pattern(pattern: &str) -> (r: Result<grep_regex::RegexMatcher, SearchError>)
        ensures
            r is Ok <==> regex_accepts(pattern@),
            r is Err ==> r->Err_0 is GrepError,
    {
        match build_case_insensitive(pattern) {
            Ok(m) => Ok(m),
            Err(e) => Err(SearchError::GrepError(regex_error_message(&e))),
        }
    }

    /// How many raw lines the literal search gathers for `max_results`
    /// ranked ones: twice as many, held to the range of `usize`.
    pub fn grep_budget(max_results: usize) -> (r: usize)
        ensures
            r == min_len(2 * max_results, usize::MAX as int),
    {
        if max_results > usize::MAX / 2 {
            usize::MAX
        } else {
            max_results * 2
        }
    }

    /// Whether the walk stops, once `collected` lines were gathered.
    pub fn walk_should_quit(collected: usize, max_results: usize) -> (r: bool)
        ensures
            r == (collected >= max_results),
    {
        collected >= max_results
    }

    /// `line` without the newlines at its end.
    pub fn trim_trailing_newlines(line: &str) -> (r: String)
        ensures
            r@ == without_trailing_newlines(line@),
    {
        let mut end = line.unicode_len();
        assert(line@.subrange(0, line@.len() as int) =~= line@);
        while end > 0 && line.get_char(end - 1) == '\n'
            invariant
                end <= line@.len(),
                without_trailing_newlines(line@.subrange(0, end as int)) == without_trailing_newlines(line@),
            decreases end,
        {
            assert(line@.subrange(0, end - 1) =~= line@.subrange(0, end as int).drop_last());
            end = end - 1;
        }
        line.substring_char(0, end).to_owned()
    }

    /// The item for line `line_number` of the file at `path`, whose text is
    /// `line`; its path relative to the root is whatever `diff_paths` gives.
    pub fn line_item(&self, path: &str, line_number: usize, line: &str) -> (r: GrepItem)
        ensures
            r.path@ == path@,
            r.line_number == line_number,
            r.line_content@ == without_trailing_newlines(line@),
            r.column == 0,
            exists|relative: Option<String>| #[trigger] relative_or_path(relative, path@) == r.relative_path@,
    {
        let relative = diff_paths(path, self.base_path.as_str());
        let r = Self::make_item(path, relative, line_number, line);
        assert(relative_or_path(relative, path@) == r.relative_path@);
        r
    }

    /// The item for line `line_number` of the file at `path`, whose text is
    /// `line`, given the path relative to the root when there is one.
    pub fn make_item(path: &str, relative: Option<String>, line_number: usize, line: &str) -> (r: GrepItem)
        ensures
            r.path@ == path@,
            r.relative_path@ == relative_or_path(relative, path@),
            r.line_number == line_number,
            r.line_content@ == without_trailing_newlines(line@),
            r.column == 0,
    {
        let relative_path = match relative {
            Some(rel) => rel,
            None => path.to_owned(),
        };
        GrepItem {
            path: path.to_owned(),
            relative_path,
            line_number,
            line_content: Self::trim_trailing_newlines(line),
            column: 0,
        }
    }

    /// Adds the lines found in one file to those gathered so far.
    pub fn collect_file_hits(results: &mut Vec<GrepItem>, file_hits: Vec<GrepItem>)
        ensures
            final(results)@ == old(results)@ + file_hits@,
    {
        let mut file_hits = file_hits;
        results.append(&mut file_hits);
    }

    /// The lines gathered by the walk, cut to at most `max_results`.
    pub fn finish_search(results: Vec<GrepItem>, max_results: usize) -> (r: Vec<GrepItem>)
        ensures
            r@ == results@.take(min_len(results@.len() as int, max_results as int)),
            r@.len() <= max_results,
    {
        let mut results = results;
        results.truncate(max_results);
        results
    }

    /// How many typos the fuzzy matcher tolerates for `query`.
    pub fn typo_budget(query: &str) -> (r: u16)
        ensures
            r == typo_budget_of(query.len() as nat),
    {
        let quarter = query.len() / 4;
        if quarter < 2 {
            2
        } else if quarter > 6 {
            6
        } else {
            quarter as u16
        }
    }

    /// Re-ranks the outcome of the literal search for `fuzzy_query`: an error
    /// passes through; no lines give an empty result; a query shorter than
    /// two bytes keeps the first `max_results` lines in their order with
    /// neutral scores; otherwise the lines are fuzzy-scored and ranked.
    pub fn fuzzy_grep_search(
        &self,
        fuzzy_query: &str,
        grep_outcome: Result<Vec<GrepItem>, SearchError>,
        max_results: usize,
        max_threads: usize,
    ) -> (r: Result<GrepSearchResult, SearchError>)
        requires
            grep_outcome is Ok && fuzzy_query.len() >= 2 ==> grep_outcome->Ok_0@.len()
                <= u32::MAX,
        ensures
            grep_outcome is Err ==> r is Err && r->Err_0 == grep_outcome->Err_0,
            grep_outcome is Ok ==> r is Ok,
            grep_outcome is Ok ==> r->Ok_0.total_grepped == grep_outcome->Ok_0@.len(),
            grep_outcome is Ok ==> r->Ok_0.total_matched <= r->Ok_0.total_grepped,
            grep_outcome is Ok && grep_outcome->Ok_0@.len() == 0 ==> r->Ok_0.items@.len() == 0
                && r->Ok_0.scores@.len() == 0 && r->Ok_0.total_matched == 0,
            grep_outcome is Ok && grep_outcome->Ok_0@.len() > 0 && fuzzy_query.len() < 2 ==> ({
                let n = min_len(grep_outcome->Ok_0@.len() as int, max_results as int);
                &&& views(r->Ok_0.items@) == views(grep_outcome->Ok_0@).take(n)
                &&& r->Ok_0.scores@ == Seq::new(n as nat, |i: int| neutral_score())
                &&& r->Ok_0.total_matched == n
            }),
            grep_outcome is Ok && grep_outcome->Ok_0@.len() > 0 && fuzzy_query.len() >= 2 ==> exists|
                hits: Seq<FuzzyHit>,
                line_hits: Seq<FuzzyHit>,
            |
                #![trigger ranked(views(grep_outcome->Ok_0@), hits, line_hits, max_results, views(r->Ok_0.items@), r->Ok_0.scores@)]
                {
                    &&& matcher_output(
                        grep_outcome->Ok_0@,
                        fuzzy_query@,
                        typo_budget_of(fuzzy_query.len() as nat),
                        hits,
                        line_hits,
                    )
                    &&& r->Ok_0.total_matched == hits.len()
                    &&& ranked(
                        views(grep_outcome->Ok_0@),
                        hits,
                        line_hits,
                        max_results,
                        views(r->Ok_0.items@),
                        r->Ok_0.scores@,
                    )
                },
    {
        let ghost outcome = grep_outcome;
        let lines = match grep_outcome {
            Err(e) => return Err(e),
            Ok(lines) => lines,
        };
        assert(outcome->Ok_0@ == lines@);
        let total_grepped = lines.len();
        if total_grepped == 0 {
            return Ok(GrepSearchResult { items: Vec::new(), scores: Vec::new(), total_matched: 0, total_grepped: 0 });
        }
        if fuzzy_query.len() < 2 {
            let count = if total_grepped < max_results { total_grepped } else { max_results };
            let ghost all = lines@;
            let mut items = lines;
            items.truncate(count);
            assert(views(items@) =~= views(all).take(count as int));
            let mut scores: Vec<Score> = Vec::new();
            let mut i: usize = 0;
            while i < count
                invariant
                    i <= count,
                    scores@ == Seq::new(i as nat, |k: int| neutral_score()),
                decreases count - i,
            {
                scores.push(Score::default());
                i = i + 1;
                assert(scores@ =~= Seq::new(i as nat, |k: int| neutral_score()));
            }
            return Ok(GrepSearchResult { items, scores, total_matched: count, total_grepped });
        }
        let context = GrepScoringContext {
            query: fuzzy_query,
            max_results,
            max_typos: Self::typo_budget(fuzzy_query),
            max_threads,
        };
        let (items, scores, total_matched) = match_and_score_grep_items(&lines, &context);
        assert(total_matched <= total_grepped);
        let ghost (wh, wlh) = choose|hits: Seq<FuzzyHit>, line_hits: Seq<FuzzyHit>|
            {
                &&& matcher_output(lines@, fuzzy_query@, context.max_typos, hits, line_hits)
                &&& total_matched == hits.len()
                &&& ranked(views(lines@), hits, line_hits, max_results, views(items@), scores@)
            };
        let res = GrepSearchResult { items, scores, total_matched, total_grepped };
        assert(ranked(views(outcome->Ok_0@), wh, wlh, max_results, views(res.items@), res.scores@));
        Ok(res)
    }

    fn push_escaped(out: &mut String, c: char)
        ensures
            final(out)@ == old(out)@ + escape_char(c),
    {
        if c == '\\' || c == '.' || c == '+' || c == '*' || c == '?' || c == '(' || c == ')'
            || c == '|' || c == '[' || c == ']' || c == '{' || c == '}' || c == '^' || c == '$' {
            push_char(out, '\\');
        }
        push_char(out, c);
        assert(final(out)@ =~= old(out)@ + escape_char(c));
    }

    /// Escapes the regular-expression metacharacters of `s`.
    pub fn escape_regex(s: &str) -> (r: String)
        ensures
            r@ == escaped(s@),
    {
        let n = s.unicode_len();
        let mut out = String::new();
        let mut i: usize = 0;
        while i < n
            invariant
                n == s@.len(),
                i <= n,
                out@ == escaped(s@.subrange(0, i as int)),
            decreases n - i,
        {
            let c = s.get_char(i);
            Self::push_escaped(&mut out, c);
            assert(s@.subrange(0, i + 1).drop_last() =~= s@.subrange(0, i as int));
            i = i + 1;
        }
        assert(s@.subrange(0, n as int) =~= s@);
        out
    }

    /// Turns a query into a pattern that tolerates one substituted character
    /// at each interior position.
    pub fn fuzzy_query_to_regex(query: &str) -> (r: String)
        ensures
            r@ == fuzzy_pattern(query@),
    {
        let n = query.unicode_len();
        if n <= 2 {
            return Self::escape_regex(query);
        }
        let mut out = String::new();
        Self::push_escaped(&mut out, query.get_char(0));
        assert(query@.subrange(1, 1) =~= Seq::<char>::empty());
        let mut i: usize = 1;
        while i < n - 1
            invariant
                n == query@.len(),
                n > 2,
                1 <= i <= n - 1,
                out@ == escape_char(query@[0]) + wildcards(query@.subrange(1, i as int)),
            decreases n - i,
        {
            let c = query.get_char(i);
            push_char(&mut out, '(');
            Self::push_escaped(&mut out, c);
            push_char(&mut out, '|');
            push_char(&mut out, '.');
            push_char(&mut out, ')');
            assert(query@.subrange(1, i + 1).drop_last() =~= query@.subrange(1, i as int));
            assert(out@ =~= escape_char(query@[0]) + wildcards(query@.subrange(1, i + 1)));
            i = i + 1;
        }
        Self::push_escaped(&mut out, query.get_char(n - 1));
        out
    }
}

} // verus!
