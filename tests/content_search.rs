use fff_grep::content_searcher::ContentSearcher;
use fff_grep::grep_score::{get_file_type_bonus, match_and_score_grep_items, rank_hits, score_candidate, GrepScoringContext};
use fff_grep::text::{contains_upper, str_contains, str_ends_with};
use fff_grep::types::{FuzzyHit, GrepItem, MatchKind, Score, SearchError};

fn item(rel: &str, line_number: usize, line: &str) -> GrepItem {
    GrepItem {
        path: format!("/root/{}", rel),
        relative_path: rel.to_string(),
        line_number,
        line_content: line.to_string(),
        column: 0,
    }
}

fn searcher() -> ContentSearcher {
    match ContentSearcher::new("/root".to_string(), true) {
        Ok(s) => s,
        Err(_) => panic!("an existing root is accepted"),
    }
}

#[test]
fn new_rejects_missing_root() {
    match ContentSearcher::new("/no/such/dir".to_string(), false) {
        Err(SearchError::InvalidPath(p)) => assert_eq!(p, "/no/such/dir"),
        _ => panic!("a missing root is refused"),
    }
    assert_eq!(searcher().base_path, "/root");
}

#[test]
fn short_queries_stay_literal() {
    assert_eq!(ContentSearcher::fuzzy_query_to_regex("x"), "x");
    assert_eq!(ContentSearcher::fuzzy_query_to_regex("ab"), "ab");
    assert_eq!(ContentSearcher::fuzzy_query_to_regex("a."), "a\\.");
    assert_eq!(ContentSearcher::fuzzy_query_to_regex(""), "");
    assert_eq!(ContentSearcher::fuzzy_query_to_regex("$"), "\\$");
}

#[test]
fn long_queries_tolerate_interior_typos() {
    assert_eq!(ContentSearcher::fuzzy_query_to_regex("funk"), "f(u|.)(n|.)k");
    assert_eq!(ContentSearcher::fuzzy_query_to_regex("abc"), "a(b|.)c");
    assert_eq!(ContentSearcher::fuzzy_query_to_regex(".a*"), "\\.(a|.)\\*");
    assert_eq!(ContentSearcher::fuzzy_query_to_regex("a+b"), "a(\\+|.)b");
}

#[test]
fn escape_covers_all_metacharacters() {
    assert_eq!(
        ContentSearcher::escape_regex("\\.+*?()|[]{}^$"),
        "\\\\\\.\\+\\*\\?\\(\\)\\|\\[\\]\\{\\}\\^\\$"
    );
    assert_eq!(ContentSearcher::escape_regex("plain-text_1"), "plain-text_1");
}

#[test]
fn compile_pattern_reports_bad_patterns() {
    assert!(ContentSearcher::compile_pattern("f(u|.)nk").is_ok());
    match ContentSearcher::compile_pattern("f(u") {
        Err(SearchError::GrepError(msg)) => assert!(!msg.is_empty()),
        _ => panic!("an unbalanced group is refused"),
    }
}

#[test]
fn grep_budget_doubles() {
    assert_eq!(ContentSearcher::grep_budget(10), 20);
    assert_eq!(ContentSearcher::grep_budget(0), 0);
    assert_eq!(ContentSearcher::grep_budget(usize::MAX), usize::MAX);
}

#[test]
fn walk_quits_at_the_cap() {
    assert!(!ContentSearcher::walk_should_quit(3, 4));
    assert!(ContentSearcher::walk_should_quit(4, 4));
    assert!(ContentSearcher::walk_should_quit(0, 0));
}

#[test]
fn trailing_newlines_are_trimmed() {
    assert_eq!(ContentSearcher::trim_trailing_newlines("let a = 1;\n"), "let a = 1;");
    assert_eq!(ContentSearcher::trim_trailing_newlines("x\n\n"), "x");
    assert_eq!(ContentSearcher::trim_trailing_newlines("\nx"), "\nx");
    assert_eq!(ContentSearcher::trim_trailing_newlines(""), "");
}

#[test]
fn line_item_is_relative_to_root() {
    let s = searcher();
    let it = s.line_item("/root/src/a.rs", 7, "fn main() {}\n");
    assert_eq!(it.path, "/root/src/a.rs");
    assert_eq!(it.relative_path, "src/a.rs");
    assert_eq!(it.line_number, 7);
    assert_eq!(it.line_content, "fn main() {}");
    assert_eq!(it.column, 0);
}

#[test]
fn search_results_are_cut_to_the_cap() {
    let mut acc = Vec::new();
    ContentSearcher::collect_file_hits(&mut acc, vec![item("a.rs", 1, "a"), item("a.rs", 2, "b")]);
    ContentSearcher::collect_file_hits(&mut acc, vec![item("b.rs", 1, "c")]);
    assert_eq!(acc.len(), 3);
    assert_eq!(acc[2].line_content, "c");
    let cut = ContentSearcher::finish_search(acc.clone(), 2);
    assert_eq!(cut.len(), 2);
    assert_eq!(cut[0].line_content, "a");
    assert_eq!(cut[1].line_content, "b");
    assert_eq!(ContentSearcher::finish_search(acc.clone(), 10).len(), 3);
    assert_eq!(ContentSearcher::finish_search(acc, 0).len(), 0);
}

#[test]
fn typo_budget_is_clamped() {
    assert_eq!(ContentSearcher::typo_budget("ab"), 2);
    assert_eq!(ContentSearcher::typo_budget("abcdefghijkl"), 3);
    assert_eq!(ContentSearcher::typo_budget(&"a".repeat(100)), 6);
}

#[test]
fn file_type_bonus_by_kind() {
    assert_eq!(get_file_type_bonus("src/main.rs"), 5);
    assert_eq!(get_file_type_bonus("tests/test_main.rs"), 5);
    assert_eq!(get_file_type_bonus("tests/test_data.txt"), 2);
    assert_eq!(get_file_type_bonus("docs/api_spec.txt"), 2);
    assert_eq!(get_file_type_bonus("Cargo.toml"), 1);
    assert_eq!(get_file_type_bonus("config.yml"), 1);
    assert_eq!(get_file_type_bonus("README.md"), 0);
    assert_eq!(get_file_type_bonus("Test.md"), 0);
}

#[test]
fn string_helpers() {
    assert!(str_ends_with("a.rs", ".rs"));
    assert!(!str_ends_with("rs", ".rs"));
    assert!(str_contains("my_test_file", "test"));
    assert!(!str_contains("tes", "test"));
    assert!(contains_upper("fooBar"));
    assert!(!contains_upper("foobar"));
}

#[test]
fn candidate_score_adds_bonuses() {
    let it = item("src/a.rs", 1, "fn a() {}");
    let hit = FuzzyHit { index: 0, score: 40, exact: true };
    let s = score_candidate(&it, hit, Some(60));
    assert_eq!(s.base_score, 40);
    assert_eq!(s.filename_bonus, 5);
    assert_eq!(s.frecency_boost, 5);
    assert_eq!(s.special_filename_bonus, 5);
    assert_eq!(s.total, 55);
    assert_eq!(s.distance_penalty, 0);
    assert_eq!(s.current_file_penalty, 0);
    assert!(s.exact_match);
    assert_eq!(s.match_type, MatchKind::Grep);
    let lower = score_candidate(&it, hit, Some(30));
    assert_eq!(lower.filename_bonus, 0);
    assert_eq!(lower.total, 50);
    let far = GrepItem { column: 20, ..item("notes.txt", 1, "x") };
    assert_eq!(score_candidate(&far, hit, None).total, 42);
    let farther = GrepItem { column: 30, ..item("notes.txt", 1, "x") };
    assert_eq!(score_candidate(&farther, hit, None).total, 40);
}

#[test]
fn rank_hits_orders_by_total() {
    let items = vec![item("a.txt", 1, "one"), item("b.rs", 2, "two"), item("c.toml", 3, "three")];
    let hits = vec![
        FuzzyHit { index: 0, score: 10, exact: false },
        FuzzyHit { index: 1, score: 10, exact: false },
        FuzzyHit { index: 2, score: 30, exact: true },
    ];
    let line_hits = vec![FuzzyHit { index: 0, score: 50, exact: false }];
    let (out, scores, total) = rank_hits(&items, &hits, &line_hits, 10);
    assert_eq!(total, 3);
    assert_eq!(out.len(), 3);
    assert_eq!(out[0].relative_path, "c.toml");
    assert_eq!(scores[0].total, 36);
    assert_eq!(out[1].relative_path, "a.txt");
    assert_eq!(scores[1].total, 25);
    assert_eq!(out[2].relative_path, "b.rs");
    assert_eq!(scores[2].total, 20);
    let (top, top_scores, total) = rank_hits(&items, &hits, &line_hits, 1);
    assert_eq!(total, 3);
    assert_eq!(top.len(), 1);
    assert_eq!(top_scores.len(), 1);
    assert_eq!(top[0].relative_path, "c.toml");
}

#[test]
fn rank_hits_empty() {
    let items = vec![item("a.txt", 1, "one")];
    let (out, scores, total) = rank_hits(&items, &Vec::new(), &Vec::new(), 5);
    assert_eq!((out.len(), scores.len(), total), (0, 0, 0));
}

#[test]
fn scoring_empty_input() {
    let ctx = GrepScoringContext { query: "abc", max_results: 5, max_typos: 2, max_threads: 1 };
    let (out, scores, total) = match_and_score_grep_items(&Vec::new(), &ctx);
    assert_eq!((out.len(), scores.len(), total), (0, 0, 0));
}

#[test]
fn lowercase_views_are_matched() {
    let items = vec![item("src/Main.rs", 1, "FN FUNCTION_ONE() {}")];
    let ctx = GrepScoringContext { query: "function", max_results: 5, max_typos: 2, max_threads: 1 };
    let (out, scores, total) = match_and_score_grep_items(&items, &ctx);
    assert_eq!(total, 1);
    assert_eq!(out.len(), 1);
    assert!(scores[0].base_score > 0);
}

#[test]
fn source_file_ranks_above_config() {
    let s = searcher();
    let lines = vec![item("b.toml", 1, "function = true"), item("a.rs", 1, "fn function_one() {}")];
    let res = match s.fuzzy_grep_search("funk", Ok(lines), 10, 1) {
        Ok(r) => r,
        Err(_) => panic!("search succeeds"),
    };
    assert_eq!(res.total_grepped, 2);
    assert_eq!(res.total_matched, 2);
    assert_eq!(res.items.len(), 2);
    assert_eq!(res.items[0].relative_path, "a.rs");
    assert_eq!(res.items[1].relative_path, "b.toml");
    assert!(!res.scores[0].exact_match);
    assert!(!res.scores[1].exact_match);
    assert!(res.scores[0].total > res.scores[1].total);
}

#[test]
fn empty_query_keeps_raw_order() {
    let s = searcher();
    let lines = vec![item("a.rs", 1, "// TODO one"), item("b.rs", 4, "// TODO two"), item("c.rs", 9, "// TODO three")];
    let res = match s.fuzzy_grep_search("", Ok(lines), 2, 1) {
        Ok(r) => r,
        Err(_) => panic!("search succeeds"),
    };
    assert_eq!(res.items.len(), 2);
    assert_eq!(res.items[0].line_content, "// TODO one");
    assert_eq!(res.items[1].line_content, "// TODO two");
    assert_eq!(res.scores.len(), 2);
    assert!(res.scores.iter().all(|sc| *sc == Score::default() && sc.total == 0));
    assert_eq!(res.total_matched, 2);
    assert_eq!(res.total_grepped, 3);
}

#[test]
fn one_character_query_is_not_ranked() {
    let s = searcher();
    let res = match s.fuzzy_grep_search("x", Ok(vec![item("a.rs", 1, "x")]), 5, 1) {
        Ok(r) => r,
        Err(_) => panic!("search succeeds"),
    };
    assert_eq!(res.items.len(), 1);
    assert_eq!(res.scores[0], Score::default());
    assert_eq!(res.scores[0].match_type, MatchKind::Unranked);
}

#[test]
fn zero_cap_returns_nothing() {
    let s = searcher();
    let lines = vec![item("a.rs", 1, "fn function_one() {}")];
    let res = match s.fuzzy_grep_search("funk", Ok(lines.clone()), 0, 1) {
        Ok(r) => r,
        Err(_) => panic!("search succeeds"),
    };
    assert_eq!(res.items.len(), 0);
    assert_eq!(res.scores.len(), 0);
    assert_eq!(res.total_grepped, 1);
    assert!(res.total_matched <= res.total_grepped);
    let plain = match s.fuzzy_grep_search("", Ok(lines), 0, 1) {
        Ok(r) => r,
        Err(_) => panic!("search succeeds"),
    };
    assert_eq!(plain.items.len(), 0);
    assert_eq!(plain.total_matched, 0);
    assert_eq!(plain.total_grepped, 1);
}

#[test]
fn no_raw_lines_gives_empty_result() {
    let s = searcher();
    let res = match s.fuzzy_grep_search("funk", Ok(Vec::new()), 10, 1) {
        Ok(r) => r,
        Err(_) => panic!("search succeeds"),
    };
    assert_eq!((res.items.len(), res.scores.len(), res.total_matched, res.total_grepped), (0, 0, 0, 0));
}

#[test]
fn search_error_passes_through() {
    let s = searcher();
    match s.fuzzy_grep_search("funk", Err(SearchError::GrepError("bad".to_string())), 10, 1) {
        Err(SearchError::GrepError(m)) => assert_eq!(m, "bad"),
        _ => panic!("the error is returned"),
    }
}

#[test]
fn repeated_ranking_agrees() {
    let s = searcher();
    let lines = vec![item("b.toml", 1, "function = true"), item("a.rs", 1, "fn function_one() {}"), item("c.md", 2, "fun stuff")];
    let first = match s.fuzzy_grep_search("func", Ok(lines.clone()), 10, 2) {
        Ok(r) => r,
        Err(_) => panic!("search succeeds"),
    };
    let second = match s.fuzzy_grep_search("func", Ok(lines), 10, 2) {
        Ok(r) => r,
        Err(_) => panic!("search succeeds"),
    };
    let totals = |r: &fff_grep::types::GrepSearchResult| r.scores.iter().map(|sc| sc.total).collect::<Vec<_>>();
    assert_eq!(totals(&first), totals(&second));
    assert_eq!(first.total_matched, second.total_matched);
}

#[test]
fn typo_budget_counts_bytes() {
    assert_eq!(ContentSearcher::typo_budget("éééééé"), 3);
    assert_eq!(ContentSearcher::typo_budget(&"é".repeat(12)), 6);
}

#[test]
fn two_byte_query_is_ranked() {
    let s = searcher();
    let res = match s.fuzzy_grep_search("é", Ok(vec![item("a.rs", 1, "café")]), 5, 1) {
        Ok(r) => r,
        Err(_) => panic!("search succeeds"),
    };
    assert_eq!(res.total_grepped, 1);
    assert!(res.total_matched <= 1);
    assert!(res.scores.iter().all(|sc| sc.match_type == MatchKind::Grep));
}

#[test]
fn upper_case_query_still_matches_lowered_views() {
    let items = vec![item("src/a.rs", 1, "fn function_one() {}")];
    let ctx = GrepScoringContext { query: "Function", max_results: 5, max_typos: 2, max_threads: 1 };
    let (out, _scores, total) = match_and_score_grep_items(&items, &ctx);
    assert_eq!(total, 1);
    assert_eq!(out.len(), 1);
}

#[test]
fn make_item_uses_relative_path_when_given() {
    let with = ContentSearcher::make_item("/root/a.rs", Some("a.rs".to_string()), 3, "x\n");
    assert_eq!(with.relative_path, "a.rs");
    assert_eq!(with.line_content, "x");
    let without = ContentSearcher::make_item("/elsewhere/a.rs", None, 3, "x");
    assert_eq!(without.relative_path, "/elsewhere/a.rs");
    assert_eq!(without.path, "/elsewhere/a.rs");
}
