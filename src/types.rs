use vstd::prelude::*;

verus! {

/// One line of one file that satisfied the search pattern.
#[derive(Clone, Debug)]
pub struct GrepItem {
    pub path: String,
    pub relative_path: String,
    /// 1-based line number.
    pub line_number: usize,
    /// The line's text without its trailing newline.
    pub line_content: String,
    /// Always 0: no per-match column is computed.
    pub column: usize,
}

/// What a `GrepItem` holds, as mathematical values.
pub struct GrepItemView {
    pub path: Seq<char>,
    pub relative_path: Seq<char>,
    pub line_number: usize,
    pub line_content: Seq<char>,
    pub column: usize,
}

impl View for GrepItem {
    type V = GrepItemView;

    open spec fn view(&self) -> GrepItemView {
        GrepItemView {
            path: self.path@,
            relative_path: self.relative_path@,
            line_number: self.line_number,
            line_content: self.line_content@,
            column: self.column,
        }
    }
}

impl GrepItem {
    /// A copy whose contents are known to equal the original's.
    pub fn duplicate(&self) -> (r: GrepItem)
        ensures
            r@ == self@,
    {
        GrepItem {
            path: self.path.clone(),
            relative_path: self.relative_path.clone(),
            line_number: self.line_number,
            line_content: self.line_content.clone(),
            column: self.column,
        }
    }
}

/// Where a score comes from.
#[derive(Clone, Copy, Debug, PartialEq, Eq, Structural)]
pub enum MatchKind {
    /// No ranking was applied.
    Unranked,
    /// Ranked by the content search.
    Grep,
}

/// The ranking record attached to a `GrepItem`.
#[derive(Clone, Copy, Debug, PartialEq, Eq, Structural)]
pub struct Score {
    pub total: i32,
    pub base_score: i32,
    /// Bonus for a line that matches better on its own than with its path.
    pub filename_bonus: i32,
    /// Bonus for the file's category.
    pub special_filename_bonus: i32,
    /// Bonus for a match near the start of the line.
    pub frecency_boost: i32,
    pub distance_penalty: i32,
    pub current_file_penalty: i32,
    pub exact_match: bool,
    pub match_type: MatchKind,
}

/// The neutral score: every field zero, not exact, unranked.
pub open spec fn neutral_score() -> Score {
    Score {
        total: 0,
        base_score: 0,
        filename_bonus: 0,
        special_filename_bonus: 0,
        frecency_boost: 0,
        distance_penalty: 0,
        current_file_penalty: 0,
        exact_match: false,
        match_type: MatchKind::Unranked,
    }
}

impl Default for Score {
    fn default() -> (r: Score)
        ensures
            r == neutral_score(),
    {
        Score {
            total: 0,
            base_score: 0,
            filename_bonus: 0,
            special_filename_bonus: 0,
            frecency_boost: 0,
            distance_penalty: 0,
            current_file_penalty: 0,
            exact_match: false,
            match_type: MatchKind::Unranked,
        }
    }
}

/// The result of a search: items and scores are index-aligned.
pub struct GrepSearchResult {
    pub items: Vec<GrepItem>,
    pub scores: Vec<Score>,
    /// Candidates that passed fuzzy filtering.
    pub total_matched: usize,
    /// Raw lines found by the literal search.
    pub total_grepped: usize,
}

/// One candidate that the fuzzy matcher kept.
#[derive(Clone, Copy, Debug, PartialEq, Eq, Structural)]
pub struct FuzzyHit {
    /// Index of the candidate in the list that was matched.
    pub index: usize,
    pub score: u16,
    pub exact: bool,
}

/// Why a search failed.
#[derive(Clone, Debug)]
pub enum SearchError {
    /// The search root does not exist.
    InvalidPath(String),
    /// The pattern could not be compiled; holds the engine's message.
    GrepError(String),
}

} // verus!
