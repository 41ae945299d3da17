//! The record produced for one matched line of the external tool's output.

use vstd::prelude::*;

verus! {

/// One match reported by the external tool: where it was found, the full
/// matched line, and the search pattern that produced it.
///
/// `line` and `column` are 1-based; `0` stands for a segment that was not a
/// readable number. `match_text` carries the request's pattern verbatim, not
/// the substring that actually matched.
#[derive(Debug, Clone, PartialEq, Eq)]
pub struct SearchResult {
    pub file: String,
    pub line: u32,
    pub column: u32,
    pub content: String,
    pub match_text: String,
}

/// The mathematical shape of a [`SearchResult`]: its strings as character
/// sequences.
pub ghost struct SearchResultView {
    pub file: Seq<char>,
    pub line: u32,
    pub column: u32,
    pub content: Seq<char>,
    pub match_text: Seq<char>,
}

impl View for SearchResult {
    type V = SearchResultView;

    open spec fn view(&self) -> SearchResultView {
        SearchResultView {
            file: self.file@,
            line: self.line,
            column: self.column,
            content: self.content@,
            match_text: self.match_text@,
        }
    }
}

impl DeepView for SearchResult {
    type V = SearchResultView;

    open spec fn deep_view(&self) -> SearchResultView {
        self.view()
    }
}

} // verus!
