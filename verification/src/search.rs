//! Search functionality for terminal content
//!
//! Scans rendered grid rows for a pattern and tracks the matches and the
//! current position among them. The pattern matching itself is done by the
//! regex crate behind trusted declarations; the bookkeeping around it is
//! verified.

use vstd::prelude::*;

use core::ops::Range;

verus! {

/// The regex crate's compiled pattern type, opaque to the verifier.
#[verifier::external_type_specification]
#[verifier::external_body]
pub struct ExRegex(regex::Regex);

/// The regex crate's compile-error type, opaque to the verifier.
#[verifier::external_type_specification]
#[verifier::external_body]
pub struct ExRegexError(regex::Error);

/// Whether the case-insensitive search pattern built from this query
/// compiles: a property of the query text alone.
pub uninterp spec fn regex_ok(query: Seq<char>) -> bool;

/// Relies on `regex::Regex::new`: compiles the query as a case-insensitive
/// pattern. Success depends on the query text alone, named by [`regex_ok`].
#[verifier::external_body]
fn compile_search_regex(query: &str) -> (r: Result<regex::Regex, regex::Error>)
    ensures
        (r is Ok) == regex_ok(query@),
{
    regex::Regex::new(&format!("(?i){}", query))
}

/// The byte spans the case-insensitive search built from `query` matches in
/// `text`: a function of the two texts alone.
pub uninterp spec fn spec_search_spans(query: Seq<char>, text: Seq<char>) -> Seq<(usize, usize)>;

/// Relies on `regex::Regex::new`, `Regex::find_iter` and
/// `regex::Match::start`/`end`: compiles the case-insensitive pattern from
/// `query` and returns the byte spans of its successive non-overlapping
/// matches in `text`, in order of position, each with start at or before
/// end — named by [`spec_search_spans`]. A query that does not compile
/// yields no spans.
#[verifier::external_body]
fn search_spans(query: &str, text: &str) -> (r: Vec<(usize, usize)>)
    ensures
        regex_ok(query@) ==> r@ == spec_search_spans(query@, text@),
        !regex_ok(query@) ==> r@ == Seq::<(usize, usize)>::empty(),
        forall|i: int| 0 <= i < r@.len() ==> (#[trigger] r@[i]).0 <= r@[i].1,
        forall|i: int| 0 <= i < r@.len() - 1 ==> (#[trigger] r@[i]).1 <= r@[i + 1].0,
{
    match regex::Regex::new(&format!("(?i){}", query)) {
        Ok(re) => re.find_iter(text).map(|m| (m.start(), m.end())).collect(),
        Err(_) => Vec::new(),
    }
}

/// Relies on the derived `Clone` of `core::ops::Range`, which clones the
/// two endpoints; nothing is assumed of the result.
pub assume_specification<Idx: Clone>[ <core::ops::Range<Idx> as Clone>::clone ](
    r: &core::ops::Range<Idx>,
) -> core::ops::Range<Idx>
;

/// Represents a search match in the terminal
#[derive(Debug, Clone, PartialEq, Eq)]
pub struct SearchMatch {
    /// Row index (in scrollback+grid space)
    pub row: usize,
    /// Column range of the match
    pub cols: Range<usize>,
}

/// A match span is never inverted.
pub open spec fn match_wf(m: SearchMatch) -> bool {
    m.cols.start <= m.cols.end
}

/// The matches of the first `upto` lines, flattened in order: each line's
/// spans under the query, tagged with the line's row.
pub open spec fn all_line_matches(
    query: Seq<char>,
    lines: Seq<(usize, String)>,
    upto: int,
) -> Seq<(usize, usize, usize)>
    decreases upto,
{
    if upto <= 0 {
        Seq::empty()
    } else {
        all_line_matches(query, lines, upto - 1) + spec_search_spans(
            query,
            lines[upto - 1].1@,
        ).map_values(|sp: (usize, usize)| (lines[upto - 1].0, sp.0, sp.1))
    }
}

/// Search state for the terminal
pub struct SearchState {
    /// Current search pattern (as regex)
    pattern: Option<regex::Regex>,
    /// All matches found
    matches: Vec<SearchMatch>,
    /// Index of currently selected match
    current_match_index: Option<usize>,
    /// Whether search mode is active
    pub active: bool,
    /// Search query string
    pub query: String,
}

impl SearchState {
    /// The matches found so far, in scan order.
    pub closed spec fn matches_view(&self) -> Seq<SearchMatch> {
        self.matches@
    }

    /// The position of the selected match among [`Self::matches_view`].
    pub closed spec fn cur_index(&self) -> Option<usize> {
        self.current_match_index
    }

    /// Whether a compiled pattern is held.
    pub closed spec fn has_pattern(&self) -> bool {
        self.pattern is Some
    }

    /// Whether search mode is active.
    pub closed spec fn is_active(&self) -> bool {
        self.active
    }

    /// The current query text.
    pub closed spec fn query_view(&self) -> Seq<char> {
        self.query@
    }

    /// The selected index stays within the matches, spans are never
    /// inverted, and a held pattern was compiled from the stored query.
    pub closed spec fn wf(&self) -> bool {
        &&& (self.current_match_index matches Some(i) ==> i < self.matches@.len())
        &&& forall|i: int| 0 <= i < self.matches@.len() ==> match_wf(#[trigger] self.matches@[i])
        &&& (self.pattern is Some ==> regex_ok(self.query@))
    }

    /// Create a new search state
    pub fn new() -> (r: Self)
        ensures
            r.wf(),
            !r.has_pattern(),
            r.matches_view() == Seq::<SearchMatch>::empty(),
            r.cur_index() is None,
            !r.is_active(),
            r.query_view() == Seq::<char>::empty(),
    {
        let r = SearchState {
            pattern: None,
            matches: Vec::new(),
            current_match_index: None,
            active: false,
            query: String::new(),
        };
        proof {
            assert(r.matches_view() =~= Seq::<SearchMatch>::empty());
        }
        r
    }

    /// Clear the search
    pub fn clear(&mut self)
        ensures
            final(self).wf(),
            !final(self).has_pattern(),
            final(self).matches_view() == Seq::<SearchMatch>::empty(),
            final(self).cur_index() is None,
            !final(self).is_active(),
            final(self).query_view() == Seq::<char>::empty(),
    {
        self.pattern = None;
        self.matches.clear();
        self.current_match_index = None;
        self.active = false;
        self.query = String::new();
        proof {
            assert(final(self).matches_view() =~= Seq::<SearchMatch>::empty());
        }
    }

    /// Update the search pattern (case-insensitive). An empty query clears
    /// the search; a query that does not compile leaves the state unchanged
    /// and reports the error.
    pub fn set_pattern(&mut self, query: &str) -> (r: Result<(), regex::Error>)
        requires
            old(self).wf(),
        ensures
            final(self).wf(),
            query@.len() == 0 ==> r is Ok && !final(self).has_pattern()
                && final(self).matches_view() == Seq::<SearchMatch>::empty()
                && final(self).cur_index() is None,
            query@.len() > 0 ==> (r is Ok) == regex_ok(query@),
            query@.len() > 0 && regex_ok(query@) ==> {
                &&& final(self).has_pattern()
                &&& final(self).query_view() == query@
                &&& final(self).matches_view() == Seq::<SearchMatch>::empty()
                &&& final(self).cur_index() is None
                &&& final(self).is_active() == old(self).is_active()
            },
            query@.len() > 0 && !regex_ok(query@) ==> *final(self) == *old(self),
    {
        if query.unicode_len() == 0 {
            self.clear();
            return Ok(());
        }
        // Build regex pattern (case-insensitive by default)
        let compiled = compile_search_regex(query);
        match compiled {
            Ok(pattern) => {
                self.pattern = Some(pattern);
                self.query = query.to_owned();
                self.matches.clear();
                self.current_match_index = None;
                proof {
                    assert(final(self).matches_view() =~= Seq::<SearchMatch>::empty());
                }
                Ok(())
            },
            Err(e) => Err(e),
        }
    }

    /// Find all matches in the given text lines; the first match (if any)
    /// becomes current. Each line contributes the spans of the stored query
    /// on its text, in order of position, rows in the order given.
    pub fn find_matches(&mut self, lines: &Vec<(usize, String)>)
        requires
            old(self).wf(),
        ensures
            final(self).wf(),
            final(self).has_pattern() == old(self).has_pattern(),
            final(self).is_active() == old(self).is_active(),
            final(self).query_view() == old(self).query_view(),
            final(self).matches_view().len() == 0 ==> final(self).cur_index() is None,
            final(self).matches_view().len() > 0 ==> final(self).cur_index() == Some(0usize),
            !old(self).has_pattern() ==> final(self).matches_view() == Seq::<SearchMatch>::empty(),
            old(self).has_pattern() ==> final(self).matches_view().map_values(
                |m: SearchMatch| (m.row, m.cols.start, m.cols.end),
            ) == all_line_matches(old(self).query_view(), lines@, lines@.len() as int),
    {
        self.matches.clear();
        let has = match &self.pattern {
            Some(_) => true,
            None => false,
        };
        if has {
            let ghost q = self.query@;
            let n = lines.len();
            let mut i: usize = 0;
            proof {
                assert(self.matches@.map_values(|m: SearchMatch| (m.row, m.cols.start, m.cols.end))
                    =~= all_line_matches(q, lines@, 0));
            }
            while i < n
                invariant
                    i <= n == lines@.len(),
                    self.pattern is Some,
                    self.query@ == q,
                    regex_ok(q),
                    self.is_active() == old(self).is_active(),
                    forall|k: int|
                        0 <= k < self.matches@.len() ==> match_wf(#[trigger] self.matches@[k]),
                    self.matches@.map_values(|m: SearchMatch| (m.row, m.cols.start, m.cols.end))
                        == all_line_matches(q, lines@, i as int),
                decreases n - i,
            {
                let row = lines[i].0;
                let spans = search_spans(self.query.as_str(), lines[i].1.as_str());
                let m = spans.len();
                let mut j: usize = 0;
                proof {
                    assert(self.matches@.map_values(
                        |m: SearchMatch| (m.row, m.cols.start, m.cols.end),
                    ) =~= all_line_matches(q, lines@, i as int) + spans@.take(0).map_values(
                        |sp: (usize, usize)| (row, sp.0, sp.1),
                    ));
                }
                while j < m
                    invariant
                        j <= m == spans@.len(),
                        i < lines@.len(),
                        row == lines@[i as int].0,
                        spans@ == spec_search_spans(q, lines@[i as int].1@),
                        self.pattern is Some,
                        self.query@ == q,
                        regex_ok(q),
                        self.is_active() == old(self).is_active(),
                        forall|k: int|
                            0 <= k < spans@.len() ==> (#[trigger] spans@[k]).0 <= spans@[k].1,
                        forall|k: int|
                            0 <= k < self.matches@.len() ==> match_wf(#[trigger] self.matches@[k]),
                        self.matches@.map_values(|m: SearchMatch| (m.row, m.cols.start, m.cols.end))
                            == all_line_matches(q, lines@, i as int) + spans@.take(
                            j as int,
                        ).map_values(|sp: (usize, usize)| (row, sp.0, sp.1)),
                    decreases m - j,
                {
                    let ghost pre_matches = self.matches@;
                    let (a, b) = spans[j];
                    let span_range = a..b;
                    proof {
                        assert(span_range.start == a && span_range.end == b);
                    }
                    let sm = SearchMatch { row, cols: span_range };
                    self.matches.push(sm);
                    j += 1;
                    proof {
                        let f = |m: SearchMatch| (m.row, m.cols.start, m.cols.end);
                        let g = |sp: (usize, usize)| (row, sp.0, sp.1);
                        assert(self.matches@.map_values(f) =~= pre_matches.map_values(f).push(
                            (row, a, b),
                        ));
                        assert(spans@.take(j as int) =~= spans@.take(j as int - 1).push(
                            spans@[j as int - 1],
                        ));
                        assert(spans@.take(j as int).map_values(g) =~= spans@.take(
                            j as int - 1,
                        ).map_values(g).push((row, a, b)));
                        assert(self.matches@.map_values(f) =~= all_line_matches(
                            q,
                            lines@,
                            i as int,
                        ) + spans@.take(j as int).map_values(g));
                    }
                }
                i += 1;
                proof {
                    assert(spans@.take(m as int) =~= spans@);
                    assert(self.matches@.map_values(
                        |m: SearchMatch| (m.row, m.cols.start, m.cols.end),
                    ) =~= all_line_matches(q, lines@, i as int));
                }
            }
        } else {
            proof {
                assert(self.matches_view() =~= Seq::<SearchMatch>::empty());
            }
        }
        // Select first match if available
        self.current_match_index = if self.matches.len() == 0 {
            None
        } else {
            Some(0)
        };
    }

    /// Get the number of matches
    pub fn match_count(&self) -> (r: usize)
        ensures
            r == self.matches_view().len(),
    {
        self.matches.len()
    }

    /// Get the current match (1-indexed for display)
    pub fn current_match_number(&self) -> (r: Option<usize>)
        requires
            self.wf(),
        ensures
            (r is Some) == (self.cur_index() is Some),
            self.cur_index() matches Some(i) ==> r == Some((i + 1) as usize),
    {
        match self.current_match_index {
            Some(i) => {
                let n = self.matches.len();
                proof {
                    assert(i < n);
                }
                Some(i + 1)
            },
            None => None,
        }
    }

    /// Navigate to the next match, wrapping past the last back to the
    /// first.
    pub fn next_match(&mut self) -> (r: Option<&SearchMatch>)
        requires
            old(self).wf(),
        ensures
            final(self).wf(),
            final(self).matches_view() == old(self).matches_view(),
            old(self).matches_view().len() == 0 ==> r is None && final(self).cur_index() == old(self).cur_index(),
            old(self).matches_view().len() > 0 ==> {
                &&& final(self).cur_index() == Some(
                    match old(self).cur_index() {
                        Some(i) => (((i + 1) as int % old(self).matches_view().len() as int)
                            as usize),
                        None => 0usize,
                    },
                )
                &&& r == Some(&old(self).matches_view()[final(self).cur_index()->0 as int])
            },
    {
        let n = self.matches.len();
        if n == 0 {
            return None;
        }
        let next_index: usize = match self.current_match_index {
            Some(i) => {
                let t = if i + 1 < n {
                    i + 1
                } else {
                    0
                };
                proof {
                    if i + 1 < n {
                        vstd::arithmetic::div_mod::lemma_small_mod((i + 1) as nat, n as nat);
                    } else {
                        vstd::arithmetic::div_mod::lemma_mod_self_0(n as int);
                    }
                }
                t
            },
            None => 0,
        };
        self.current_match_index = Some(next_index);
        Some(&self.matches[next_index])
    }

    /// Navigate to the previous match, wrapping past the first back to the
    /// last.
    pub fn prev_match(&mut self) -> (r: Option<&SearchMatch>)
        requires
            old(self).wf(),
        ensures
            final(self).wf(),
            final(self).matches_view() == old(self).matches_view(),
            old(self).matches_view().len() == 0 ==> r is None && final(self).cur_index() == old(self).cur_index(),
            old(self).matches_view().len() > 0 ==> {
                &&& final(self).cur_index() == Some(
                    match old(self).cur_index() {
                        Some(i) => if i == 0 {
                            (old(self).matches_view().len() - 1) as usize
                        } else {
                            (i - 1) as usize
                        },
                        None => 0usize,
                    },
                )
                &&& r == Some(&old(self).matches_view()[final(self).cur_index()->0 as int])
            },
    {
        let n = self.matches.len();
        if n == 0 {
            return None;
        }
        let prev_index: usize = match self.current_match_index {
            Some(i) => {
                if i == 0 {
                    n - 1
                } else {
                    i - 1
                }
            },
            None => 0,
        };
        self.current_match_index = Some(prev_index);
        Some(&self.matches[prev_index])
    }

    /// Get the currently selected match
    pub fn current_match(&self) -> (r: Option<&SearchMatch>)
        requires
            self.wf(),
        ensures
            (r is Some) == (self.cur_index() is Some),
            self.cur_index() matches Some(i) ==> r == Some(&self.matches_view()[i as int]),
    {
        match self.current_match_index {
            Some(i) => Some(&self.matches[i]),
            None => None,
        }
    }

    /// Check if a cell at (row, col) is part of the current match
    pub fn is_current_match(&self, row: usize, col: usize) -> (r: bool)
        requires
            self.wf(),
        ensures
            r == match self.cur_index() {
                Some(i) => {
                    let m = self.matches_view()[i as int];
                    m.row == row && m.cols.start <= col < m.cols.end
                },
                None => false,
            },
    {
        match self.current_match_index {
            Some(i) => {
                let m = &self.matches[i];
                m.row == row && m.cols.start <= col && col < m.cols.end
            },
            None => false,
        }
    }

    /// Check if a cell at (row, col) is part of any match
    pub fn is_match(&self, row: usize, col: usize) -> (r: bool)
        ensures
            r == exists|i: int|
                0 <= i < self.matches_view().len() && {
                    let m = #[trigger] self.matches_view()[i];
                    m.row == row && m.cols.start <= col < m.cols.end
                },
    {
        let n = self.matches.len();
        let mut i: usize = 0;
        while i < n
            invariant
                i <= n == self.matches_view().len(),
                forall|k: int|
                    0 <= k < i ==> !{
                        let m = #[trigger] self.matches_view()[k];
                        m.row == row && m.cols.start <= col < m.cols.end
                    },
            decreases n - i,
        {
            let m = &self.matches[i];
            if m.row == row && m.cols.start <= col && col < m.cols.end {
                return true;
            }
            i += 1;
        }
        false
    }
}

impl Default for SearchState {
    fn default() -> (r: Self)
        ensures
            r.wf(),
            !r.has_pattern(),
            r.matches_view() == Seq::<SearchMatch>::empty(),
            r.cur_index() is None,
            !r.is_active(),
            r.query_view() == Seq::<char>::empty(),
    {
        Self::new()
    }
}

} // verus!
