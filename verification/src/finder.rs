//! The search: the pattern typed by the user and the entries that match it.

use vstd::prelude::*;

use crate::pass::{entry_matches, entry_views, matching, PassEntry, PassEntryView, PassRepository};
use crate::text::{lemma_empty_occurs, lemma_occurs_transitive, occurs_in};

verus! {

/// The pattern, the entries found for it, and whether a new search is due.
pub struct FinderView {
    pub pattern: Seq<char>,
    pub last_match: Seq<PassEntryView>,
    pub search_requested: bool,
}

/// The search state.
pub struct Finder {
    pub pattern: String,
    pub last_match: Vec<PassEntry>,
    search_requested: bool,
}

impl View for Finder {
    type V = FinderView;

    closed spec fn view(&self) -> FinderView {
        FinderView {
            pattern: self.pattern@,
            last_match: entry_views(self.last_match@),
            search_requested: self.search_requested,
        }
    }
}

impl Finder {
    /// An empty pattern, no matches, and no search due.
    pub fn new() -> (r: Self)
        ensures
            r@.pattern == Seq::<char>::empty(),
            r@.last_match == Seq::<PassEntryView>::empty(),
            !r@.search_requested,
    {
        let r = Finder { pattern: String::new(), last_match: Vec::new(), search_requested: false };
        assert(r@.last_match =~= Seq::<PassEntryView>::empty());
        r
    }

    /// Lets the finder know that it's time to search for matches.
    pub fn notify(&mut self)
        ensures
            final(self)@ == (FinderView { search_requested: true, ..old(self)@ }),
    {
        self.search_requested = true;
    }

    /// Whether a search is due.
    pub fn search_requested(&self) -> (r: bool)
        ensures
            r == self@.search_requested,
    {
        self.search_requested
    }

    /// Searches the repository for the current pattern.
    pub fn search(&mut self, repository: &PassRepository)
        ensures
            final(self)@ == (FinderView {
                last_match: matching(repository@.entries, old(self)@.pattern),
                search_requested: false,
                ..old(self)@
            }),
    {
        let found = repository.get_by_pattern(self.pattern.as_str());
        self.last_match = found;
        self.search_requested = false;
    }
}


/// The matches are exactly the entries that match, in the repository's order:
/// an entry is among the matches if and only if it is an entry that matches the pattern.
pub proof fn law_matches_are_exact(es: Seq<PassEntryView>, pattern: Seq<char>, e: PassEntryView)
    ensures
        matching(es, pattern).contains(e) <==> (es.contains(e) && entry_matches(e, pattern)),
        matching(es, pattern).len() <= es.len(),
    decreases es.len(),
{
    if es.len() > 0 {
        let rest = es.drop_last();
        law_matches_are_exact(rest, pattern, e);
        let m = matching(rest, pattern);
        if entry_matches(es.last(), pattern) {
            assert(m.push(es.last()).last() == es.last());
            if m.push(es.last()).contains(e) {
                let k = choose|k: int| 0 <= k < m.push(es.last()).len() && m.push(es.last())[k] == e;
                if k < m.len() {
                    assert(m[k] == e);
                    assert(m.contains(e));
                }
            }
            if m.contains(e) {
                let k = choose|k: int| 0 <= k < m.len() && m[k] == e;
                assert(m.push(es.last())[k] == e);
            }
        }
        if es.contains(e) {
            let k = choose|k: int| 0 <= k < es.len() && es[k] == e;
            if k < rest.len() {
                assert(rest[k] == e);
            }
        }
        if rest.contains(e) {
            let k = choose|k: int| 0 <= k < rest.len() && rest[k] == e;
            assert(es[k] == e);
        }
    }
}

/// An empty pattern matches every entry.
pub proof fn law_empty_pattern_matches_all(es: Seq<PassEntryView>)
    ensures
        matching(es, Seq::<char>::empty()) == es,
    decreases es.len(),
{
    if es.len() > 0 {
        law_empty_pattern_matches_all(es.drop_last());
        lemma_empty_occurs(crate::pass::display_of(es.last()));
        assert(es.drop_last().push(es.last()) =~= es);
    }
}

/// Typing on narrows the search: when the old pattern occurs in the new one, the
/// matches for the new pattern are the old matches that match the new pattern.
pub proof fn law_narrowing_filters_previous_matches(es: Seq<PassEntryView>, old_pattern: Seq<char>, new_pattern: Seq<char>)
    requires
        occurs_in(old_pattern, new_pattern),
    ensures
        matching(es, new_pattern) == matching(matching(es, old_pattern), new_pattern),
    decreases es.len(),
{
    if es.len() > 0 {
        let rest = es.drop_last();
        let x = es.last();
        law_narrowing_filters_previous_matches(rest, old_pattern, new_pattern);
        let m_old = matching(rest, old_pattern);
        if entry_matches(x, old_pattern) {
            let pushed = m_old.push(x);
            assert(pushed.drop_last() =~= m_old);
            assert(pushed.last() == x);
        } else {
            if entry_matches(x, new_pattern) {
                lemma_occurs_transitive(old_pattern, new_pattern, crate::pass::display_of(x));
            }
        }
    }
}

} // verus!
