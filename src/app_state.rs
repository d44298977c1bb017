//! The state of a clipboard-history window: the loaded entries indexed by row,
//! the search state, the selection and the detail panel.
//!
//! A row handle is the position at which its entry was loaded, so the rows in
//! load order are `0, 1, 2, ...` and each has exactly one entry.

use vstd::prelude::*;
use crate::entry::{ClipboardEntry, EntryView};
use crate::text::opt_view;

verus! {

/// How much of the detail panel is shown.
#[derive(PartialEq, Eq, Structural, Clone, Copy, Debug)]
pub enum DetailsVisibility {
    Hidden,
    Normal,
    Big,
}

/// The rows `0..n`, in load order.
pub open spec fn all_rows(n: nat) -> Seq<usize> {
    Seq::new(n, |i: int| i as usize)
}

/// The rows of `base` whose entries match `query`, in the order of `base`.
pub open spec fn filter_rows(es: Seq<EntryView>, base: Seq<usize>, query: Seq<char>) -> Seq<usize>
    decreases base.len(),
{
    if base.len() == 0 {
        Seq::empty()
    } else {
        let rest = filter_rows(es, base.drop_last(), query);
        if es[base.last() as int].matches(query) {
            rest.push(base.last())
        } else {
            rest
        }
    }
}

/// The rows whose entries match `query`, in load order.
pub open spec fn matching_rows(es: Seq<EntryView>, query: Seq<char>) -> Seq<usize> {
    filter_rows(es, all_rows(es.len()), query)
}

/// The outcome of the active search, as a value.
pub enum ResultsModel {
    /// No search is active.
    Inactive,
    /// The rows that match the active query, in load order; there is at least one.
    Found(Seq<usize>),
    /// A search is active and no row matches.
    Empty,
}

/// The outcome of searching `es` for `query`, where `None` is no search.
pub open spec fn results_for(es: Seq<EntryView>, query: Option<Seq<char>>) -> ResultsModel {
    match query {
        None => ResultsModel::Inactive,
        Some(q) => {
            let rs = matching_rows(es, q);
            if rs.len() == 0 {
                ResultsModel::Empty
            } else {
                ResultsModel::Found(rs)
            }
        },
    }
}

/// The state of the window, as a value.
pub struct AppModel {
    /// The entries by row.
    pub entries: Seq<EntryView>,
    pub visibility: DetailsVisibility,
    /// Whether the remaining history has been loaded.
    pub all_loaded: bool,
    /// The active query; `None` when no search is active.
    pub query: Option<Seq<char>>,
    pub results: ResultsModel,
    /// Every query searched since the last load, with its matching rows.
    pub cache: Seq<(Seq<char>, Seq<usize>)>,
    /// The row that was selected last.
    pub last_selected: Option<usize>,
    /// The position of the selected row among the visible rows.
    pub selected: Option<usize>,
    /// How many times a query has been searched by scanning rows.
    pub scans: u64,
}

impl AppModel {
    /// The rows shown in the list, in order.
    pub open spec fn visible(self) -> Seq<usize> {
        match self.results {
            ResultsModel::Inactive => all_rows(self.entries.len()),
            ResultsModel::Found(rs) => rs,
            ResultsModel::Empty => Seq::empty(),
        }
    }

    /// The cache holds `query`.
    pub open spec fn cached(self, query: Seq<char>) -> bool {
        exists|k: int| 0 <= k < self.cache.len() && #[trigger] self.cache[k].0 == query
    }

    /// The row of the selected position.
    pub open spec fn selected_row(self) -> Option<usize> {
        match self.selected {
            Some(p) => Some(self.visible()[p as int]),
            None => None,
        }
    }

    /// The invariant of the window's state.
    pub open spec fn inv(self) -> bool {
        &&& self.results == results_for(self.entries, self.query)
        &&& (self.query matches Some(q) ==> q.len() > 0)
        &&& forall|k: int|
            0 <= k < self.cache.len() ==> #[trigger] self.cache[k].1 == matching_rows(
                self.entries,
                self.cache[k].0,
            )
        &&& forall|i: int, j: int|
            0 <= i < self.cache.len() && 0 <= j < self.cache.len() && i != j ==> #[trigger] self.cache[i].0
                != #[trigger] self.cache[j].0
        &&& (self.selected matches Some(p) ==> p < self.visible().len())
        &&& (self.last_selected matches Some(r) ==> r < self.entries.len())
    }
}

/// The outcome of the active search.
pub enum SearchResults {
    Inactive,
    Found(Vec<usize>),
    Empty,
}

/// A query searched before, with the rows that matched it.
pub struct CachedSearch {
    pub query: String,
    pub rows: Vec<usize>,
}

/// The state of a clipboard-history window.
pub struct AppState {
    pub(crate) entries: Vec<ClipboardEntry>,
    pub(crate) details_visibility: DetailsVisibility,
    pub(crate) all_entries_loaded: bool,
    pub(crate) search_query: Option<String>,
    pub(crate) filtered_rows: SearchResults,
    pub(crate) search_cache: Vec<CachedSearch>,
    pub(crate) last_selected_row: Option<usize>,
    pub(crate) selected: Option<usize>,
    pub(crate) scan_count: u64,
}

/// The entries of a list, as values.
pub open spec fn entry_views(es: Seq<ClipboardEntry>) -> Seq<EntryView> {
    es.map_values(|e: ClipboardEntry| e@)
}

impl AppState {
    /// The state as a value.
    pub open(crate) spec fn model(&self) -> AppModel {
        AppModel {
            entries: entry_views(self.entries@),
            visibility: self.details_visibility,
            all_loaded: self.all_entries_loaded,
            query: opt_view(self.search_query),
            results: match self.filtered_rows {
                SearchResults::Inactive => ResultsModel::Inactive,
                SearchResults::Found(rs) => ResultsModel::Found(rs@),
                SearchResults::Empty => ResultsModel::Empty,
            },
            cache: self.search_cache@.map_values(|c: CachedSearch| (c.query@, c.rows@)),
            last_selected: self.last_selected_row,
            selected: self.selected,
            scans: self.scan_count,
        }
    }

    /// The state is consistent: its model keeps the invariant and every entry
    /// is well formed.
    pub open(crate) spec fn wf(&self) -> bool {
        &&& self.model().inv()
        &&& forall|r: int| 0 <= r < self.entries@.len() ==> (#[trigger] self.entries@[r]).wf()
    }

    /// A window that shows `entries` in order, with no search, no selection and
    /// the detail panel hidden.
    pub fn new(entries: Vec<ClipboardEntry>) -> (r: AppState)
        requires
            forall|k: int| 0 <= k < entries@.len() ==> (#[trigger] entries@[k]).wf(),
        ensures
            r.wf(),
            r.model() == (AppModel {
                entries: entry_views(entries@),
                visibility: DetailsVisibility::Hidden,
                all_loaded: false,
                query: None,
                results: ResultsModel::Inactive,
                cache: Seq::empty(),
                last_selected: None,
                selected: None,
                scans: 0,
            }),
    {
        let r = AppState {
            entries,
            details_visibility: DetailsVisibility::Hidden,
            all_entries_loaded: false,
            search_query: None,
            filtered_rows: SearchResults::Inactive,
            search_cache: Vec::new(),
            last_selected_row: None,
            selected: None,
            scan_count: 0,
        };
        assert(r.model().cache =~= Seq::<(Seq<char>, Seq<usize>)>::empty());
        r
    }

    /// How many entries are loaded.
    pub fn row_count(&self) -> (r: usize)
        ensures
            r == self.model().entries.len(),
    {
        self.entries.len()
    }

    /// The entry of `row`, if the row exists.
    pub fn lookup(&self, row: usize) -> (r: Option<&ClipboardEntry>)
        ensures
            match r {
                Some(e) => row < self.model().entries.len() && e@ == self.model().entries[row as int],
                None => row >= self.model().entries.len(),
            },
    {
        if row < self.entries.len() {
            Some(&self.entries[row])
        } else {
            None
        }
    }

    /// The active query.
    pub fn search_query(&self) -> (r: Option<&str>)
        ensures
            match r {
                Some(q) => self.model().query == Some(q@),
                None => self.model().query is None,
            },
    {
        match &self.search_query {
            Some(q) => Some(q.as_str()),
            None => None,
        }
    }

    /// The position of the selected row among the visible ones.
    pub fn selected_position(&self) -> (r: Option<usize>)
        ensures
            r == self.model().selected,
    {
        self.selected
    }

    /// How the detail panel is shown.
    pub fn details_visibility(&self) -> (r: DetailsVisibility)
        ensures
            r == self.model().visibility,
    {
        self.details_visibility
    }

    /// Whether the remaining history has been loaded.
    pub fn all_entries_loaded(&self) -> (r: bool)
        ensures
            r == self.model().all_loaded,
    {
        self.all_entries_loaded
    }

    /// How many times a query has been searched by scanning rows.
    pub fn scan_count(&self) -> (r: u64)
        ensures
            r == self.model().scans,
    {
        self.scan_count
    }

    /// Whether a search is active and matches nothing, which the search field
    /// shows as an error.
    pub fn has_search_error(&self) -> (r: bool)
        ensures
            r == (self.model().results is Empty),
    {
        match self.filtered_rows {
            SearchResults::Empty => true,
            _ => false,
        }
    }

    /// The number of rows shown in the list.
    pub fn visible_len(&self) -> (r: usize)
        requires
            self.wf(),
        ensures
            r == self.model().visible().len(),
    {
        match &self.filtered_rows {
            SearchResults::Inactive => self.entries.len(),
            SearchResults::Found(rs) => rs.len(),
            SearchResults::Empty => 0,
        }
    }

    /// The row shown at position `pos` of the list.
    pub fn visible_row_at(&self, pos: usize) -> (r: usize)
        requires
            self.wf(),
            pos < self.model().visible().len(),
        ensures
            r == self.model().visible()[pos as int],
    {
        match &self.filtered_rows {
            SearchResults::Inactive => pos,
            SearchResults::Found(rs) => rs[pos],
            SearchResults::Empty => pos,
        }
    }

    /// The rows shown in the list, in order.
    pub fn visible_rows(&self) -> (r: Vec<usize>)
        requires
            self.wf(),
        ensures
            r@ == self.model().visible(),
    {
        match &self.filtered_rows {
            SearchResults::Inactive => {
                let n = self.entries.len();
                let mut out: Vec<usize> = Vec::new();
                let mut i: usize = 0;
                while i < n
                    invariant
                        i <= n,
                        n == self.entries@.len(),
                        out@ == all_rows(i as nat),
                    decreases n - i,
                {
                    out.push(i);
                    assert(out@ =~= all_rows((i + 1) as nat));
                    i = i + 1;
                }
                out
            },
            SearchResults::Found(rs) => rs.clone(),
            SearchResults::Empty => Vec::new(),
        }
    }

    /// The selected entry, if a row is selected.
    pub fn current_entry(&self) -> (r: Option<&ClipboardEntry>)
        requires
            self.wf(),
        ensures
            match r {
                Some(e) => self.model().selected_row() matches Some(row) && row
                    < self.model().entries.len() && e@ == self.model().entries[row as int],
                None => self.model().selected is None,
            },
    {
        match self.selected {
            Some(p) => {
                let row = self.visible_row_at(p);
                proof {
                    lemma_visible_rows_bounded(self.model());
                }
                Some(&self.entries[row])
            },
            None => None,
        }
    }
}

/// Every row that `filter_rows` keeps comes from its base.
pub proof fn lemma_filter_rows_subset(es: Seq<EntryView>, base: Seq<usize>, query: Seq<char>)
    ensures
        forall|k: int|
            0 <= k < filter_rows(es, base, query).len() ==> base.contains(
                #[trigger] filter_rows(es, base, query)[k],
            ),
        filter_rows(es, base, query).len() <= base.len(),
    decreases base.len(),
{
    if base.len() > 0 {
        lemma_filter_rows_subset(es, base.drop_last(), query);
        let rest = filter_rows(es, base.drop_last(), query);
        assert forall|k: int| 0 <= k < filter_rows(es, base, query).len() implies base.contains(
            #[trigger] filter_rows(es, base, query)[k],
        ) by {
            if k < rest.len() {
                let x = rest[k];
                let j = choose|j: int| 0 <= j < base.drop_last().len() && base.drop_last()[j] == x;
                assert(base[j] == x);
            } else {
                assert(base[base.len() - 1] == base.last());
            }
        }
    }
}

/// Every row that `filter_rows` keeps matches the query, and every matching
/// row of the base is kept.
pub proof fn lemma_filter_rows_members(es: Seq<EntryView>, base: Seq<usize>, query: Seq<char>, r: usize)
    requires
        forall|k: int| 0 <= k < base.len() ==> (#[trigger] base[k]) < es.len(),
    ensures
        filter_rows(es, base, query).contains(r) <==> base.contains(r) && es[r as int].matches(
            query,
        ),
    decreases base.len(),
{
    if base.len() > 0 {
        let init = base.drop_last();
        lemma_filter_rows_members(es, init, query, r);
        let rest = filter_rows(es, init, query);
        if base.contains(r) {
            let j = choose|j: int| 0 <= j < base.len() && base[j] == r;
            if j < init.len() {
                assert(init[j] == r);
            }
        }
        if init.contains(r) {
            let j = choose|j: int| 0 <= j < init.len() && init[j] == r;
            assert(base[j] == r);
        }
        if rest.contains(r) {
            let j = choose|j: int| 0 <= j < rest.len() && rest[j] == r;
            assert(rest.push(base.last())[j] == r);
        }
        if es[base.last() as int].matches(query) {
            assert(rest.push(base.last())[rest.len() as int] == base.last());
            assert(rest.push(base.last()).contains(r) ==> rest.contains(r) || r == base.last()) by {
                if rest.push(base.last()).contains(r) {
                    let j = choose|j: int|
                        0 <= j < rest.push(base.last()).len() && rest.push(base.last())[j] == r;
                    if j < rest.len() {
                        assert(rest[j] == r);
                    }
                }
            }
        }
    }
}

/// The rows in load order are below the number of entries.
pub proof fn lemma_all_rows_bounded(n: nat)
    ensures
        forall|k: int| 0 <= k < all_rows(n).len() ==> (#[trigger] all_rows(n)[k]) < n,
        all_rows(n).len() == n,
{
}

/// Every row that a search yields is below the number of entries.
pub proof fn lemma_matching_rows_bounded(es: Seq<EntryView>, query: Seq<char>)
    ensures
        forall|k: int|
            0 <= k < matching_rows(es, query).len() ==> (#[trigger] matching_rows(es, query)[k])
                < es.len(),
{
    lemma_filter_rows_subset(es, all_rows(es.len()), query);
    assert forall|k: int| 0 <= k < matching_rows(es, query).len() implies (#[trigger] matching_rows(
        es,
        query,
    )[k]) < es.len() by {
        let x = matching_rows(es, query)[k];
        let j = choose|j: int| 0 <= j < all_rows(es.len()).len() && all_rows(es.len())[j] == x;
    }
}

/// Every visible row is below the number of entries.
pub proof fn lemma_visible_rows_bounded(m: AppModel)
    requires
        m.inv(),
    ensures
        forall|k: int| 0 <= k < m.visible().len() ==> (#[trigger] m.visible()[k]) < m.entries.len(),
{
    match m.query {
        Some(q) => lemma_matching_rows_bounded(m.entries, q),
        None => {},
    }
}

/// The entries `es` with the rows in `rows` highlighted for `query`.
pub open spec fn highlight_all(
    es: Seq<EntryView>,
    rows: Seq<usize>,
    query: Option<Seq<char>>,
    selected: bool,
) -> Seq<EntryView> {
    Seq::new(
        es.len(),
        |r: int|
            if rows.contains(r as usize) {
                es[r].highlighted_for(query, selected)
            } else {
                es[r]
            },
    )
}

/// Two lists of entries that differ at most in what their rows show.
pub open spec fn same_search_texts(a: Seq<EntryView>, b: Seq<EntryView>) -> bool {
    &&& a.len() == b.len()
    &&& forall|r: int| 0 <= r < a.len() ==> (#[trigger] a[r]).search_text() == b[r].search_text()
}

impl AppModel {
    /// The state after selecting position `pos` of the list. While a search is
    /// active, the row selected before is highlighted again in the colors of
    /// an unselected row, and the new one in those of the selected row.
    pub open spec fn select(self, pos: usize) -> AppModel {
        let row = self.visible()[pos as int];
        let es = self.entries;
        let es1 = match (self.query, self.last_selected) {
            (Some(q), Some(l)) => es.update(l as int, es[l as int].highlighted_for(Some(q), false)),
            _ => es,
        };
        let es2 = match self.query {
            Some(q) => es1.update(row as int, es[row as int].highlighted_for(Some(q), true)),
            None => es1,
        };
        AppModel { entries: es2, last_selected: Some(row), selected: Some(pos), ..self }
    }

    /// The state after selecting the first row of the list, or nothing when
    /// the list is empty.
    pub open spec fn select_first(self) -> AppModel {
        if self.visible().len() > 0 {
            self.select(0)
        } else {
            AppModel { selected: None, ..self }
        }
    }
}

/// Highlighting a row again replaces what the earlier highlight did.
pub proof fn lemma_highlight_replaces(
    e: EntryView,
    a: Option<Seq<char>>,
    x: bool,
    b: Option<Seq<char>>,
    y: bool,
)
    ensures
        e.highlighted_for(a, x).highlighted_for(b, y) == e.highlighted_for(b, y),
        e.highlighted_for(a, x).search_text() == e.search_text(),
        e.highlighted_for(a, x).id() == e.id(),
{
}

/// Searches depend on the search texts alone.
pub proof fn lemma_filter_rows_congruent(
    a: Seq<EntryView>,
    b: Seq<EntryView>,
    base: Seq<usize>,
    query: Seq<char>,
)
    requires
        same_search_texts(a, b),
        forall|k: int| 0 <= k < base.len() ==> (#[trigger] base[k]) < a.len(),
    ensures
        filter_rows(a, base, query) == filter_rows(b, base, query),
    decreases base.len(),
{
    if base.len() > 0 {
        lemma_filter_rows_congruent(a, b, base.drop_last(), query);
        assert(a[base.last() as int].search_text() == b[base.last() as int].search_text());
    }
}

/// Changing what rows show keeps the invariant.
pub proof fn lemma_relabel_keeps_inv(m: AppModel, es: Seq<EntryView>)
    requires
        m.inv(),
        same_search_texts(m.entries, es),
    ensures
        (AppModel { entries: es, ..m }).inv(),
{
    let m2 = AppModel { entries: es, ..m };
    lemma_all_rows_bounded(es.len());
    assert forall|q: Seq<char>| matching_rows(m.entries, q) == matching_rows(es, q) by {
        lemma_filter_rows_congruent(m.entries, es, all_rows(es.len()), q);
    }
    assert(m2.results == results_for(es, m.query));
    assert forall|k: int| 0 <= k < m2.cache.len() implies #[trigger] m2.cache[k].1 == matching_rows(
        es,
        m2.cache[k].0,
    ) by {
        assert(matching_rows(m.entries, m.cache[k].0) == matching_rows(es, m.cache[k].0));
    }
}

/// `u64` counting that stops at its largest value.
pub open spec fn bump(n: u64) -> u64 {
    if n < u64::MAX {
        (n + 1) as u64
    } else {
        n
    }
}

impl AppState {
    /// Highlights the row of `row` for `query`.
    pub(crate) fn highlight_row(&mut self, row: usize, query: Option<String>, selected: bool)
        requires
            old(self).wf(),
            row < old(self).model().entries.len(),
        ensures
            final(self).wf(),
            final(self).model() == (AppModel {
                entries: old(self).model().entries.update(
                    row as int,
                    old(self).model().entries[row as int].highlighted_for(opt_view(query), selected),
                ),
                ..old(self).model()
            }),
    {
        let ghost m = self.model();
        self.entries[row].set_highlight_in_row(query, selected);
        proof {
            let es = m.entries.update(
                row as int,
                m.entries[row as int].highlighted_for(opt_view(query), selected),
            );
            assert(entry_views(self.entries@) =~= es);
            lemma_relabel_keeps_inv(m, es);
            assert(self.model() =~= (AppModel { entries: es, ..m }));
        }
    }

    /// Selects position `pos` of the list; while a search is active, the rows
    /// selected before and now are highlighted again.
    pub fn select_row(&mut self, pos: usize)
        requires
            old(self).wf(),
            pos < old(self).model().visible().len(),
        ensures
            final(self).wf(),
            final(self).model() == old(self).model().select(pos),
    {
        let ghost m = self.model();
        proof {
            lemma_visible_rows_bounded(m);
        }
        let row = self.visible_row_at(pos);
        match &self.search_query {
            Some(q) => {
                let q1 = q.clone();
                let q2 = q.clone();
                match self.last_selected_row {
                    Some(l) => {
                        self.highlight_row(l, Some(q1), false);
                    },
                    None => {},
                }
                proof {
                    lemma_highlight_replaces(m.entries[row as int], Some(q1@), false, Some(q2@), true);
                }
                self.highlight_row(row, Some(q2), true);
            },
            None => {},
        }
        let ghost m2 = self.model();
        assert(m2.inv());
        self.last_selected_row = Some(row);
        self.selected = Some(pos);
        proof {
            assert(self.model().entries =~= m.select(pos).entries);
            assert(self.model().cache == m2.cache);
        }
    }

    /// Selects the first row of the list, or nothing when it is empty.
    pub fn select_first_row(&mut self)
        requires
            old(self).wf(),
        ensures
            final(self).wf(),
            final(self).model() == old(self).model().select_first(),
    {
        if self.visible_len() > 0 {
            self.select_row(0);
        } else {
            self.selected = None;
        }
    }
}

} // verus!
