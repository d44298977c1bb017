//! The incremental search over the loaded rows: a query narrows the list to the
//! rows whose entries hold it, ignoring case. Every query's rows are kept for
//! the session, and a query that extends the previous one only rescans the
//! previous query's rows.

use vstd::prelude::*;
use crate::app_state::{
    all_rows, bump, filter_rows, highlight_all, lemma_all_rows_bounded, lemma_highlight_replaces,
    lemma_matching_rows_bounded, lemma_relabel_keeps_inv, matching_rows, results_for,
    same_search_texts, AppModel, AppState, CachedSearch, ResultsModel, SearchResults,
};
use crate::entry::EntryView;
use crate::text::{
    contains, is_prefix, lemma_contains_folds, lemma_narrowing_keeps_containment, opt_view,
    starts_with, str_equal,
};

verus! {

/// The state after the search field changes to `query`.
///
/// An empty query ends the search: every row is shown again in load order,
/// without emphasis. Any other query shows the rows that match it, in load
/// order, each highlighted; a query not searched before is added to the cache
/// and counts as a scan. Either way the first row shown is selected.
pub open spec fn after_query(m: AppModel, query: Seq<char>) -> AppModel {
    if query.len() == 0 {
        let cleared = AppModel {
            entries: highlight_all(m.entries, all_rows(m.entries.len()), None, false),
            query: None,
            results: ResultsModel::Inactive,
            selected: None,
            ..m
        };
        cleared.select_first()
    } else {
        let rs = matching_rows(m.entries, query);
        let searched = AppModel {
            entries: highlight_all(m.entries, rs, Some(query), false),
            query: Some(query),
            results: results_for(m.entries, Some(query)),
            cache: if m.cached(query) {
                m.cache
            } else {
                m.cache.push((query, rs))
            },
            scans: if m.cached(query) {
                m.scans
            } else {
                bump(m.scans)
            },
            selected: None,
            ..m
        };
        searched.select_first()
    }
}

/// Rescanning the rows that matched a query, for a query that extends it,
/// finds what scanning from scratch finds.
pub proof fn lemma_filter_narrowing(
    es: Seq<EntryView>,
    base: Seq<usize>,
    p: Seq<char>,
    q: Seq<char>,
)
    requires
        is_prefix(p, q),
    ensures
        filter_rows(es, filter_rows(es, base, p), q) == filter_rows(es, base, q),
    decreases base.len(),
{
    if base.len() > 0 {
        let x = base.last();
        let inner = filter_rows(es, base.drop_last(), p);
        lemma_filter_narrowing(es, base.drop_last(), p, q);
        if es[x as int].matches(p) {
            assert(inner.push(x).drop_last() =~= inner);
        } else {
            if es[x as int].matches(q) {
                lemma_narrowing_keeps_containment(es[x as int].search_text(), p, q);
            }
        }
    }
}

proof fn lemma_all_rows_contains(n: nat, x: usize)
    ensures
        all_rows(n).contains(x) <==> (x as int) < n,
{
    if (x as int) < n {
        assert(all_rows(n)[x as int] == x);
    }
}

/// Highlighting keeps what searches look at.
pub proof fn lemma_highlight_all_search_texts(
    es: Seq<EntryView>,
    rows: Seq<usize>,
    query: Option<Seq<char>>,
    selected: bool,
)
    ensures
        same_search_texts(es, highlight_all(es, rows, query, selected)),
{
}

/// Selecting keeps what searches look at.
pub proof fn lemma_select_first_search_texts(m: AppModel)
    requires
        m.inv(),
    ensures
        same_search_texts(m.entries, m.select_first().entries),
{
    crate::app_state::lemma_visible_rows_bounded(m);
    if m.visible().len() > 0 {
        let row = m.visible()[0];
        let es = m.entries;
        let es1 = match (m.query, m.last_selected) {
            (Some(q), Some(l)) => es.update(l as int, es[l as int].highlighted_for(Some(q), false)),
            _ => es,
        };
        assert(same_search_texts(es, es1));
    }
}

/// A search leaves the invariant in place and keeps what searches look at.
pub proof fn lemma_after_query_inv(m: AppModel, query: Seq<char>)
    requires
        m.inv(),
    ensures
        after_query(m, query).inv(),
        same_search_texts(m.entries, after_query(m, query).entries),
{
    lemma_all_rows_bounded(m.entries.len());
    if query.len() == 0 {
        let es = highlight_all(m.entries, all_rows(m.entries.len()), None, false);
        lemma_highlight_all_search_texts(m.entries, all_rows(m.entries.len()), None, false);
        lemma_relabel_keeps_inv(AppModel { query: None, results: ResultsModel::Inactive, selected: None, ..m }, es);
        let cleared = AppModel {
            entries: es,
            query: None,
            results: ResultsModel::Inactive,
            selected: None,
            ..m
        };
        lemma_select_first_inv(cleared);
        lemma_select_first_search_texts(cleared);
    } else {
        let rs = matching_rows(m.entries, query);
        let es = highlight_all(m.entries, rs, Some(query), false);
        lemma_highlight_all_search_texts(m.entries, rs, Some(query), false);
        let base = AppModel {
            query: Some(query),
            results: results_for(m.entries, Some(query)),
            cache: if m.cached(query) {
                m.cache
            } else {
                m.cache.push((query, rs))
            },
            scans: if m.cached(query) {
                m.scans
            } else {
                bump(m.scans)
            },
            selected: None,
            ..m
        };
        assert(base.inv()) by {
            if !m.cached(query) {
                assert forall|i: int, j: int|
                    0 <= i < base.cache.len() && 0 <= j < base.cache.len() && i != j implies #[trigger] base.cache[i].0
                    != #[trigger] base.cache[j].0 by {
                    if i == m.cache.len() {
                        assert(m.cache[j].0 == base.cache[j].0);
                    } else if j == m.cache.len() {
                        assert(m.cache[i].0 == base.cache[i].0);
                    }
                }
                assert forall|k: int| 0 <= k < base.cache.len() implies #[trigger] base.cache[k].1
                    == matching_rows(base.entries, base.cache[k].0) by {
                    if k < m.cache.len() {
                        assert(base.cache[k] == m.cache[k]);
                    }
                }
            }
        }
        lemma_relabel_keeps_inv(base, es);
        let searched = AppModel { entries: es, ..base };
        lemma_select_first_inv(searched);
        lemma_select_first_search_texts(searched);
    }
}

/// Selecting the first row keeps the invariant.
pub proof fn lemma_select_first_inv(m: AppModel)
    requires
        m.inv(),
    ensures
        m.select_first().inv(),
{
    crate::app_state::lemma_visible_rows_bounded(m);
    lemma_select_first_search_texts(m);
    let s = m.select_first();
    if m.visible().len() > 0 {
        lemma_relabel_keeps_inv(m, s.entries);
        assert(s == AppModel { last_selected: s.last_selected, selected: Some(0), ..AppModel { entries: s.entries, ..m } });
    }
}

/// The rows `0..n` as a list.
fn all_rows_vec(n: usize) -> (r: Vec<usize>)
    ensures
        r@ == all_rows(n as nat),
{
    let mut out: Vec<usize> = Vec::new();
    let mut i: usize = 0;
    while i < n
        invariant
            i <= n,
            out@ == all_rows(i as nat),
        decreases n - i,
    {
        out.push(i);
        assert(out@ =~= all_rows((i + 1) as nat));
        i = i + 1;
    }
    out
}

/// A copy of a list of rows.
pub(crate) fn copy_rows(v: &Vec<usize>) -> (r: Vec<usize>)
    ensures
        r@ == v@,
{
    let mut out: Vec<usize> = Vec::new();
    let mut i: usize = 0;
    while i < v.len()
        invariant
            i <= v@.len(),
            out@ == v@.take(i as int),
        decreases v@.len() - i,
    {
        out.push(v[i]);
        assert(v@.take(i as int).push(v@[i as int]) =~= v@.take(i + 1));
        i = i + 1;
    }
    assert(v@.take(v@.len() as int) =~= v@);
    out
}

/// The position of `query` in the cache, if it is there.
fn find_cached(app_state: &AppState, query: &str) -> (r: Option<usize>)
    ensures
        match r {
            Some(k) => k < app_state.model().cache.len() && app_state.model().cache[k as int].0
                == query@,
            None => !app_state.model().cached(query@),
        },
{
    let mut k: usize = 0;
    while k < app_state.search_cache.len()
        invariant
            k <= app_state.search_cache@.len(),
            forall|j: int| 0 <= j < k ==> #[trigger] app_state.model().cache[j].0 != query@,
        decreases app_state.search_cache@.len() - k,
    {
        if str_equal(app_state.search_cache[k].query.as_str(), query) {
            return Some(k);
        }
        k = k + 1;
    }
    None
}

/// The rows of `base` whose entries match `query`, found by scanning.
pub(crate) fn scan_rows(app_state: &AppState, base: &Vec<usize>, query: &str) -> (r: Vec<usize>)
    requires
        app_state.wf(),
        forall|k: int| 0 <= k < base@.len() ==> (#[trigger] base@[k]) < app_state.entries@.len(),
    ensures
        r@ == filter_rows(app_state.model().entries, base@, query@),
{
    let ghost es = app_state.model().entries;
    let mut out: Vec<usize> = Vec::new();
    let mut i: usize = 0;
    while i < base.len()
        invariant
            i <= base@.len(),
            app_state.wf(),
            es == app_state.model().entries,
            forall|k: int| 0 <= k < base@.len() ==> (#[trigger] base@[k]) < app_state.entries@.len(),
            out@ == filter_rows(es, base@.take(i as int), query@),
        decreases base@.len() - i,
    {
        let row = base[i];
        proof {
            assert(base@.take(i + 1).drop_last() =~= base@.take(i as int));
            assert(base@.take(i + 1).last() == row);
        }
        if app_state.entries[row].contains_text(query) {
            out.push(row);
        }
        i = i + 1;
    }
    assert(base@.take(base@.len() as int) =~= base@);
    out
}

/// Highlights every row of `rows` for `query`.
pub(crate) fn highlight_rows(app_state: &mut AppState, rows: &Vec<usize>, query: &Option<String>)
    requires
        old(app_state).wf(),
        forall|k: int| 0 <= k < rows@.len() ==> (#[trigger] rows@[k]) < old(app_state).entries@.len(),
    ensures
        final(app_state).wf(),
        final(app_state).model() == (AppModel {
            entries: highlight_all(old(app_state).model().entries, rows@, opt_view(*query), false),
            ..old(app_state).model()
        }),
{
    let ghost m = app_state.model();
    let _n = app_state.entries.len();
    let mut i: usize = 0;
    assert(highlight_all(m.entries, rows@.take(0), opt_view(*query), false) =~= m.entries);
    assert(app_state.model() == AppModel { entries: m.entries, ..m });
    while i < rows.len()
        invariant
            i <= rows@.len(),
            app_state.wf(),
            m.entries.len() == app_state.entries@.len(),
            app_state.entries@.len() <= usize::MAX,
            forall|k: int| 0 <= k < rows@.len() ==> (#[trigger] rows@[k]) < m.entries.len(),
            app_state.model() == (AppModel {
                entries: highlight_all(m.entries, rows@.take(i as int), opt_view(*query), false),
                ..m
            }),
        decreases rows@.len() - i,
    {
        let row = rows[i];
        let ghost before = app_state.model().entries;
        let q = match query {
            Some(s) => Some(s.clone()),
            None => None,
        };
        proof {
            lemma_highlight_replaces(m.entries[row as int], opt_view(*query), false, opt_view(*query), false);
        }
        app_state.highlight_row(row, q, false);
        proof {
            let next = highlight_all(m.entries, rows@.take(i + 1), opt_view(*query), false);
            assert forall|x: usize| rows@.take(i + 1).contains(x) <==> (rows@.take(i as int).contains(x)
                || x == row) by {
                if rows@.take(i + 1).contains(x) {
                    let j = choose|j: int| 0 <= j < i + 1 && #[trigger] rows@.take(i + 1)[j] == x;
                    if j < i {
                        assert(rows@.take(i as int)[j] == x);
                    }
                }
                if rows@.take(i as int).contains(x) {
                    let j = choose|j: int| 0 <= j < i && #[trigger] rows@.take(i as int)[j] == x;
                    assert(rows@.take(i + 1)[j] == x);
                }
                if x == row {
                    assert(rows@.take(i + 1)[i as int] == x);
                }
            }
            assert forall|x: int| 0 <= x < next.len() implies app_state.model().entries[x] == next[x] by {
                let ux = x as usize;
                assert(ux as int == x);
                assert(rows@.take(i + 1).contains(ux) <==> (rows@.take(i as int).contains(ux)
                    || ux == row));
                if x == row as int {
                    assert(before[x] == m.entries[x] || before[x] == m.entries[x].highlighted_for(opt_view(*query), false));
                }
            }
            assert(app_state.model().entries =~= next);
        }
        i = i + 1;
    }
    assert(rows@.take(rows@.len() as int) =~= rows@);
}

/// Applies a new content of the search field (see `after_query`).
pub fn rebuild_list(app_state: &mut AppState, search_text: &str)
    requires
        old(app_state).wf(),
    ensures
        final(app_state).wf(),
        final(app_state).model() == after_query(old(app_state).model(), search_text@),
{
    let ghost m = app_state.model();
    proof {
        lemma_all_rows_bounded(m.entries.len());
        lemma_matching_rows_bounded(m.entries, search_text@);
    }
    if search_text.is_empty() {
        let all = all_rows_vec(app_state.entries.len());
        highlight_rows(app_state, &all, &None);
        app_state.search_query = None;
        app_state.filtered_rows = SearchResults::Inactive;
        app_state.selected = None;
        proof {
            let cleared = AppModel {
                entries: highlight_all(m.entries, all_rows(m.entries.len()), None, false),
                query: None,
                results: ResultsModel::Inactive,
                selected: None,
                ..m
            };
            lemma_highlight_all_search_texts(m.entries, all_rows(m.entries.len()), None, false);
            lemma_relabel_keeps_inv(AppModel { query: None, results: ResultsModel::Inactive, selected: None, ..m }, cleared.entries);
            assert(app_state.model() == cleared);
        }
        app_state.select_first_row();
        return;
    }
    let ghost rs_spec = matching_rows(m.entries, search_text@);
    let rs: Vec<usize> = match find_cached(app_state, search_text) {
        Some(k) => {
            let rows = copy_rows(&app_state.search_cache[k].rows);
            assert(m.cache[k as int] == (
            app_state.search_cache@[k as int].query@,
            app_state.search_cache@[k as int].rows@,
            ));
            assert(m.cache[k as int].1 == matching_rows(m.entries, m.cache[k as int].0));
            assert(rows@ == rs_spec);
            rows
        },
        None => {
            let narrowing = match (&app_state.search_query, &app_state.filtered_rows) {
                (Some(p), SearchResults::Found(_)) => starts_with(search_text, p.as_str()),
                _ => false,
            };
            let base: Vec<usize> = if narrowing {
                match &app_state.filtered_rows {
                    SearchResults::Found(prs) => copy_rows(prs),
                    _ => Vec::new(),
                }
            } else {
                all_rows_vec(app_state.entries.len())
            };
            proof {
                if narrowing {
                    let p = m.query.unwrap();
                    lemma_matching_rows_bounded(m.entries, p);
                    lemma_filter_narrowing(m.entries, all_rows(m.entries.len()), p, search_text@);
                }
            }
            let found = scan_rows(app_state, &base, search_text);
            assert(found@ == rs_spec);
            let ghost before = app_state.model();
            app_state.search_cache.push(
                CachedSearch { query: String::from_str(search_text), rows: found.clone() },
            );
            if app_state.scan_count < u64::MAX {
                app_state.scan_count = app_state.scan_count + 1;
            }
            proof {
                let after = app_state.model();
                assert(after.cache =~= before.cache.push((search_text@, rs_spec)));
                assert forall|i: int, j: int|
                    0 <= i < after.cache.len() && 0 <= j < after.cache.len() && i != j implies #[trigger] after.cache[i].0
                    != #[trigger] after.cache[j].0 by {
                    if i == before.cache.len() {
                        assert(before.cache[j].0 == after.cache[j].0);
                    } else if j == before.cache.len() {
                        assert(before.cache[i].0 == after.cache[i].0);
                    }
                }
                assert forall|k: int| 0 <= k < after.cache.len() implies #[trigger] after.cache[k].1
                    == matching_rows(after.entries, after.cache[k].0) by {
                    if k < before.cache.len() {
                        assert(after.cache[k] == before.cache[k]);
                    }
                }
            }
            found
        },
    };
    let ghost m1 = app_state.model();
    assert(rs@ == rs_spec);
    let query = Some(String::from_str(search_text));
    highlight_rows(app_state, &rs, &query);
    let empty = rs.len() == 0;
    app_state.search_query = query;
    app_state.filtered_rows = if empty {
        SearchResults::Empty
    } else {
        SearchResults::Found(rs)
    };
    app_state.selected = None;
    proof {
        let es = highlight_all(m.entries, rs_spec, Some(search_text@), false);
        let base = AppModel {
            query: Some(search_text@),
            results: results_for(m.entries, Some(search_text@)),
            selected: None,
            ..m1
        };
        lemma_highlight_all_search_texts(m.entries, rs_spec, Some(search_text@), false);
        assert(base.inv());
        lemma_relabel_keeps_inv(base, es);
        assert(app_state.model() == AppModel { entries: es, ..base });
    }
    app_state.select_first_row();
}

/// The rows a query shows are exactly the rows that match it.
pub proof fn lemma_visible_after_query(m: AppModel, query: Seq<char>)
    requires
        m.inv(),
        query.len() > 0,
    ensures
        after_query(m, query).visible() == matching_rows(m.entries, query),
{
    lemma_after_query_inv(m, query);
    lemma_all_rows_bounded(m.entries.len());
    lemma_filter_rows_congruent_all(m.entries, after_query(m, query).entries, query);
}

proof fn lemma_filter_rows_congruent_all(a: Seq<EntryView>, b: Seq<EntryView>, query: Seq<char>)
    requires
        same_search_texts(a, b),
    ensures
        matching_rows(a, query) == matching_rows(b, query),
{
    lemma_all_rows_bounded(a.len());
    crate::app_state::lemma_filter_rows_congruent(a, b, all_rows(a.len()), query);
}

/// An entry whose search text holds a query matches it, whatever the case of
/// either.
pub proof fn lemma_substring_matches(e: EntryView, query: Seq<char>)
    requires
        contains(e.search_text(), query),
    ensures
        e.matches(query),
{
    lemma_contains_folds(e.search_text(), query);
}

/// Extending a query never shows a row that the shorter query left out, as
/// long as the loaded entries are the same.
pub proof fn lemma_narrowing_query_narrows_results(
    m: AppModel,
    later: AppModel,
    q1: Seq<char>,
    q2: Seq<char>,
)
    requires
        m.inv(),
        later.inv(),
        same_search_texts(m.entries, later.entries),
        is_prefix(q1, q2),
        q1.len() > 0,
    ensures
        forall|r: usize|
            after_query(later, q2).visible().contains(r) ==> after_query(m, q1).visible().contains(
                r,
            ),
{
    lemma_visible_after_query(m, q1);
    lemma_visible_after_query(later, q2);
    lemma_all_rows_bounded(m.entries.len());
    assert forall|r: usize|
        after_query(later, q2).visible().contains(r) implies after_query(m, q1).visible().contains(
        r,
    ) by {
        crate::app_state::lemma_filter_rows_members(later.entries, all_rows(later.entries.len()), q2, r);
        crate::app_state::lemma_filter_rows_members(m.entries, all_rows(m.entries.len()), q1, r);
        lemma_all_rows_contains(m.entries.len(), r);
        lemma_narrowing_keeps_containment(later.entries[r as int].search_text(), q1, q2);
    }
}

/// Searching the same query twice in a row shows the same rows; the second
/// time they come from the cache, with no scan.
pub proof fn lemma_repeated_query_uses_cache(m: AppModel, query: Seq<char>)
    requires
        m.inv(),
        query.len() > 0,
    ensures
        after_query(after_query(m, query), query).results == after_query(m, query).results,
        after_query(after_query(m, query), query).visible() == after_query(m, query).visible(),
        after_query(after_query(m, query), query).scans == after_query(m, query).scans,
        after_query(after_query(m, query), query).cache == after_query(m, query).cache,
{
    let m1 = after_query(m, query);
    lemma_after_query_inv(m, query);
    lemma_after_query_inv(m1, query);
    lemma_filter_rows_congruent_all(m.entries, m1.entries, query);
    if m.cached(query) {
        let k = choose|k: int| 0 <= k < m.cache.len() && #[trigger] m.cache[k].0 == query;
        assert(m1.cache[k].0 == query);
    } else {
        assert(m1.cache[m.cache.len() as int].0 == query);
    }
    assert(m1.cached(query));
}

/// Clearing the query shows every row again, in load order, and no row shows
/// emphasis.
pub proof fn lemma_clearing_restores_load_order(m: AppModel)
    requires
        m.inv(),
    ensures
        after_query(m, Seq::empty()).query is None,
        after_query(m, Seq::empty()).visible() == all_rows(m.entries.len()),
        after_query(m, Seq::empty()).entries.len() == m.entries.len(),
        forall|r: int|
            0 <= r < m.entries.len() ==> (#[trigger] after_query(m, Seq::empty()).entries[r]).is_plain(),
{
    let es = highlight_all(m.entries, all_rows(m.entries.len()), None, false);
    assert forall|r: int| 0 <= r < m.entries.len() implies (#[trigger] after_query(
        m,
        Seq::empty(),
    ).entries[r]).is_plain() by {
        lemma_all_rows_contains(m.entries.len(), r as usize);
        assert(es[r] == m.entries[r].highlighted_for(None, false));
        lemma_highlight_replaces(m.entries[r], None, false, None, false);
    }
}

} // verus!
