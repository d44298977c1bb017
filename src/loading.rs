//! Growing the list: entries come in two batches, a short first one for a
//! quick start and the rest of the history once the selection reaches the end
//! of the list.

use vstd::prelude::*;
use crate::app_state::{
    all_rows, entry_views, filter_rows, highlight_all, lemma_all_rows_bounded,
    lemma_matching_rows_bounded, matching_rows, results_for, AppModel,
    AppState, ResultsModel, SearchResults,
};
use crate::entry::{ClipboardEntry, EntryView};
use crate::search::{highlight_rows, scan_rows};

verus! {

/// The rows `start..end`.
pub open spec fn rows_from(start: nat, end: nat) -> Seq<usize> {
    Seq::new((end - start) as nat, |i: int| (start + i) as usize)
}

/// The state after `added` entries join the list: each gets the next row;
/// while a search is active, those that match it join its results and are
/// highlighted. The cache is emptied, as it describes the list before.
pub open spec fn after_append(m: AppModel, added: Seq<EntryView>) -> AppModel {
    let n = m.entries.len();
    let es = m.entries + added;
    let es2 = match m.query {
        Some(q) => highlight_all(es, filter_rows(es, rows_from(n, es.len()), q), Some(q), false),
        None => es,
    };
    AppModel { entries: es2, results: results_for(es, m.query), cache: Seq::empty(), ..m }
}

/// The list should grow: the rest of the history is not loaded yet and the
/// last row of the list is selected.
pub open spec fn needs_full_load(m: AppModel) -> bool {
    &&& !m.all_loaded
    &&& m.visible().len() > 0
    &&& m.selected == Some((m.visible().len() - 1) as usize)
}

/// The state after the full history `fresh` is loaded: the entries beyond
/// those already loaded join the list, once.
pub open spec fn after_load(m: AppModel, fresh: Seq<EntryView>) -> AppModel {
    if m.all_loaded {
        m
    } else {
        let n = m.entries.len();
        let added = if fresh.len() > n {
            fresh.subrange(n as int, fresh.len() as int)
        } else {
            Seq::empty()
        };
        AppModel { all_loaded: true, ..after_append(m, added) }
    }
}

/// Keeping rows distributes over joining lists of rows.
pub proof fn lemma_filter_rows_append(es: Seq<EntryView>, a: Seq<usize>, b: Seq<usize>, q: Seq<char>)
    ensures
        filter_rows(es, a + b, q) == filter_rows(es, a, q) + filter_rows(es, b, q),
    decreases b.len(),
{
    if b.len() == 0 {
        assert(a + b =~= a);
        assert(filter_rows(es, a, q) + filter_rows(es, b, q) =~= filter_rows(es, a, q));
    } else {
        assert((a + b).drop_last() =~= a + b.drop_last());
        assert((a + b).last() == b.last());
        lemma_filter_rows_append(es, a, b.drop_last(), q);
        if es[b.last() as int].matches(q) {
            assert(filter_rows(es, a, q) + filter_rows(es, b.drop_last(), q).push(b.last()) =~= (
            filter_rows(es, a, q) + filter_rows(es, b.drop_last(), q)).push(b.last()));
        }
    }
}

/// Searching rows whose entries agree gives the same rows.
pub proof fn lemma_filter_rows_agree(
    a: Seq<EntryView>,
    b: Seq<EntryView>,
    base: Seq<usize>,
    q: Seq<char>,
)
    requires
        a.len() <= b.len(),
        forall|r: int| 0 <= r < a.len() ==> a[r] == b[r],
        forall|k: int| 0 <= k < base.len() ==> (#[trigger] base[k]) < a.len(),
    ensures
        filter_rows(a, base, q) == filter_rows(b, base, q),
    decreases base.len(),
{
    if base.len() > 0 {
        lemma_filter_rows_agree(a, b, base.drop_last(), q);
        assert(a[base.last() as int] == b[base.last() as int]);
    }
}

/// The search results once rows `n..` join the list.
proof fn lemma_matching_rows_grow(old_es: Seq<EntryView>, added: Seq<EntryView>, q: Seq<char>)
    ensures
        matching_rows(old_es + added, q) == matching_rows(old_es, q) + filter_rows(
            old_es + added,
            rows_from(old_es.len(), (old_es + added).len()),
            q,
        ),
{
    let es = old_es + added;
    let n = old_es.len();
    assert(all_rows(es.len()) =~= all_rows(n) + rows_from(n, es.len()));
    lemma_filter_rows_append(es, all_rows(n), rows_from(n, es.len()), q);
    lemma_all_rows_bounded(n);
    lemma_filter_rows_agree(old_es, es, all_rows(n), q);
}

/// Adds `entries` to the list, each under the next row, and returns their
/// rows. While a search is active, those that match it join its results,
/// highlighted.
pub fn append_to_list_view(app_state: &mut AppState, entries: Vec<ClipboardEntry>) -> (r: Vec<usize>)
    requires
        old(app_state).wf(),
        forall|k: int| 0 <= k < entries@.len() ==> (#[trigger] entries@[k]).wf(),
    ensures
        final(app_state).wf(),
        final(app_state).model() == after_append(old(app_state).model(), entry_views(entries@)),
        r@ == rows_from(old(app_state).model().entries.len(), final(app_state).model().entries.len()),
{
    let ghost m = app_state.model();
    let ghost added = entry_views(entries@);
    let n = app_state.entries.len();
    let mut entries = entries;
    app_state.entries.append(&mut entries);
    let total = app_state.entries.len();
    let query = match &app_state.search_query {
        Some(q) => Some(q.clone()),
        None => None,
    };
    let previous: Option<Vec<usize>> = match &app_state.filtered_rows {
        SearchResults::Found(rs) => Some(crate::search::copy_rows(rs)),
        _ => None,
    };
    let previous_empty = match &app_state.filtered_rows {
        SearchResults::Empty => true,
        _ => false,
    };
    app_state.filtered_rows = SearchResults::Inactive;
    app_state.search_query = None;
    app_state.search_cache = Vec::new();
    let ghost es = m.entries + added;
    proof {
        assert(entry_views(app_state.entries@) =~= es);
        lemma_all_rows_bounded(n as nat);
        lemma_all_rows_bounded(total as nat);
        match m.results {
            ResultsModel::Found(rs) => {
                let q = m.query.unwrap();
                lemma_matching_rows_bounded(m.entries, q);
                crate::app_state::lemma_filter_rows_subset(m.entries, all_rows(n as nat), q);
            },
            _ => {},
        }
        assert(app_state.model().cache =~= Seq::<(Seq<char>, Seq<usize>)>::empty());
        assert(app_state.model().inv());
    }
    let mut new_rows: Vec<usize> = Vec::new();
    let mut i: usize = n;
    while i < total
        invariant
            n <= i <= total,
            total == app_state.entries@.len(),
            new_rows@ == rows_from(n as nat, i as nat),
        decreases total - i,
    {
        new_rows.push(i);
        assert(new_rows@ =~= rows_from(n as nat, (i + 1) as nat));
        i = i + 1;
    }
    match query {
        Some(q) => {
            let found = scan_rows(app_state, &new_rows, q.as_str());
            proof {
                lemma_matching_rows_grow(m.entries, added, q@);
                crate::app_state::lemma_filter_rows_subset(es, new_rows@, q@);
            }
            let results = match previous {
                Some(rs) => {
                    let mut rs = rs;
                    let mut more = crate::search::copy_rows(&found);
                    rs.append(&mut more);
                    SearchResults::Found(rs)
                },
                _ => if found.len() == 0 {
                    SearchResults::Empty
                } else {
                    SearchResults::Found(crate::search::copy_rows(&found))
                },
            };
            app_state.filtered_rows = results;
            app_state.search_query = Some(q);
            let ghost mid = app_state.model();
            proof {
                assert(mid.results == results_for(es, m.query));
                assert(mid.inv());
            }
            let tagged = Some(app_state.search_query.as_ref().unwrap().clone());
            highlight_rows(app_state, &found, &tagged);
            proof {
                assert(app_state.model() =~= after_append(m, added));
            }
        },
        None => {
            assert(previous is None && !previous_empty);
            proof {
                assert(app_state.model() =~= after_append(m, added));
            }
        },
    }
    new_rows
}

/// Whether the list should grow now: the rest of the history is not loaded
/// and the last row is selected.
pub fn load_all_entries_if_reached_end(app_state: &AppState) -> (r: bool)
    requires
        app_state.wf(),
    ensures
        r == needs_full_load(app_state.model()),
{
    if app_state.all_entries_loaded() {
        return false;
    }
    let len = app_state.visible_len();
    match app_state.selected_position() {
        Some(p) => len > 0 && p == len - 1,
        None => false,
    }
}

/// Loads the rest of the history, once: of the full list `fetched`, the
/// entries beyond those already loaded join the list. Returns their rows.
pub fn load_all_entries(app_state: &mut AppState, fetched: Vec<ClipboardEntry>) -> (r: Vec<usize>)
    requires
        old(app_state).wf(),
        forall|k: int| 0 <= k < fetched@.len() ==> (#[trigger] fetched@[k]).wf(),
    ensures
        final(app_state).wf(),
        final(app_state).model() == after_load(old(app_state).model(), entry_views(fetched@)),
        r@ == rows_from(old(app_state).model().entries.len(), final(app_state).model().entries.len()),
{
    let ghost m = app_state.model();
    if app_state.all_entries_loaded {
        assert(rows_from(m.entries.len(), m.entries.len()) =~= Seq::<usize>::empty());
        return Vec::new();
    }
    let n = app_state.entries.len();
    let ghost fresh = entry_views(fetched@);
    let mut fetched = fetched;
    let rest = if fetched.len() > n {
        fetched.split_off(n)
    } else {
        Vec::new()
    };
    proof {
        if fresh.len() > n {
            assert(entry_views(rest@) =~= fresh.subrange(n as int, fresh.len() as int));
        } else {
            assert(entry_views(rest@) =~= Seq::<EntryView>::empty());
        }
    }
    let rows = append_to_list_view(app_state, rest);
    app_state.all_entries_loaded = true;
    rows
}

} // verus!
