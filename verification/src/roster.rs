//! The roster: the proxy groups shown on the dashboard, in display order.

use vstd::prelude::*;
use vstd::string::*;
use vstd::utf8::encode_utf8;
use crate::api::{History, HistoryView, ProxyItem, ProxyItemView};
use crate::event::{AppEvent, EventView, ProxyRow, RowView};
use crate::numeral::{decimal, decimal_string};
use crate::order::{
    insertion_point, insertion_sort, is_strict_order, lemma_filter_map_permutes,
    lemma_insertion_sort_permutes, lemma_insertion_sort_sorted, lemma_sorted_is_unique, sorted,
    totally_ordered,
};
use crate::text::{lemma_lex_lt_transitive, lemma_str_lt_total, str_before, str_eq, str_lt};

verus! {

/// A proxy as the API lists it: the name it is listed under, and the record.
pub type ProxyEntry = (String, ProxyItem);

/// What a [`ProxyEntry`] is in contracts.
pub type EntryView = (Seq<char>, ProxyItemView);

/// The name of the group that is always shown first.
pub open spec fn global_name() -> Seq<char> {
    "GLOBAL"@
}

/// The kinds of proxy that are groups with a selection: selectors and
/// automatic tests.
pub open spec fn is_group_kind(kind: Seq<char>) -> bool {
    kind == "Selector"@ || kind == "URLTest"@
}

/// The latest latency sample, or 0 where there is none yet.
pub open spec fn latest_delay(history: Option<Seq<HistoryView>>) -> u64 {
    match history {
        Some(samples) => if samples.len() > 0 {
            samples.last().delay
        } else {
            0
        },
        None => 0,
    }
}

/// The row shown for a group: its name, its selected node (empty where none is
/// selected), and its latest delay as a decimal numeral.
pub open spec fn row_of(entry: EntryView) -> RowView {
    (
        entry.0,
        match entry.1.now {
            Some(now) => now,
            None => Seq::empty(),
        },
        decimal(latest_delay(entry.1.history) as nat),
    )
}

/// The row of an entry that is a group; nothing for any other entry.
pub open spec fn group_row(entry: EntryView) -> Option<RowView> {
    if is_group_kind(entry.1.proxy_type) {
        Some(row_of(entry))
    } else {
        None
    }
}

/// The rows of the groups among `entries`, in the order of `entries`.
pub open spec fn select_rows(entries: Seq<EntryView>) -> Seq<RowView> {
    entries.filter_map(|entry: EntryView| group_row(entry))
}

/// Display order of group names: `GLOBAL` before every other name, the others
/// in the order of strings.
pub open spec fn name_before(a: Seq<char>, b: Seq<char>) -> bool {
    if a == global_name() {
        b != global_name()
    } else {
        b != global_name() && str_lt(a, b)
    }
}

/// Display order of rows: that of their names.
pub open spec fn row_before() -> spec_fn(RowView, RowView) -> bool {
    |a: RowView, b: RowView| name_before(a.0, b.0)
}

/// No row stands before one whose name sorts before its own.
pub open spec fn rows_sorted(rows: Seq<RowView>) -> bool {
    sorted(rows, row_before())
}

/// The roster made from what the API lists: the rows of the groups, in display
/// order; rows of one name keep the order they were listed in.
pub open spec fn roster_of(entries: Seq<EntryView>) -> Seq<RowView> {
    insertion_sort(select_rows(entries), row_before())
}

/// The display order of names is transitive.
pub proof fn lemma_name_before_transitive(a: Seq<char>, b: Seq<char>, c: Seq<char>)
    requires
        name_before(a, b),
        name_before(b, c),
    ensures
        name_before(a, c),
{
    if a != global_name() {
        lemma_lex_lt_transitive(encode_utf8(a), encode_utf8(b), encode_utf8(c));
    }
}

/// Of two different names one sorts before the other.
pub proof fn lemma_name_before_total(a: Seq<char>, b: Seq<char>)
    ensures
        name_before(a, b) || name_before(b, a) || a == b,
{
    if a != global_name() && b != global_name() {
        lemma_str_lt_total(a, b);
    }
}

/// The display order of rows is a strict order.
pub proof fn lemma_row_before_is_strict_order()
    ensures
        is_strict_order(row_before()),
{
    let before = row_before();
    assert forall|a: RowView, b: RowView, c: RowView| #[trigger]
        before(a, b) && #[trigger] before(b, c) implies before(a, c) by {
        lemma_name_before_transitive(a.0, b.0, c.0);
    }
    assert forall|a: RowView, b: RowView, c: RowView|
        !#[trigger] before(a, b) && !#[trigger] before(b, c) implies !before(a, c) by {
        if name_before(a.0, c.0) {
            lemma_name_before_total(a.0, b.0);
            if name_before(b.0, a.0) {
                lemma_name_before_transitive(b.0, a.0, c.0);
            }
        }
    }
}

/// The row of every group among `entries` is among the selected rows.
proof fn lemma_select_rows_contains(entries: Seq<EntryView>, i: int)
    requires
        0 <= i < entries.len(),
        is_group_kind(entries[i].1.proxy_type),
    ensures
        select_rows(entries).contains(row_of(entries[i])),
    decreases entries.len(),
{
    let pick = |entry: EntryView| group_row(entry);
    let rest = entries.drop_last();
    if i == entries.len() - 1 {
        let rows = rest.filter_map(pick) + seq![row_of(entries[i])];
        assert(select_rows(entries) == rows);
        assert(rows[rows.len() - 1] == row_of(entries[i]));
    } else {
        lemma_select_rows_contains(rest, i);
        let k = choose|k: int|
            0 <= k < select_rows(rest).len() && select_rows(rest)[k] == row_of(entries[i]);
        match group_row(entries.last()) {
            Some(row) => {
                assert(select_rows(entries) == select_rows(rest) + seq![row]);
                assert(select_rows(entries)[k] == row_of(entries[i]));
            },
            None => {
                assert(select_rows(entries) == select_rows(rest));
            },
        }
    }
}

/// The roster is in display order whatever the order of the entries: where a
/// group named `GLOBAL` is among them it comes first, and the groups of other
/// names follow in ascending order of their names. The roster holds the rows
/// of the groups, each as often as it was listed.
pub proof fn lemma_roster_order(entries: Seq<EntryView>)
    ensures
        rows_sorted(roster_of(entries)),
        roster_of(entries).to_multiset() == select_rows(entries).to_multiset(),
        (exists|i: int|
            0 <= i < entries.len() && #[trigger] entries[i].0 == global_name() && is_group_kind(
                entries[i].1.proxy_type,
            )) ==> roster_of(entries).len() > 0 && roster_of(entries)[0].0 == global_name(),
        forall|i: int, j: int|
            0 <= i < j < roster_of(entries).len() && #[trigger] roster_of(entries)[i].0
                != global_name() ==> #[trigger] roster_of(entries)[j].0 != global_name() && !str_lt(
                roster_of(entries)[j].0,
                roster_of(entries)[i].0,
            ),
{
    let selected = select_rows(entries);
    let roster = roster_of(entries);
    lemma_row_before_is_strict_order();
    lemma_insertion_sort_sorted(selected, row_before());
    lemma_insertion_sort_permutes(selected, row_before());
    if exists|i: int|
        0 <= i < entries.len() && #[trigger] entries[i].0 == global_name() && is_group_kind(
            entries[i].1.proxy_type,
        ) {
        let i = choose|i: int|
            0 <= i < entries.len() && #[trigger] entries[i].0 == global_name() && is_group_kind(
                entries[i].1.proxy_type,
            );
        let row = row_of(entries[i]);
        lemma_select_rows_contains(entries, i);
        selected.to_multiset_ensures();
        roster.to_multiset_ensures();
        assert(selected.to_multiset().count(row) > 0);
        assert(roster.to_multiset().count(row) > 0);
        let j = choose|j: int| 0 <= j < roster.len() && roster[j] == row;
        if j > 0 {
            assert(!row_before()(roster[j], roster[0]));
        }
    }
    assert forall|i: int, j: int|
        0 <= i < j < roster.len() && #[trigger] roster[i].0 != global_name() implies #[trigger] roster[j].0
        != global_name() && !str_lt(roster[j].0, roster[i].0) by {
        assert(!row_before()(roster[j], roster[i]));
    }
}

/// The roster does not depend on the order in which the API lists the
/// proxies, as long as no two groups are listed under one name: two listings
/// of the same entries give the same roster.
pub proof fn lemma_roster_ignores_listing_order(a: Seq<EntryView>, b: Seq<EntryView>)
    requires
        a.to_multiset() == b.to_multiset(),
        forall|i: int, j: int|
            0 <= i < j < select_rows(a).len() ==> #[trigger] select_rows(a)[i].0
                != #[trigger] select_rows(a)[j].0,
    ensures
        roster_of(a) == roster_of(b),
{
    let pick = |entry: EntryView| group_row(entry);
    let rows = select_rows(a);
    let x = roster_of(a);
    let y = roster_of(b);
    lemma_filter_map_permutes(a, b, pick);
    lemma_row_before_is_strict_order();
    lemma_insertion_sort_sorted(rows, row_before());
    lemma_insertion_sort_sorted(select_rows(b), row_before());
    lemma_insertion_sort_permutes(rows, row_before());
    lemma_insertion_sort_permutes(select_rows(b), row_before());
    rows.to_multiset_ensures();
    x.to_multiset_ensures();
    assert(totally_ordered(x, row_before())) by {
        assert forall|i: int, j: int|
            0 <= i < x.len() && 0 <= j < x.len() && #[trigger] x[i] != #[trigger] x[j] implies row_before()(
            x[i],
            x[j],
        ) || row_before()(x[j], x[i]) by {
            assert(x.contains(x[i]) && x.contains(x[j]));
            assert(rows.to_multiset().count(x[i]) > 0);
            assert(rows.to_multiset().count(x[j]) > 0);
            let m = choose|m: int| 0 <= m < rows.len() && rows[m] == x[i];
            let n = choose|n: int| 0 <= n < rows.len() && rows[n] == x[j];
            assert(m != n);
            if m < n {
                assert(rows[m].0 != rows[n].0);
            } else {
                assert(rows[n].0 != rows[m].0);
            }
            lemma_name_before_total(x[i].0, x[j].0);
        }
    }
    lemma_sorted_is_unique(x, y, row_before());
}

/// Whether a group named `a` is shown before one named `b`.
pub fn sorts_before(a: &str, b: &str) -> (before: bool)
    ensures
        before == name_before(a@, b@),
{
    if str_eq(a, "GLOBAL") {
        !str_eq(b, "GLOBAL")
    } else if str_eq(b, "GLOBAL") {
        false
    } else {
        str_before(a, b)
    }
}

/// Whether a proxy of this kind is a group with a selection.
pub fn is_group(kind: &str) -> (group: bool)
    ensures
        group == is_group_kind(kind@),
{
    str_eq(kind, "Selector") || str_eq(kind, "URLTest")
}

/// The delay shown for a proxy: its latest sample, or `0` for "no data yet".
pub fn delay_label(history: &Option<Vec<History>>) -> (label: String)
    ensures
        label@ == decimal(latest_delay(history.deep_view()) as nat),
{
    let delay = match history {
        Some(samples) => {
            if samples.len() > 0 {
                samples[samples.len() - 1].delay
            } else {
                0
            }
        },
        None => 0,
    };
    decimal_string(delay)
}

/// The row shown for the group `item` that the API lists under `name`.
pub fn proxy_row(name: &String, item: &ProxyItem) -> (row: ProxyRow)
    ensures
        row.deep_view() == row_of((name@, item.deep_view())),
{
    let now = match &item.now {
        Some(now) => now.clone(),
        None => String::new(),
    };
    (name.clone(), now, delay_label(&item.history))
}

/// Where `row` goes into `rows`.
fn insertion_index(rows: &Vec<ProxyRow>, row: &ProxyRow) -> (at: usize)
    ensures
        at <= rows.len(),
        at == insertion_point(rows.deep_view(), row.deep_view(), row_before()),
{
    let mut at = rows.len();
    let ghost all = rows.deep_view();
    let ghost new = row.deep_view();
    proof {
        assert(all.take(at as int) =~= all);
    }
    while at > 0 && sorts_before(row.0.as_str(), rows[at - 1].0.as_str())
        invariant
            at <= rows.len(),
            all == rows.deep_view(),
            new == row.deep_view(),
            insertion_point(all, new, row_before()) == insertion_point(
                all.take(at as int),
                new,
                row_before(),
            ),
        decreases at,
    {
        proof {
            let head = all.take(at as int);
            assert(head.last() == all[at - 1]);
            assert(row_before()(new, head.last()));
            assert(head.drop_last() =~= all.take(at - 1));
        }
        at -= 1;
    }
    proof {
        let head = all.take(at as int);
        if at > 0 {
            assert(head.last() == all[at - 1]);
            assert(!row_before()(new, head.last()));
        }
    }
    at
}

/// Builds the roster from what the API lists: keeps the groups, gives each its
/// row, and puts the rows in display order.
pub fn build_roster(proxies: &Vec<ProxyEntry>) -> (rows: Vec<ProxyRow>)
    ensures
        rows.deep_view() == roster_of(proxies.deep_view()),
        rows_sorted(rows.deep_view()),
{
    let mut rows: Vec<ProxyRow> = Vec::new();
    let ghost entries = proxies.deep_view();
    let mut i: usize = 0;
    proof {
        assert(entries.take(0) =~= Seq::empty());
        assert(rows.deep_view() =~= Seq::empty());
    }
    while i < proxies.len()
        invariant
            i <= proxies.len(),
            entries == proxies.deep_view(),
            rows.deep_view() == roster_of(entries.take(i as int)),
        decreases proxies.len() - i,
    {
        let entry = &proxies[i];
        proof {
            entries.lemma_filter_map_take_succ(|entry: EntryView| group_row(entry), i as int);
            assert(entries[i as int] == entry.deep_view());
        }
        if is_group(entry.1.proxy_type.as_str()) {
            let row = proxy_row(&entry.0, &entry.1);
            let at = insertion_index(&rows, &row);
            let ghost before = rows.deep_view();
            rows.insert(at, row);
            proof {
                assert(rows.deep_view() =~= before.insert(at as int, row.deep_view()));
                let selected = select_rows(entries.take(i as int));
                let next = select_rows(entries.take(i + 1));
                assert(next =~= selected.push(row.deep_view()));
                assert(next.drop_last() =~= selected);
                assert(next.last() == row.deep_view());
            }
        }
        i += 1;
    }
    proof {
        assert(entries.take(i as int) =~= entries);
        lemma_row_before_is_strict_order();
        lemma_insertion_sort_sorted(select_rows(entries), row_before());
    }
    rows
}

/// What the roster source sends after one poll: the roster, or nothing when
/// the query failed, so that the rows on display stay until the next poll.
pub fn roster_event(polled: Option<Vec<ProxyEntry>>) -> (event: Option<AppEvent>)
    ensures
        match polled {
            Some(proxies) => event.is_some() && event.unwrap()@ == EventView::Roster(
                roster_of(proxies.deep_view()),
            ),
            None => event.is_none(),
        },
{
    match polled {
        Some(proxies) => Some(AppEvent::Roster(build_roster(&proxies))),
        None => None,
    }
}

/// The first entry that the API lists under `name`.
pub open spec fn named_entry(entries: Seq<EntryView>, name: Seq<char>) -> Option<ProxyItemView>
    decreases entries.len(),
{
    if entries.len() == 0 {
        None
    } else if entries[0].0 == name {
        Some(entries[0].1)
    } else {
        named_entry(entries.drop_first(), name)
    }
}

/// The first entry that the API lists under `name`.
pub fn find_proxy<'a>(proxies: &'a Vec<ProxyEntry>, name: &str) -> (found: Option<&'a ProxyItem>)
    ensures
        found.deep_view() == named_entry(proxies.deep_view(), name@),
{
    let ghost entries = proxies.deep_view();
    let mut i: usize = 0;
    proof {
        assert(entries.skip(0) =~= entries);
    }
    while i < proxies.len()
        invariant
            i <= proxies.len(),
            entries == proxies.deep_view(),
            named_entry(entries, name@) == named_entry(entries.skip(i as int), name@),
        decreases proxies.len() - i,
    {
        proof {
            let rest = entries.skip(i as int);
            assert(rest[0] == proxies@[i as int].deep_view());
            assert(rest.drop_first() =~= entries.skip(i + 1));
        }
        if str_eq(proxies[i].0.as_str(), name) {
            return Some(&proxies[i].1);
        }
        i += 1;
    }
    None
}

} // verus!
