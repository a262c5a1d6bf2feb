//! Choosing a node: the selector groups on offer, the menu of a group's
//! nodes, and how a measured delay is graded.

use vstd::prelude::*;
use vstd::string::*;
use crate::numeral::{decimal, push_decimal};
use crate::order::{insertion_point, insertion_sort, sorted};
use crate::roster::{EntryView, ProxyEntry};
use crate::text::{lemma_str_order_is_strict_order, str_before, str_eq, str_order};

verus! {

/// Delays below this many milliseconds count as good.
pub const GOOD_DELAY: u64 = 200;

/// Delays below this many milliseconds still count as fair.
pub const FAIR_DELAY: u64 = 500;

/// How good a measured delay is.
#[derive(Clone, Copy, Debug, PartialEq, Eq, Structural)]
pub enum DelayGrade {
    Good,
    Fair,
    Poor,
}

/// The grade of a delay in milliseconds.
pub open spec fn grade_of(delay: u64) -> DelayGrade {
    if delay < GOOD_DELAY {
        DelayGrade::Good
    } else if delay < FAIR_DELAY {
        DelayGrade::Fair
    } else {
        DelayGrade::Poor
    }
}

/// The grade of a delay in milliseconds.
pub fn grade_delay(delay: u64) -> (grade: DelayGrade)
    ensures
        grade == grade_of(delay),
{
    if delay < GOOD_DELAY {
        DelayGrade::Good
    } else if delay < FAIR_DELAY {
        DelayGrade::Fair
    } else {
        DelayGrade::Poor
    }
}

/// A delay as it is shown: the number and the unit.
pub fn delay_text(delay: u64) -> (text: String)
    ensures
        text@ == decimal(delay as nat) + " ms"@,
{
    let mut text = String::new();
    push_decimal(&mut text, delay);
    text.append(" ms");
    assert(text@ =~= decimal(delay as nat) + " ms"@);
    text
}

/// The name of an entry that is a selector group; nothing for any other.
pub open spec fn selector_name(entry: EntryView) -> Option<Seq<char>> {
    if entry.1.proxy_type == "Selector"@ {
        Some(entry.0)
    } else {
        None
    }
}

/// The names of the selector groups among `entries`, in the order of strings.
pub open spec fn selector_names_of(entries: Seq<EntryView>) -> Seq<Seq<char>> {
    insertion_sort(entries.filter_map(|entry: EntryView| selector_name(entry)), str_order())
}

/// Where `name` goes into `names`.
fn insertion_index(names: &Vec<String>, name: &str) -> (at: usize)
    ensures
        at <= names.len(),
        at == insertion_point(names.deep_view(), name@, str_order()),
{
    let mut at = names.len();
    let ghost all = names.deep_view();
    proof {
        assert(all.take(at as int) =~= all);
    }
    while at > 0 && str_before(name, names[at - 1].as_str())
        invariant
            at <= names.len(),
            all == names.deep_view(),
            insertion_point(all, name@, str_order()) == insertion_point(
                all.take(at as int),
                name@,
                str_order(),
            ),
        decreases at,
    {
        proof {
            let head = all.take(at as int);
            assert(head.last() == all[at - 1]);
            assert(str_order()(name@, head.last()));
            assert(head.drop_last() =~= all.take(at - 1));
        }
        at -= 1;
    }
    proof {
        let head = all.take(at as int);
        if at > 0 {
            assert(head.last() == all[at - 1]);
            assert(!str_order()(name@, head.last()));
        }
    }
    at
}

/// The names of the selector groups that the API lists, sorted.
pub fn selector_names(proxies: &Vec<ProxyEntry>) -> (names: Vec<String>)
    ensures
        names.deep_view() == selector_names_of(proxies.deep_view()),
        sorted(names.deep_view(), str_order()),
{
    let mut names: Vec<String> = Vec::new();
    let ghost entries = proxies.deep_view();
    let ghost pick = |entry: EntryView| selector_name(entry);
    let mut i: usize = 0;
    proof {
        assert(entries.take(0) =~= Seq::empty());
        assert(names.deep_view() =~= Seq::empty());
    }
    while i < proxies.len()
        invariant
            i <= proxies.len(),
            entries == proxies.deep_view(),
            pick == |entry: EntryView| selector_name(entry),
            names.deep_view() == insertion_sort(entries.take(i as int).filter_map(pick), str_order()),
        decreases proxies.len() - i,
    {
        let entry = &proxies[i];
        proof {
            entries.lemma_filter_map_take_succ(pick, i as int);
            assert(entries[i as int] == entry.deep_view());
        }
        if str_eq(entry.1.proxy_type.as_str(), "Selector") {
            let at = insertion_index(&names, entry.0.as_str());
            let ghost before = names.deep_view();
            names.insert(at, entry.0.clone());
            proof {
                assert(names.deep_view() =~= before.insert(at as int, entry.0@));
                let selected = entries.take(i as int).filter_map(pick);
                let next = entries.take(i + 1).filter_map(pick);
                assert(next =~= selected.push(entry.0@));
                assert(next.drop_last() =~= selected);
                assert(next.last() == entry.0@);
            }
        }
        i += 1;
    }
    proof {
        assert(entries.take(i as int) =~= entries);
        lemma_str_order_is_strict_order();
        crate::order::lemma_insertion_sort_sorted(entries.filter_map(pick), str_order());
    }
    names
}

/// A node as the menu lists it: the node now selected is marked.
pub open spec fn node_label_of(node: Seq<char>, current: Seq<char>) -> Seq<char> {
    if node == current {
        node + " (当前)"@
    } else {
        node
    }
}

/// The menu of a group's nodes, the node now selected marked.
pub fn node_labels(all: &Vec<String>, current: &str) -> (labels: Vec<String>)
    ensures
        labels.deep_view() == all.deep_view().map_values(
            |node: Seq<char>| node_label_of(node, current@),
        ),
{
    let mut labels: Vec<String> = Vec::new();
    let mut i: usize = 0;
    while i < all.len()
        invariant
            i <= all.len(),
            labels.len() == i,
            forall|j: int| 0 <= j < i ==> (#[trigger] labels@[j])@ == node_label_of(all@[j]@, current@),
        decreases all.len() - i,
    {
        let mut label = all[i].clone();
        if str_eq(all[i].as_str(), current) {
            label.append(" (当前)");
        }
        labels.push(label);
        i += 1;
    }
    assert(labels.deep_view() =~= all.deep_view().map_values(
        |node: Seq<char>| node_label_of(node, current@),
    ));
    labels
}

/// The entry of the menu that is offered first: the node now selected, or
/// the first node where none of them is.
pub fn default_index(all: &Vec<String>, current: &str) -> (index: usize)
    ensures
        all.deep_view().contains(current@) ==> index < all.len() && all@[index as int]@ == current@
            && forall|j: int| 0 <= j < index ==> all@[j]@ != current@,
        !all.deep_view().contains(current@) ==> index == 0,
{
    let mut i: usize = 0;
    while i < all.len()
        invariant
            i <= all.len(),
            forall|j: int| 0 <= j < i ==> all@[j]@ != current@,
        decreases all.len() - i,
    {
        if str_eq(all[i].as_str(), current) {
            assert(all.deep_view()[i as int] == current@);
            return i;
        }
        i += 1;
    }
    proof {
        if all.deep_view().contains(current@) {
            let k = choose|k: int| 0 <= k < all.deep_view().len() && all.deep_view()[k] == current@;
            assert(all@[k]@ == current@);
        }
    }
    0
}

} // verus!
