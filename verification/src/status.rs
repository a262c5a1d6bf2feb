//! The status overview: the inbound mode, the current rates, the memory in
//! use, and each group's selection with the delay of the selected node.

use vstd::prelude::*;
use vstd::string::*;
use vstd::utf8::encode_utf8;
use crate::api::{Config, ProxyItem, ProxyItemView};
use crate::event::RowView;
use crate::numeral::{
    decimal, lemma_nearest_double_exact, nearest_double, one_decimal, parse_u64, parse_unsigned,
    push_decimal, push_one_decimal, push_two_decimals, round_half_even, scaled_quotient,
    two_decimals, KIB, MIB,
};
use crate::roster::{
    build_roster, find_proxy, latest_delay, named_entry, roster_of, EntryView, ProxyEntry,
};
use crate::text::str_eq;

verus! {

/// A rate in bytes per second as the overview shows it: in bytes below 1024,
/// in KB below 1024 * 1024, in MB from there on, the last two with two
/// decimal places.
pub open spec fn speed_text(speed: u64) -> Seq<char> {
    if speed < KIB {
        decimal(speed as nat) + " B/s"@
    } else if speed < MIB {
        two_decimals(round_half_even(speed as nat * 100, KIB as nat)) + " KB/s"@
    } else {
        two_decimals(round_half_even(nearest_double(speed as nat) * 100, MIB as nat)) + " MB/s"@
    }
}

/// A rate in bytes per second as the overview shows it.
pub fn format_speed(speed: u64) -> (text: String)
    ensures
        text@ == speed_text(speed),
{
    let mut text = String::new();
    if speed < KIB {
        push_decimal(&mut text, speed);
        text.append(" B/s");
        assert(text@ =~= speed_text(speed));
    } else if speed < MIB {
        let hundredths = scaled_quotient(speed, 100, KIB);
        proof {
            lemma_nearest_double_exact(speed as nat);
        }
        push_two_decimals(&mut text, hundredths);
        text.append(" KB/s");
        assert(text@ =~= speed_text(speed));
    } else {
        let hundredths = scaled_quotient(speed, 100, MIB);
        push_two_decimals(&mut text, hundredths);
        text.append(" MB/s");
        assert(text@ =~= speed_text(speed));
    }
    text
}

/// The memory in use as the overview shows it, from the resident set size
/// in KB as the process table gives it: in MB with one decimal place.
/// Nothing where the size is no numeral.
pub open spec fn memory_text(rss_kb: Seq<char>) -> Option<Seq<char>> {
    match parse_unsigned(encode_utf8(rss_kb)) {
        Some(kb) => Some(
            one_decimal(round_half_even(nearest_double(kb as nat) * 10, KIB as nat)) + " MB"@,
        ),
        None => None,
    }
}

/// The memory in use as the overview shows it.
pub fn memory_label(rss_kb: &str) -> (label: Option<String>)
    ensures
        label.deep_view() == memory_text(rss_kb@),
{
    match parse_u64(rss_kb) {
        Some(kb) => {
            let mut label = String::new();
            push_one_decimal(&mut label, scaled_quotient(kb, 10, KIB));
            label.append(" MB");
            assert(label@ =~= memory_text(rss_kb@).unwrap());
            Some(label)
        },
        None => None,
    }
}

/// Whether the service manager calls the service active.
pub fn is_active(state: &str) -> (active: bool)
    ensures
        active == (state@ == "active"@),
{
    str_eq(state, "active")
}

/// Whether the configuration has the virtual interface switched on.
pub fn tun_enabled(config: &Config) -> (enabled: bool)
    ensures
        enabled == (config.tun.is_some() && config.tun.unwrap().enable),
{
    match &config.tun {
        Some(tun) => tun.enable,
        None => false,
    }
}

/// What is known of the delay of a group's selected node.
#[derive(Clone, Copy, Debug, PartialEq, Eq, Structural)]
pub enum NodeDelay {
    /// The API lists no proxy of that name.
    Unknown,
    /// The node has no sample yet, or its latest one is 0.
    NoData,
    /// The node's latest sample, in milliseconds.
    Millis(u64),
}

/// What is known of the delay of a node.
pub open spec fn node_delay_of(node: Option<ProxyItemView>) -> NodeDelay {
    match node {
        Some(item) => if latest_delay(item.history) == 0 {
            NodeDelay::NoData
        } else {
            NodeDelay::Millis(latest_delay(item.history))
        },
        None => NodeDelay::Unknown,
    }
}

/// One line of the overview's group list.
#[derive(Clone, Debug, PartialEq, Eq)]
pub struct GroupStatus {
    pub name: String,
    /// The node that the group has selected.
    pub now: String,
    pub delay: NodeDelay,
}

/// What a [`GroupStatus`] is in contracts.
pub struct GroupStatusView {
    pub name: Seq<char>,
    pub now: Seq<char>,
    pub delay: NodeDelay,
}

impl DeepView for GroupStatus {
    type V = GroupStatusView;

    open spec fn deep_view(&self) -> GroupStatusView {
        GroupStatusView { name: self.name@, now: self.now@, delay: self.delay }
    }
}

impl View for GroupStatus {
    type V = GroupStatusView;

    open spec fn view(&self) -> GroupStatusView {
        self.deep_view()
    }
}

/// The overview's line for the group of a roster row: its selection and the
/// delay of the selected node. Nothing for a group without a selection.
pub open spec fn status_of(entries: Seq<EntryView>, row: RowView) -> Option<GroupStatusView> {
    match named_entry(entries, row.0) {
        Some(group) => match group.now {
            Some(now) => Some(
                GroupStatusView {
                    name: row.0,
                    now,
                    delay: node_delay_of(named_entry(entries, now)),
                },
            ),
            None => None,
        },
        None => None,
    }
}

/// The overview's group list: the groups that have a selection, in the
/// order of the roster.
pub open spec fn group_statuses_of(entries: Seq<EntryView>) -> Seq<GroupStatusView> {
    roster_of(entries).filter_map(|row: RowView| status_of(entries, row))
}

/// What is known of the delay of a node.
pub fn node_delay(node: Option<&ProxyItem>) -> (delay: NodeDelay)
    ensures
        delay == node_delay_of(node.deep_view()),
{
    match node {
        Some(item) => {
            let latest = match &item.history {
                Some(samples) => {
                    if samples.len() > 0 {
                        samples[samples.len() - 1].delay
                    } else {
                        0
                    }
                },
                None => 0,
            };
            if latest == 0 {
                NodeDelay::NoData
            } else {
                NodeDelay::Millis(latest)
            }
        },
        None => NodeDelay::Unknown,
    }
}

/// The overview's group list.
pub fn group_statuses(proxies: &Vec<ProxyEntry>) -> (statuses: Vec<GroupStatus>)
    ensures
        statuses.deep_view() == group_statuses_of(proxies.deep_view()),
{
    let rows = build_roster(proxies);
    let ghost entries = proxies.deep_view();
    let ghost all = rows.deep_view();
    let ghost pick = |row: RowView| status_of(entries, row);
    let mut statuses: Vec<GroupStatus> = Vec::new();
    let mut i: usize = 0;
    proof {
        assert(all.take(0) =~= Seq::empty());
        assert(statuses.deep_view() =~= Seq::empty());
    }
    while i < rows.len()
        invariant
            i <= rows.len(),
            entries == proxies.deep_view(),
            all == rows.deep_view(),
            pick == |row: RowView| status_of(entries, row),
            statuses.deep_view() == all.take(i as int).filter_map(pick),
        decreases rows.len() - i,
    {
        let ghost done = statuses.deep_view();
        proof {
            all.lemma_filter_map_take_succ(pick, i as int);
            assert(all[i as int] == rows@[i as int].deep_view());
        }
        match find_proxy(proxies, rows[i].0.as_str()) {
            Some(group) => match &group.now {
                Some(now) => {
                    let delay = node_delay(find_proxy(proxies, now.as_str()));
                    let status = GroupStatus { name: rows[i].0.clone(), now: now.clone(), delay };
                    statuses.push(status);
                    proof {
                        assert(statuses.deep_view() =~= done + seq![status.deep_view()]);
                    }
                },
                None => {},
            },
            None => {},
        }
        i += 1;
    }
    proof {
        assert(all.take(i as int) =~= all);
    }
    statuses
}

} // verus!
