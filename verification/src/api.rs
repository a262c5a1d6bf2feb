//! The records that the daemon's control API answers with.

use vstd::prelude::*;

verus! {

/// The daemon's version.
#[derive(Debug)]
pub struct Version {
    pub version: String,
}

/// One throughput sample, in bytes per second.
#[derive(Clone, Copy, Debug, PartialEq, Eq, Structural)]
pub struct Traffic {
    pub up: u64,
    pub down: u64,
}

/// One latency measurement of a proxy.
#[derive(Debug, Clone, PartialEq, Eq)]
pub struct History {
    pub time: String,
    pub delay: u64,
}

/// What a [`History`] is in contracts.
pub struct HistoryView {
    pub time: Seq<char>,
    pub delay: u64,
}

impl DeepView for History {
    type V = HistoryView;

    open spec fn deep_view(&self) -> HistoryView {
        HistoryView { time: self.time@, delay: self.delay }
    }
}

impl View for History {
    type V = HistoryView;

    open spec fn view(&self) -> HistoryView {
        self.deep_view()
    }
}

/// A proxy node or a group of them.
#[derive(Debug, Clone, PartialEq, Eq)]
pub struct ProxyItem {
    pub name: String,
    /// The kind on the wire: `Selector`, `URLTest`, `Direct` and others.
    pub proxy_type: String,
    /// The members, for a group.
    pub all: Option<Vec<String>>,
    /// The member now selected, for a group.
    pub now: Option<String>,
    /// Latency measurements, latest last.
    pub history: Option<Vec<History>>,
}

/// What a [`ProxyItem`] is in contracts.
pub struct ProxyItemView {
    pub name: Seq<char>,
    pub proxy_type: Seq<char>,
    pub all: Option<Seq<Seq<char>>>,
    pub now: Option<Seq<char>>,
    pub history: Option<Seq<HistoryView>>,
}

impl DeepView for ProxyItem {
    type V = ProxyItemView;

    open spec fn deep_view(&self) -> ProxyItemView {
        ProxyItemView {
            name: self.name@,
            proxy_type: self.proxy_type@,
            all: self.all.deep_view(),
            now: self.now.deep_view(),
            history: self.history.deep_view(),
        }
    }
}

impl View for ProxyItem {
    type V = ProxyItemView;

    open spec fn view(&self) -> ProxyItemView {
        self.deep_view()
    }
}

/// Whether the daemon takes over traffic through a virtual interface.
#[derive(Debug)]
pub struct TunConfig {
    pub enable: bool,
}

/// The daemon's running configuration.
#[derive(Debug)]
pub struct Config {
    pub port: Option<u16>,
    pub mixed_port: Option<u16>,
    /// The routing mode: `Global`, `Rule` or `Direct`.
    pub mode: String,
    pub log_level: Option<String>,
    pub tun: Option<TunConfig>,
}

} // verus!
