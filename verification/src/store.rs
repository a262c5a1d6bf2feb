//! Bounded rolling windows and the dashboard's visible state.

use vstd::prelude::*;
use crate::api::Traffic;
use crate::event::{AppEvent, EventView, InputEvent, ProxyRow, RowView, requests_quit};

verus! {

/// Samples kept in each throughput history.
pub const HISTORY_CAPACITY: usize = 300;

/// Lines kept in the log window.
pub const LOG_CAPACITY: usize = 50;

/// The newest `cap` elements of `s`, or all of `s` where it holds no more.
pub open spec fn newest<T>(s: Seq<T>, cap: nat) -> Seq<T> {
    if s.len() > cap {
        s.skip(s.len() - cap)
    } else {
        s
    }
}

/// What `push_bounded` leaves in a window that held `s`: the value is appended,
/// and only the newest `cap` elements are kept.
pub open spec fn bounded_push<T>(s: Seq<T>, value: T, cap: nat) -> Seq<T> {
    newest(s.push(value), cap)
}

/// Appends `value` to `seq`, then evicts from the front until at most `cap`
/// elements are left.
pub fn push_bounded<T>(seq: &mut Vec<T>, value: T, cap: usize)
    ensures
        final(seq)@ == bounded_push(old(seq)@, value, cap as nat),
        final(seq)@.len() <= cap,
        cap > 0 ==> final(seq)@.last() == value,
{
    seq.push(value);
    let ghost full = seq@;
    while seq.len() > cap
        invariant
            seq@.len() >= cap || seq@ == full,
            seq@.len() <= full.len(),
            seq@ == full.skip(full.len() - seq@.len()),
        decreases seq.len(),
    {
        seq.remove(0);
    }
}

/// What a run of `push_bounded` calls with one capacity leaves in a window
/// that held `s`.
pub open spec fn push_all<T>(s: Seq<T>, values: Seq<T>, cap: nat) -> Seq<T>
    decreases values.len(),
{
    if values.len() == 0 {
        s
    } else {
        bounded_push(push_all(s, values.drop_last(), cap), values.last(), cap)
    }
}

/// After any run of pushes with capacity `cap` the window holds the newest
/// `cap` of all that was there and was pushed: never more than `cap`
/// elements, and, unless `cap` is 0, the value pushed last at its tail.
pub proof fn lemma_push_all_keeps_newest<T>(s: Seq<T>, values: Seq<T>, cap: nat)
    requires
        values.len() > 0,
    ensures
        push_all(s, values, cap) == newest(s + values, cap),
        push_all(s, values, cap).len() <= cap,
        cap > 0 ==> push_all(s, values, cap).last() == values.last(),
    decreases values.len(),
{
    let earlier = values.drop_last();
    assert(push_all(s, values, cap) == bounded_push(
        push_all(s, earlier, cap),
        values.last(),
        cap,
    ));
    assert((s + earlier).push(values.last()) =~= s + values);
    if earlier.len() == 0 {
        assert(s + earlier =~= s);
        assert(bounded_push(s, values.last(), cap) =~= newest(s + values, cap));
    } else {
        lemma_push_all_keeps_newest(s, earlier, cap);
        assert(bounded_push(newest(s + earlier, cap), values.last(), cap) =~= newest(
            s + values,
            cap,
        ));
    }
}

/// The dashboard's entire visible state.
#[derive(Debug, Clone, PartialEq, Eq)]
pub struct App {
    pub log_lines: Vec<String>,
    pub upload_history: Vec<u64>,
    pub download_history: Vec<u64>,
    pub proxy_rows: Vec<ProxyRow>,
    pub should_quit: bool,
}

/// What an [`App`] is in contracts.
pub struct AppView {
    pub log_lines: Seq<Seq<char>>,
    pub upload_history: Seq<u64>,
    pub download_history: Seq<u64>,
    pub proxy_rows: Seq<RowView>,
    pub should_quit: bool,
}

impl View for App {
    type V = AppView;

    open spec fn view(&self) -> AppView {
        AppView {
            log_lines: self.log_lines.deep_view(),
            upload_history: self.upload_history@,
            download_history: self.download_history@,
            proxy_rows: self.proxy_rows.deep_view(),
            should_quit: self.should_quit,
        }
    }
}

impl AppView {
    /// The windows never hold more than their capacity.
    pub open spec fn wf(self) -> bool {
        &&& self.log_lines.len() <= LOG_CAPACITY
        &&& self.upload_history.len() <= HISTORY_CAPACITY
        &&& self.download_history.len() <= HISTORY_CAPACITY
    }

    /// The state at start: zero-filled histories, nothing else.
    pub open spec fn initial() -> AppView {
        AppView {
            log_lines: Seq::empty(),
            upload_history: Seq::new(HISTORY_CAPACITY as nat, |i: int| 0u64),
            download_history: Seq::new(HISTORY_CAPACITY as nat, |i: int| 0u64),
            proxy_rows: Seq::empty(),
            should_quit: false,
        }
    }

    /// The state after one throughput sample.
    pub open spec fn on_traffic(self, traffic: Traffic) -> AppView {
        AppView {
            upload_history: bounded_push(self.upload_history, traffic.up, HISTORY_CAPACITY as nat),
            download_history: bounded_push(self.download_history, traffic.down, HISTORY_CAPACITY as nat),
            ..self
        }
    }

    /// The state after one log line.
    pub open spec fn on_log(self, line: Seq<char>) -> AppView {
        AppView { log_lines: bounded_push(self.log_lines, line, LOG_CAPACITY as nat), ..self }
    }

    /// The state after one terminal event: a quit request is remembered, and
    /// nothing ever takes it back.
    pub open spec fn on_input(self, input: InputEvent) -> AppView {
        AppView { should_quit: self.should_quit || requests_quit(input), ..self }
    }

    /// The state after a roster update: the rows are replaced, not merged.
    pub open spec fn on_roster(self, rows: Seq<RowView>) -> AppView {
        AppView { proxy_rows: rows, ..self }
    }

    /// The state after one event. Each kind of event touches its own fields
    /// only; a tick touches none.
    pub open spec fn apply(self, event: EventView) -> AppView {
        match event {
            EventView::Input(input) => self.on_input(input),
            EventView::Tick => self,
            EventView::Traffic(traffic) => self.on_traffic(traffic),
            EventView::Log(line) => self.on_log(line),
            EventView::Roster(rows) => self.on_roster(rows),
        }
    }
}

/// Taking the newest elements of a window commutes with viewing its strings.
proof fn lemma_bounded_push_strings(before: Seq<String>, line: String, after: Seq<String>, cap: nat)
    requires
        after == bounded_push(before, line, cap),
    ensures
        Seq::new(after.len(), |i: int| after[i].deep_view()) == bounded_push(
            Seq::new(before.len(), |i: int| before[i].deep_view()),
            line@,
            cap,
        ),
{
    let lhs = Seq::new(after.len(), |i: int| after[i].deep_view());
    let rhs = bounded_push(Seq::new(before.len(), |i: int| before[i].deep_view()), line@, cap);
    assert(lhs =~= rhs);
}

impl App {
    /// Whether the windows are within their capacity.
    pub open spec fn wf(&self) -> bool {
        self@.wf()
    }

    /// An empty snapshot with zero-filled histories.
    pub fn new() -> (app: App)
        ensures
            app@ == AppView::initial(),
            app.wf(),
    {
        let app = App {
            log_lines: Vec::new(),
            upload_history: vec![0u64; HISTORY_CAPACITY],
            download_history: vec![0u64; HISTORY_CAPACITY],
            proxy_rows: Vec::new(),
            should_quit: false,
        };
        proof {
            assert(app@.log_lines =~= Seq::empty());
            assert(app@.proxy_rows =~= Seq::empty());
            assert(app@.upload_history =~= AppView::initial().upload_history);
            assert(app@.download_history =~= AppView::initial().download_history);
        }
        app
    }

    /// Records one throughput sample at the tail of both histories.
    pub fn on_traffic(&mut self, traffic: Traffic)
        ensures
            final(self)@ == old(self)@.on_traffic(traffic),
            final(self)@.upload_history.len() <= HISTORY_CAPACITY,
            final(self)@.download_history.len() <= HISTORY_CAPACITY,
            final(self)@.upload_history.last() == traffic.up,
            final(self)@.download_history.last() == traffic.down,
            old(self).wf() ==> final(self).wf(),
    {
        push_bounded(&mut self.upload_history, traffic.up, HISTORY_CAPACITY);
        push_bounded(&mut self.download_history, traffic.down, HISTORY_CAPACITY);
    }

    /// Records one log line at the tail of the log window.
    pub fn on_log(&mut self, log: String)
        ensures
            final(self)@ == old(self)@.on_log(log@),
            final(self)@.log_lines.len() <= LOG_CAPACITY,
            final(self)@.log_lines.last() == log@,
            old(self).wf() ==> final(self).wf(),
    {
        let ghost before = self.log_lines@;
        push_bounded(&mut self.log_lines, log, LOG_CAPACITY);
        proof {
            lemma_bounded_push_strings(before, log, self.log_lines@, LOG_CAPACITY as nat);
        }
    }

    /// Records a terminal event: a press of `q` or Escape asks to quit.
    pub fn on_input(&mut self, input: InputEvent)
        ensures
            final(self)@ == old(self)@.on_input(input),
            old(self).wf() ==> final(self).wf(),
    {
        if input.is_quit_request() {
            self.should_quit = true;
        }
    }

    /// Replaces the roster.
    pub fn on_roster(&mut self, rows: Vec<ProxyRow>)
        ensures
            final(self)@ == old(self)@.on_roster(rows.deep_view()),
            old(self).wf() ==> final(self).wf(),
    {
        self.proxy_rows = rows;
    }

    /// Applies one event to the snapshot.
    pub fn apply(&mut self, event: AppEvent)
        ensures
            final(self)@ == old(self)@.apply(event@),
            old(self).wf() ==> final(self).wf(),
    {
        match event {
            AppEvent::Input(input) => self.on_input(input),
            AppEvent::Tick => {},
            AppEvent::Traffic(traffic) => self.on_traffic(traffic),
            AppEvent::Log(line) => self.on_log(line),
            AppEvent::Roster(rows) => self.on_roster(rows),
        }
    }
}

} // verus!
