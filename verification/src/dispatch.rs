//! The dispatch loop's decisions: what one received event does to the
//! snapshot, and whether the loop goes on.

use vstd::prelude::*;
use crate::event::{AppEvent, EventView, InputEvent};
use crate::store::{App, AppView};

verus! {

/// How many events the shared channel holds before a source has to wait.
pub const CHANNEL_CAPACITY: usize = 100;

/// The time between two ticks, in milliseconds.
pub const TICK_MILLIS: u64 = 250;

/// The time between two polls of the roster, in seconds.
pub const ROSTER_POLL_SECS: u64 = 2;

/// The loop is running until it is quitting, and then it stays so.
#[derive(Clone, Copy, Debug, PartialEq, Eq, Structural)]
pub enum LoopState {
    Running,
    Quitting,
}

/// What the channel handed out: an event, or nothing because every source is
/// gone.
pub open spec fn received_view(received: Option<AppEvent>) -> Option<EventView> {
    match received {
        Some(event) => Some(event@),
        None => None,
    }
}

/// The snapshot after one turn of the loop: the event applied, or the
/// snapshot as it was where the channel is closed.
pub open spec fn after_turn(app: AppView, received: Option<EventView>) -> AppView {
    match received {
        Some(event) => app.apply(event),
        None => app,
    }
}

/// The loop's state after one turn: it quits once a quit was asked for, and
/// on a closed channel as if it had been.
pub open spec fn state_after_turn(app: AppView, received: Option<EventView>) -> LoopState {
    if received.is_none() || after_turn(app, received).should_quit {
        LoopState::Quitting
    } else {
        LoopState::Running
    }
}

/// The snapshot after a run of events, applied in the order of their arrival.
pub open spec fn apply_all(app: AppView, events: Seq<EventView>) -> AppView
    decreases events.len(),
{
    if events.len() == 0 {
        app
    } else {
        apply_all(app, events.drop_last()).apply(events.last())
    }
}

impl App {
    /// The loop's state as the snapshot tells it.
    pub fn state(&self) -> (state: LoopState)
        ensures
            state == (if self@.should_quit {
                LoopState::Quitting
            } else {
                LoopState::Running
            }),
    {
        if self.should_quit {
            LoopState::Quitting
        } else {
            LoopState::Running
        }
    }
}

/// One turn of the dispatch loop, taken after the frame was drawn: applies
/// what the channel handed out and says whether the loop goes on.
pub fn dispatch(app: &mut App, received: Option<AppEvent>) -> (next: LoopState)
    ensures
        final(app)@ == after_turn(old(app)@, received_view(received)),
        next == state_after_turn(old(app)@, received_view(received)),
        old(app).wf() ==> final(app).wf(),
{
    match received {
        Some(event) => {
            app.apply(event);
            app.state()
        },
        None => LoopState::Quitting,
    }
}

/// What the input source found when it waited for the terminal and the tick
/// timer at once.
#[derive(Clone, Copy, Debug, PartialEq, Eq, Structural)]
pub enum InputPoll {
    /// The tick timer fired first.
    TimerFired,
    /// The terminal had an event.
    Event(InputEvent),
    /// Reading the terminal failed.
    Failed,
    /// The terminal's events are at an end.
    Closed,
}

/// The event that the input source sends for what it found, or nothing where
/// the source is to stop.
pub open spec fn input_event_of(poll: InputPoll) -> Option<EventView> {
    match poll {
        InputPoll::TimerFired => Some(EventView::Tick),
        InputPoll::Event(input) => Some(EventView::Input(input)),
        InputPoll::Failed => None,
        InputPoll::Closed => None,
    }
}

/// One turn of the input source: a tick for the timer, the input for a
/// terminal event, and a silent stop where the terminal failed or closed.
pub fn input_step(poll: InputPoll) -> (event: Option<AppEvent>)
    ensures
        received_view(event) == input_event_of(poll),
{
    match poll {
        InputPoll::TimerFired => Some(AppEvent::Tick),
        InputPoll::Event(input) => Some(AppEvent::Input(input)),
        InputPoll::Failed => None,
        InputPoll::Closed => None,
    }
}

/// Applying a roster twice leaves what applying it once leaves: the rows of
/// the roster, in place of whatever rows were there.
pub proof fn lemma_roster_replaces(app: AppView, rows: Seq<crate::event::RowView>)
    ensures
        app.apply(EventView::Roster(rows)).proxy_rows == rows,
        app.apply(EventView::Roster(rows)).apply(EventView::Roster(rows)) == app.apply(
            EventView::Roster(rows),
        ),
{
}

/// No event takes a quit request back.
pub proof fn lemma_quit_is_kept(app: AppView, event: EventView)
    requires
        app.should_quit,
    ensures
        app.apply(event).should_quit,
{
}

/// Once a quit was asked for, it stands after any run of further events.
pub proof fn lemma_quit_is_final(app: AppView, events: Seq<EventView>)
    requires
        app.should_quit,
    ensures
        apply_all(app, events).should_quit,
    decreases events.len(),
{
    if events.len() > 0 {
        lemma_quit_is_final(app, events.drop_last());
        lemma_quit_is_kept(apply_all(app, events.drop_last()), events.last());
    }
}

/// No run of events lets a window grow beyond its capacity.
pub proof fn lemma_windows_stay_bounded(app: AppView, events: Seq<EventView>)
    requires
        app.wf(),
    ensures
        apply_all(app, events).wf(),
    decreases events.len(),
{
    if events.len() > 0 {
        lemma_windows_stay_bounded(app, events.drop_last());
    }
}

} // verus!
