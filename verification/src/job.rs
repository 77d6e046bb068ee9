//! The event loop of one notification job, as a step function.
//!
//! A running job waits for one of three things: its cancellation signal, a
//! request on its mutation queue, or a tick of its interval timer. Whoever
//! drives the loop waits for them, hands each one to [`TaskLoop::step`] and
//! carries out the action that comes back. The job itself only decides.

use crate::keyboard::{ButtonView, Keyboard};
use vstd::prelude::*;

verus! {

/// A change requested of a running job.
#[derive(Debug, PartialEq, Eq)]
pub enum TaskEditType {
    /// Append one more notification text to the job's list.
    AddNotification(String),
}

/// Mathematical value of a [`TaskEditType`].
pub enum TaskEditView {
    AddNotification(Seq<char>),
}

impl DeepView for TaskEditType {
    type V = TaskEditView;

    open spec fn deep_view(&self) -> TaskEditView {
        match self {
            TaskEditType::AddNotification(text) => TaskEditView::AddNotification(text@),
        }
    }
}

/// Why a job's loop has ended.
#[derive(Clone, Copy, Debug, PartialEq, Eq, Structural)]
pub enum ExitReason {
    /// The cancellation signal was observed.
    Cancelled,
    /// The mutation queue was closed for good while the job was running
    /// and no cancellation was pending.
    EditorClosed,
}

/// What the driver of a loop has observed.
#[derive(Debug, PartialEq, Eq)]
pub enum JobEvent {
    /// The cancellation signal arrived.
    Shutdown,
    /// The mutation queue yielded a request.
    Edit(TaskEditType),
    /// The mutation queue is closed for good. `cancelled` tells whether a
    /// cancellation signal is pending, which explains the closing.
    EditorClosed { cancelled: bool },
    /// The interval timer fired.
    Tick,
    /// Every send of the round in flight has come back. The flags stand in
    /// the order of the round's destinations, `true` for a send that
    /// succeeded.
    Delivered(Vec<bool>),
}

/// Mathematical value of a [`JobEvent`].
pub enum JobEventView {
    Shutdown,
    Edit(TaskEditView),
    EditorClosed { cancelled: bool },
    Tick,
    Delivered(Seq<bool>),
}

impl DeepView for JobEvent {
    type V = JobEventView;

    open spec fn deep_view(&self) -> JobEventView {
        match self {
            JobEvent::Shutdown => JobEventView::Shutdown,
            JobEvent::Edit(edit) => JobEventView::Edit(edit.deep_view()),
            JobEvent::EditorClosed { cancelled } => JobEventView::EditorClosed {
                cancelled: *cancelled,
            },
            JobEvent::Tick => JobEventView::Tick,
            JobEvent::Delivered(sent) => JobEventView::Delivered(sent@),
        }
    }
}

/// One fan-out round: the same text and buttons for every destination.
#[derive(Debug, PartialEq, Eq)]
pub struct Round {
    pub text: String,
    pub buttons: Option<Keyboard>,
    pub destinations: Vec<i64>,
}

/// Mathematical value of a [`Round`].
pub struct RoundView {
    pub text: Seq<char>,
    pub buttons: Option<Seq<Seq<ButtonView>>>,
    pub destinations: Seq<i64>,
}

impl DeepView for Round {
    type V = RoundView;

    open spec fn deep_view(&self) -> RoundView {
        RoundView {
            text: self.text@,
            buttons: self.buttons.deep_view(),
            destinations: self.destinations@,
        }
    }
}

/// What the driver of a loop has to do next.
#[derive(Debug, PartialEq, Eq)]
pub enum JobAction {
    /// Nothing; wait for the next event.
    Wait,
    /// Send the round to all of its destinations at once, wait until every
    /// send has come back, then hand in [`JobEvent::Delivered`]. Until then
    /// the round is in flight.
    FanOut(Round),
    /// The round is over. These destinations were not reached; the failures
    /// are to be logged and have no other consequence.
    Report(Vec<i64>),
    /// Leave the loop and release what it holds.
    Exit(ExitReason),
}

/// Mathematical value of a [`JobAction`].
pub enum JobActionView {
    Wait,
    FanOut(RoundView),
    Report(Seq<i64>),
    Exit(ExitReason),
}

impl DeepView for JobAction {
    type V = JobActionView;

    open spec fn deep_view(&self) -> JobActionView {
        match self {
            JobAction::Wait => JobActionView::Wait,
            JobAction::FanOut(round) => JobActionView::FanOut(round.deep_view()),
            JobAction::Report(failed) => JobActionView::Report(failed@),
            JobAction::Exit(reason) => JobActionView::Exit(*reason),
        }
    }
}

/// Mathematical value of a [`TaskLoop`]: what the job holds while it runs.
pub struct JobView {
    pub id: u32,
    pub interval: u64,
    /// The notification texts; the first one is the one that is sent.
    pub messages: Seq<Seq<char>>,
    pub buttons: Option<Seq<Seq<ButtonView>>>,
    pub groups: Seq<i64>,
    /// Whether a round has been asked for and has not come back yet.
    pub in_flight: bool,
    /// `None` while the loop runs, the reason once it has ended.
    pub exit: Option<ExitReason>,
}

impl JobView {
    /// A job always has a text to send.
    pub open spec fn wf(self) -> bool {
        self.messages.len() > 0
    }

    pub open spec fn is_running(self) -> bool {
        self.exit is None
    }

    /// The round that a tick of this job sends.
    pub open spec fn round(self) -> RoundView {
        RoundView { text: self.messages[0], buttons: self.buttons, destinations: self.groups }
    }
}

/// The destinations of a round that were not reached: those whose flag is
/// `false`, and those for which no flag came back.
pub open spec fn failed_destinations(groups: Seq<i64>, sent: Seq<bool>) -> Seq<i64>
    decreases groups.len(),
{
    if groups.len() == 0 {
        Seq::<i64>::empty()
    } else {
        let last = groups.len() - 1;
        let before = failed_destinations(groups.drop_last(), sent);
        if last < sent.len() && sent[last] {
            before
        } else {
            before.push(groups[last])
        }
    }
}

/// One step of the loop: the job after `event`, and the action it asks for.
///
/// A job that has ended stays as it is and asks to exit again, whatever
/// arrives. A running job ends on the cancellation signal; it ends on a
/// closed mutation queue too, as cancelled if a cancellation is pending and
/// abnormally if none is; it appends the text of an edit. On a tick it asks
/// for one round with its first text, unless a round is still in flight:
/// such a tick is lost, not kept for later. When a round has come back it
/// reports the failed sends and goes on.
pub open spec fn spec_step(job: JobView, event: JobEventView) -> (JobView, JobActionView) {
    match job.exit {
        Some(reason) => (job, JobActionView::Exit(reason)),
        None => match event {
            JobEventView::Shutdown => (
                JobView { exit: Some(ExitReason::Cancelled), ..job },
                JobActionView::Exit(ExitReason::Cancelled),
            ),
            JobEventView::Edit(TaskEditView::AddNotification(text)) => (
                JobView { messages: job.messages.push(text), ..job },
                JobActionView::Wait,
            ),
            JobEventView::EditorClosed { cancelled } => {
                let reason = if cancelled {
                    ExitReason::Cancelled
                } else {
                    ExitReason::EditorClosed
                };
                (JobView { exit: Some(reason), ..job }, JobActionView::Exit(reason))
            },
            JobEventView::Tick => if job.in_flight {
                (job, JobActionView::Wait)
            } else {
                (JobView { in_flight: true, ..job }, JobActionView::FanOut(job.round()))
            },
            JobEventView::Delivered(sent) => (
                JobView { in_flight: false, ..job },
                JobActionView::Report(failed_destinations(job.groups, sent)),
            ),
        },
    }
}

/// The job after a run of events, and the actions it asked for, one per
/// event and in the same order.
pub open spec fn run_events(job: JobView, events: Seq<JobEventView>) -> (JobView, Seq<JobActionView>)
    decreases events.len(),
{
    if events.len() == 0 {
        (job, Seq::<JobActionView>::empty())
    } else {
        let (before, actions) = run_events(job, events.drop_last());
        let (after, action) = spec_step(before, events.last());
        (after, actions.push(action))
    }
}

/// Whether `event` ends a running job.
pub open spec fn is_fatal(event: JobEventView) -> bool {
    event is Shutdown || event is EditorClosed
}

/// Whether every tick among `events` comes when no round is in flight: each
/// round has come back before the timer fires again. `in_flight` tells
/// whether a round is in flight before the first event.
pub open spec fn well_paced(in_flight: bool, events: Seq<JobEventView>) -> bool
    decreases events.len(),
{
    if events.len() == 0 {
        true
    } else {
        well_paced(in_flight, events.drop_last()) && (events.last() is Tick ==> !flight_after(
            in_flight,
            events.drop_last(),
        ))
    }
}

/// Whether a round is in flight after `events`, none of which ends the job.
pub open spec fn flight_after(in_flight: bool, events: Seq<JobEventView>) -> bool
    decreases events.len(),
{
    if events.len() == 0 {
        in_flight
    } else {
        match events.last() {
            JobEventView::Tick => true,
            JobEventView::Delivered(_) => false,
            _ => flight_after(in_flight, events.drop_last()),
        }
    }
}

/// Through any run of events a job keeps its identifier, interval,
/// destinations and buttons; its list of texts only grows at the end, so its
/// first text stays what it was; and a job that has ended stays ended for
/// the same reason.
pub proof fn lemma_only_texts_grow(job: JobView, events: Seq<JobEventView>)
    requires
        job.wf(),
    ensures
        ({
            let (after, actions) = run_events(job, events);
            &&& actions.len() == events.len()
            &&& after.id == job.id
            &&& after.interval == job.interval
            &&& after.groups == job.groups
            &&& after.buttons == job.buttons
            &&& job.messages.is_prefix_of(after.messages)
            &&& after.messages[0] == job.messages[0]
            &&& after.round() == job.round()
            &&& job.exit is Some ==> after == job
        }),
    decreases events.len(),
{
    if events.len() > 0 {
        lemma_only_texts_grow(job, events.drop_last());
    }
}

/// Each tick asks for exactly one round, and nothing else asks for one. As
/// long as no event ends the job and every round has come back before the
/// timer fires again, the action for an event is a fan-out if and only if
/// the event is a tick. Every such round goes to all destinations of the
/// job, with the job's buttons and the text that stood first when the run
/// began.
pub proof fn lemma_one_round_per_tick(job: JobView, events: Seq<JobEventView>)
    requires
        job.wf(),
        job.is_running(),
        forall|i: int| 0 <= i < events.len() ==> !is_fatal(#[trigger] events[i]),
        well_paced(job.in_flight, events),
    ensures
        ({
            let (after, actions) = run_events(job, events);
            &&& after.is_running()
            &&& after.in_flight == flight_after(job.in_flight, events)
            &&& actions.len() == events.len()
            &&& forall|i: int|
                0 <= i < events.len() ==> (#[trigger] actions[i] is FanOut <==> events[i] is Tick)
            &&& forall|i: int|
                0 <= i < events.len() && events[i] is Tick ==> #[trigger] actions[i]
                    == JobActionView::FanOut(job.round())
        }),
    decreases events.len(),
{
    if events.len() > 0 {
        let earlier = events.drop_last();
        assert forall|i: int| 0 <= i < earlier.len() implies !is_fatal(#[trigger] earlier[i]) by {
            assert(earlier[i] == events[i]);
        }
        lemma_one_round_per_tick(job, earlier);
        lemma_only_texts_grow(job, earlier);
        let (before, done) = run_events(job, earlier);
        let (after, actions) = run_events(job, events);
        assert(!is_fatal(events[events.len() - 1]));
        assert forall|i: int| 0 <= i < events.len() implies (#[trigger] actions[i] is FanOut
            <==> events[i] is Tick) by {
            if i < earlier.len() {
                assert(actions[i] == done[i]);
                assert(events[i] == earlier[i]);
            }
        }
        assert forall|i: int| 0 <= i < events.len() && events[i] is Tick implies #[trigger] actions[i]
            == JobActionView::FanOut(job.round()) by {
            if i < earlier.len() {
                assert(actions[i] == done[i]);
                assert(events[i] == earlier[i]);
            }
        }
    }
}

/// Rounds do not overlap. Whatever arrives and in whatever order, between
/// two rounds that a job asks for, the first of them has come back: a tick
/// that fires while a round is in flight starts no round.
pub proof fn lemma_rounds_do_not_overlap(job: JobView, events: Seq<JobEventView>, i: int, j: int)
    requires
        job.wf(),
        0 <= i < j < events.len(),
        run_events(job, events).1[i] is FanOut,
        run_events(job, events).1[j] is FanOut,
    ensures
        exists|k: int| i < k < j && #[trigger] events[k] is Delivered,
{
    let actions = run_events(job, events).1;
    lemma_run_of_beginning(job, events, i + 1);
    lemma_run_of_beginning(job, events, j + 1);
    let first = events.take(i + 1);
    let second = events.take(j + 1);
    assert(first.drop_last() =~= events.take(i));
    assert(second.drop_last() =~= events.take(j));
    let started = spec_step(run_events(job, events.take(i)).0, events[i]);
    let next = spec_step(run_events(job, events.take(j)).0, events[j]);
    assert(started.1 == actions[i]) by {
        assert(run_events(job, first).1.last() == started.1);
        assert(actions.take(i + 1).last() == actions[i]);
    }
    assert(next.1 == actions[j]) by {
        assert(run_events(job, second).1.last() == next.1);
        assert(actions.take(j + 1).last() == actions[j]);
    }
    assert(run_events(job, first).0 == started.0);
    assert(started.0.in_flight);
    assert(!run_events(job, events.take(j)).0.in_flight);
    lemma_flight_ends_with_delivery(job, events, i + 1, j);
}

/// What a job has done after the first `n` of a run of events is what it
/// does in a run of those `n` events alone.
pub proof fn lemma_run_of_beginning(job: JobView, events: Seq<JobEventView>, n: int)
    requires
        0 <= n <= events.len(),
    ensures
        run_events(job, events.take(n)).1 == run_events(job, events).1.take(n),
        run_events(job, events).1.len() == events.len(),
    decreases events.len() - n,
{
    if n == events.len() {
        assert(events.take(n) =~= events);
        lemma_run_length(job, events);
        assert(run_events(job, events).1.take(n) =~= run_events(job, events).1);
    } else {
        lemma_run_of_beginning(job, events.drop_last(), n);
        lemma_run_length(job, events.drop_last());
        assert(events.drop_last().take(n) =~= events.take(n));
        assert(run_events(job, events).1.take(n) =~= run_events(job, events.drop_last()).1.take(n));
    }
}

/// A job answers every event with one action.
pub proof fn lemma_run_length(job: JobView, events: Seq<JobEventView>)
    ensures
        run_events(job, events).1.len() == events.len(),
    decreases events.len(),
{
    if events.len() > 0 {
        lemma_run_length(job, events.drop_last());
    }
}

/// A round that is in flight after the first `from` events and no longer
/// after the first `to` has come back in between.
proof fn lemma_flight_ends_with_delivery(job: JobView, events: Seq<JobEventView>, from: int, to: int)
    requires
        0 <= from <= to <= events.len(),
        run_events(job, events.take(from)).0.in_flight,
        !run_events(job, events.take(to)).0.in_flight,
    ensures
        exists|k: int| from <= k < to && #[trigger] events[k] is Delivered,
    decreases to - from,
{
    if from < to {
        assert(events.take(to).drop_last() =~= events.take(to - 1));
        if events[to - 1] is Delivered {
        } else {
            assert(run_events(job, events.take(to - 1)).0.in_flight == false);
            lemma_flight_ends_with_delivery(job, events, from, to - 1);
        }
    }
}

/// Appending a text does not change what the next tick sends: the round is
/// the one that the tick would have asked for without the edit, and the new
/// text stands last in the job's list.
pub proof fn lemma_append_keeps_current_text(job: JobView, text: Seq<char>)
    requires
        job.wf(),
        job.is_running(),
    ensures
        ({
            let edit = JobEventView::Edit(TaskEditView::AddNotification(text));
            let edited = spec_step(job, edit).0;
            &&& edited.messages == job.messages.push(text)
            &&& edited.round() == job.round()
            &&& spec_step(edited, JobEventView::Tick).1 == spec_step(job, JobEventView::Tick).1
            &&& !job.in_flight ==> spec_step(edited, JobEventView::Tick).1 == JobActionView::FanOut(
                job.round(),
            )
        }),
{
}

/// Once the cancellation signal has been observed the job has ended: that
/// step asks to exit, and whatever arrives afterwards, the job stays as it
/// is and asks only to exit, so no further round begins.
pub proof fn lemma_cancelled_job_stays_ended(job: JobView, events: Seq<JobEventView>)
    requires
        job.wf(),
        job.is_running(),
    ensures
        ({
            let (ended, exit) = spec_step(job, JobEventView::Shutdown);
            let (after, actions) = run_events(ended, events);
            &&& exit == JobActionView::Exit(ExitReason::Cancelled)
            &&& ended.exit == Some(ExitReason::Cancelled)
            &&& after == ended
            &&& actions.len() == events.len()
            &&& forall|i: int|
                0 <= i < events.len() ==> #[trigger] actions[i] == JobActionView::Exit(
                    ExitReason::Cancelled,
                )
        }),
    decreases events.len(),
{
    if events.len() > 0 {
        let ended = spec_step(job, JobEventView::Shutdown).0;
        let earlier = events.drop_last();
        lemma_cancelled_job_stays_ended(job, earlier);
        let (before, done) = run_events(ended, earlier);
        let (after, actions) = run_events(ended, events);
        assert forall|i: int| 0 <= i < events.len() implies #[trigger] actions[i]
            == JobActionView::Exit(ExitReason::Cancelled) by {
            if i < earlier.len() {
                assert(actions[i] == done[i]);
            }
        }
    }
}

/// A round whose sends partly fail neither ends the job nor changes what it
/// sends: the step that takes the outcomes leaves the job running with the
/// same texts, buttons and destinations, ready for the next tick, and only
/// reports the destinations that were not reached.
pub proof fn lemma_failed_sends_are_not_fatal(job: JobView, sent: Seq<bool>)
    requires
        job.wf(),
        job.is_running(),
    ensures
        spec_step(job, JobEventView::Delivered(sent)) == (
            JobView { in_flight: false, ..job },
            JobActionView::Report(failed_destinations(job.groups, sent)),
        ),
        spec_step(spec_step(job, JobEventView::Delivered(sent)).0, JobEventView::Tick).1
            == JobActionView::FanOut(job.round()),
{
}

/// The state of one job's loop.
pub struct TaskLoop {
    id: u32,
    interval: u64,
    /// The text that a tick sends.
    current: String,
    /// The texts appended behind it, oldest first.
    queued: Vec<String>,
    msg_buttons: Option<Keyboard>,
    groups: Vec<i64>,
    in_flight: bool,
    exit: Option<ExitReason>,
}

impl DeepView for TaskLoop {
    type V = JobView;

    closed spec fn deep_view(&self) -> JobView {
        JobView {
            id: self.id,
            interval: self.interval,
            messages: seq![self.current@] + self.queued.deep_view(),
            buttons: self.msg_buttons.deep_view(),
            groups: self.groups@,
            in_flight: self.in_flight,
            exit: self.exit,
        }
    }
}

/// Copies a list of identifiers.
fn clone_ids(ids: &Vec<i64>) -> (copy: Vec<i64>)
    ensures
        copy@ == ids@,
{
    let mut copy: Vec<i64> = Vec::new();
    let mut i: usize = 0;
    while i < ids.len()
        invariant
            i <= ids.len(),
            copy@ == ids@.take(i as int),
        decreases ids.len() - i,
    {
        copy.push(ids[i]);
        assert(ids@.take(i as int).push(ids@[i as int]) =~= ids@.take(i + 1));
        i += 1;
    }
    assert(ids@.take(ids.len() as int) =~= ids@);
    copy
}

/// Copies an optional layout.
fn clone_buttons(buttons: &Option<Keyboard>) -> (copy: Option<Keyboard>)
    ensures
        copy.deep_view() == buttons.deep_view(),
{
    match buttons {
        Some(keyboard) => Some(keyboard.clone()),
        None => None,
    }
}

/// The destinations of `groups` that `sent` does not confirm.
pub fn collect_failed(groups: &Vec<i64>, sent: &Vec<bool>) -> (failed: Vec<i64>)
    ensures
        failed@ == failed_destinations(groups@, sent@),
{
    let mut failed: Vec<i64> = Vec::new();
    let mut i: usize = 0;
    while i < groups.len()
        invariant
            i <= groups.len(),
            failed@ == failed_destinations(groups@.take(i as int), sent@),
        decreases groups.len() - i,
    {
        assert(groups@.take(i + 1).drop_last() =~= groups@.take(i as int));
        if !(i < sent.len() && sent[i]) {
            failed.push(groups[i]);
        }
        i += 1;
    }
    assert(groups@.take(groups.len() as int) =~= groups@);
    failed
}

impl TaskLoop {
    /// The loop of job `id`, about to run, with what the job was given.
    pub(crate) fn start(
        id: u32,
        interval: u64,
        pending_notification: Vec<String>,
        msg_buttons: Option<Keyboard>,
        groups: Vec<i64>,
    ) -> (job: Self)
        requires
            pending_notification.len() > 0,
        ensures
            job.deep_view() == (JobView {
                id,
                interval,
                messages: pending_notification.deep_view(),
                buttons: msg_buttons.deep_view(),
                groups: groups@,
                in_flight: false,
                exit: None,
            }),
    {
        let mut queued = pending_notification;
        let current = queued.remove(0);
        assert(seq![current@] + queued.deep_view() =~= pending_notification.deep_view());
        TaskLoop {
            id,
            interval,
            current,
            queued,
            msg_buttons,
            groups,
            in_flight: false,
            exit: None,
        }
    }

    /// A job always has a text to send.
    pub proof fn lemma_has_text(&self)
        ensures
            self.deep_view().wf(),
    {
    }

    /// The identifier the registry gave this job.
    pub fn id(&self) -> (id: u32)
        ensures
            id == self.deep_view().id,
    {
        self.id
    }

    /// The time between two ticks.
    pub fn interval(&self) -> (interval: u64)
        ensures
            interval == self.deep_view().interval,
    {
        self.interval
    }

    /// Whether the loop has not ended yet.
    pub fn is_running(&self) -> (running: bool)
        ensures
            running == self.deep_view().is_running(),
    {
        self.exit.is_none()
    }

    /// Whether a round has been asked for and has not come back yet.
    pub fn in_flight(&self) -> (in_flight: bool)
        ensures
            in_flight == self.deep_view().in_flight,
    {
        self.in_flight
    }

    /// Takes one event and says what to do next.
    pub fn step(&mut self, event: JobEvent) -> (action: JobAction)
        ensures
            final(self).deep_view() == spec_step(old(self).deep_view(), event.deep_view()).0,
            action.deep_view() == spec_step(old(self).deep_view(), event.deep_view()).1,
    {
        if let Some(reason) = self.exit {
            return JobAction::Exit(reason);
        }
        match event {
            JobEvent::Shutdown => {
                self.exit = Some(ExitReason::Cancelled);
                JobAction::Exit(ExitReason::Cancelled)
            },
            JobEvent::Edit(TaskEditType::AddNotification(text)) => {
                let ghost before = self.queued.deep_view();
                self.queued.push(text);
                assert(self.queued.deep_view() =~= before.push(text@));
                assert(seq![self.current@] + before.push(text@) =~= (seq![self.current@]
                    + before).push(text@));
                JobAction::Wait
            },
            JobEvent::EditorClosed { cancelled } => {
                let reason = if cancelled {
                    ExitReason::Cancelled
                } else {
                    ExitReason::EditorClosed
                };
                self.exit = Some(reason);
                JobAction::Exit(reason)
            },
            JobEvent::Tick => {
                if self.in_flight {
                    return JobAction::Wait;
                }
                let round = Round {
                    text: self.current.clone(),
                    buttons: clone_buttons(&self.msg_buttons),
                    destinations: clone_ids(&self.groups),
                };
                self.in_flight = true;
                JobAction::FanOut(round)
            },
            JobEvent::Delivered(sent) => {
                self.in_flight = false;
                JobAction::Report(collect_failed(&self.groups, &sent))
            },
        }
    }
}

} // verus!
