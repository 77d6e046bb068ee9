//! Job specifications and the registry of running jobs.
//!
//! A [`ScheduleTask`] is a job before it runs. The registry, [`TaskPool`],
//! gives each job it takes the next identifier, keeps a summary and the two
//! handles of the job under that identifier, and hands the job's loop to the
//! caller, who runs it. Removing an entry asks the job to stop.
//!
//! The registry is plain data that one owner changes through `&mut`. A
//! program that shares it between callers puts it behind a lock.

use crate::channel::{edit_queue, queue_limit, watch_channel, watch_send};
use crate::job::{JobView, TaskEditType, TaskLoop};
use crate::keyboard::{ButtonView, Keyboard};
use std::collections::HashMap;
use std::sync::Arc;
use tokio::sync::{mpsc, watch};
use vstd::prelude::*;
use vstd::std_specs::iter::IteratorSpec;

verus! {

broadcast use vstd::std_specs::hash::group_hash_axioms;

/// The value that the cancellation signal carries.
pub const SHUTDOWN: u8 = 1;

/// How many edits a job's mutation queue holds before senders have to wait.
pub const EDIT_QUEUE_CAPACITY: usize = 3;

/// The sending end of a job's cancellation signal.
#[derive(Debug)]
pub struct ShutdownSig(pub Arc<watch::Sender<u8>>);

/// The job's loop is gone: nobody is left to take the signal.
#[derive(Clone, Copy, Debug, PartialEq, Eq, Structural)]
pub struct JobGone;

impl ShutdownSig {
    /// Asks the job to stop. Whether anybody is still listening depends on
    /// the job's loop, so either answer is possible.
    pub fn shutdown(&self) -> (sent: Result<(), JobGone>) {
        signal_answer(watch_send(&self.0, SHUTDOWN))
    }
}

/// What a request to stop comes to, given whether the channel took the
/// signal: it has been sent if the channel took it, and the job is gone if
/// the channel did not.
pub fn signal_answer(taken: bool) -> (sent: Result<(), JobGone>)
    ensures
        sent == (if taken {
            Ok::<(), JobGone>(())
        } else {
            Err::<(), JobGone>(JobGone)
        }),
{
    if taken {
        Ok(())
    } else {
        Err(JobGone)
    }
}

/// The sending end of a job's mutation queue.
#[derive(Debug)]
pub struct Editor(pub mpsc::Sender<TaskEditType>);

/// What the registry keeps of a running job: a summary taken when the job
/// was started, and the two handles that reach its loop.
#[derive(Debug)]
pub struct TaskInfo {
    interval: u64,
    content: String,
    sig: ShutdownSig,
    editor: Editor,
}

/// Mathematical value of a [`TaskInfo`]: the summary of the job, which
/// is its interval and the text that stood first when it was started, and
/// the sending ends of its two channels. The summary is a snapshot and does
/// not follow later edits.
pub struct TaskEntry {
    pub interval: u64,
    pub content: Seq<char>,
    pub sig: watch::Sender<u8>,
    pub editor: mpsc::Sender<TaskEditType>,
}

impl View for TaskInfo {
    type V = TaskEntry;

    closed spec fn view(&self) -> TaskEntry {
        TaskEntry {
            interval: self.interval,
            content: self.content@,
            sig: *self.sig.0,
            editor: self.editor.0,
        }
    }
}

impl TaskInfo {
    /// The time between two ticks of the job.
    pub fn interval(&self) -> (interval: u64)
        ensures
            interval == self@.interval,
    {
        self.interval
    }

    /// The text that stood first when the job was started.
    pub fn content(&self) -> (content: &String)
        ensures
            content@ == self@.content,
    {
        &self.content
    }

    /// The handle that cancels the job.
    pub fn sig(&self) -> (sig: &ShutdownSig)
        ensures
            *sig.0 == self@.sig,
    {
        &self.sig
    }

    /// The handle that feeds the job's mutation queue.
    pub fn editor(&self) -> (editor: &Editor)
        ensures
            editor.0 == self@.editor,
    {
        &self.editor
    }
}

/// A job specification, built up step by step, with the channels that the
/// job will listen on.
pub struct ScheduleTask {
    /// Time between two ticks.
    interval: u64,
    /// The notification texts; the first one is sent.
    pending_notification: Vec<String>,
    /// Buttons attached to every message.
    msg_buttons: Option<Keyboard>,
    /// Sending end of the cancellation signal.
    signal: watch::Sender<u8>,
    /// Sending end of the mutation queue.
    editor: mpsc::Sender<TaskEditType>,
    /// The chats to notify.
    groups: Vec<i64>,
    editor_rx: mpsc::Receiver<TaskEditType>,
    signal_rx: watch::Receiver<u8>,
}

/// Mathematical value of a [`ScheduleTask`]: what the job is to do, and
/// the four ends of its two channels.
pub struct TaskSpec {
    pub interval: u64,
    pub messages: Seq<Seq<char>>,
    pub buttons: Option<Seq<Seq<ButtonView>>>,
    pub groups: Seq<i64>,
    pub signal: watch::Sender<u8>,
    pub signal_rx: watch::Receiver<u8>,
    pub editor: mpsc::Sender<TaskEditType>,
    pub editor_rx: mpsc::Receiver<TaskEditType>,
}

impl TaskSpec {
    /// A specification can be run if its interval is positive and it names
    /// at least one text and at least one destination.
    pub open spec fn valid(self) -> bool {
        &&& self.interval > 0
        &&& self.messages.len() > 0
        &&& self.groups.len() > 0
    }

    /// What the registry keeps of a job with this specification: the
    /// interval, the first text, and the sending ends of the channels.
    pub open spec fn entry(self) -> TaskEntry {
        TaskEntry {
            interval: self.interval,
            content: self.messages[0],
            sig: self.signal,
            editor: self.editor,
        }
    }

    /// The job that runs this specification under the identifier `id`.
    pub open spec fn job(self, id: u32) -> JobView {
        JobView {
            id,
            interval: self.interval,
            messages: self.messages,
            buttons: self.buttons,
            groups: self.groups,
            in_flight: false,
            exit: None,
        }
    }
}

impl DeepView for ScheduleTask {
    type V = TaskSpec;

    closed spec fn deep_view(&self) -> TaskSpec {
        TaskSpec {
            interval: self.interval,
            messages: self.pending_notification.deep_view(),
            buttons: self.msg_buttons.deep_view(),
            groups: self.groups@,
            signal: self.signal,
            signal_rx: self.signal_rx,
            editor: self.editor,
            editor_rx: self.editor_rx,
        }
    }
}

/// What starting a job yields for whoever runs its loop: the state of the
/// loop and the receiving ends of its two channels.
pub struct TaskRun {
    pub job: TaskLoop,
    pub editor_rx: mpsc::Receiver<TaskEditType>,
    pub signal_rx: watch::Receiver<u8>,
}

impl ScheduleTask {
    /// An empty specification with fresh channels: interval zero, no text,
    /// no buttons, no destination, and a mutation queue that holds up to
    /// [`EDIT_QUEUE_CAPACITY`] edits.
    pub fn new() -> (task: Self)
        ensures
            task.deep_view().interval == 0,
            task.deep_view().messages == Seq::<Seq<char>>::empty(),
            task.deep_view().buttons == None::<Seq<Seq<ButtonView>>>,
            task.deep_view().groups == Seq::<i64>::empty(),
            queue_limit(task.deep_view().editor) == EDIT_QUEUE_CAPACITY,
    {
        let (signal, signal_rx) = watch_channel(0);
        let (editor, editor_rx) = edit_queue(EDIT_QUEUE_CAPACITY);
        let task = ScheduleTask {
            interval: 0,
            pending_notification: Vec::new(),
            msg_buttons: None,
            signal,
            editor,
            groups: Vec::new(),
            editor_rx,
            signal_rx,
        };
        assert(task.pending_notification.deep_view() =~= Seq::<Seq<char>>::empty());
        task
    }

    /// The same specification with the interval set.
    pub fn interval(self, interval: u64) -> (task: Self)
        ensures
            task.deep_view() == (TaskSpec { interval, ..self.deep_view() }),
    {
        let mut task = self;
        task.interval = interval;
        task
    }

    /// The same specification with the list of texts replaced.
    pub fn pending_notification(self, pn: Vec<String>) -> (task: Self)
        ensures
            task.deep_view() == (TaskSpec { messages: pn.deep_view(), ..self.deep_view() }),
    {
        let mut task = self;
        task.pending_notification = pn;
        task
    }

    /// The same specification with this button layout.
    pub fn msg_buttons(self, btn: Keyboard) -> (task: Self)
        ensures
            task.deep_view() == (TaskSpec { buttons: Some(btn.deep_view()), ..self.deep_view() }),
    {
        let mut task = self;
        task.msg_buttons = Some(btn);
        task
    }

    /// The same specification with the destinations replaced.
    pub fn groups(self, groups: Vec<i64>) -> (task: Self)
        ensures
            task.deep_view() == (TaskSpec { groups: groups@, ..self.deep_view() }),
    {
        let mut task = self;
        task.groups = groups;
        task
    }

    /// Whether the specification can be run.
    pub fn is_valid(&self) -> (valid: bool)
        ensures
            valid == self.deep_view().valid(),
    {
        self.interval > 0 && self.pending_notification.len() > 0 && self.groups.len() > 0
    }

    /// Starts the job under the identifier `id`: consumes the specification
    /// and returns what the registry keeps of it and what its loop needs.
    /// The summary shows the interval and the first text.
    pub fn run(self, id: u32) -> (started: (TaskInfo, TaskRun))
        requires
            self.deep_view().valid(),
        ensures
            started.0@ == self.deep_view().entry(),
            started.1.job.deep_view() == self.deep_view().job(id),
            started.1.editor_rx == self.deep_view().editor_rx,
            started.1.signal_rx == self.deep_view().signal_rx,
    {
        let skim = self.pending_notification[0].clone();
        let info = TaskInfo {
            interval: self.interval,
            content: skim,
            sig: ShutdownSig(Arc::new(self.signal)),
            editor: Editor(self.editor),
        };
        let job = TaskLoop::start(
            id,
            self.interval,
            self.pending_notification,
            self.msg_buttons,
            self.groups,
        );
        (info, TaskRun { job, editor_rx: self.editor_rx, signal_rx: self.signal_rx })
    }

    /// Sends the cancellation signal on this specification's own channel and
    /// tells whether the channel took it.
    pub fn stop(&self) -> (taken: bool) {
        watch_send(&self.signal, SHUTDOWN)
    }
}

/// No job is registered under the identifier that was asked for.
#[derive(Clone, Copy, Debug, PartialEq, Eq, Structural)]
pub struct NotFoundError {
    pub id: u32,
}

/// Mathematical value of the registry: what is kept under each identifier
/// in use, and the identifier that the next job will get.
pub struct PoolView {
    pub tasks: Map<u32, TaskEntry>,
    pub next_id: u32,
}

/// The identifier handed out after `id`. The counter has 32 bits and starts
/// over at zero behind the largest value.
pub open spec fn next_after(id: u32) -> u32 {
    if id == u32::MAX {
        0
    } else {
        (id + 1) as u32
    }
}

impl PoolView {
    /// The registry of a process that has started no job yet.
    pub open spec fn empty() -> PoolView {
        PoolView { tasks: Map::<u32, TaskEntry>::empty(), next_id: 0 }
    }

    /// Every identifier in use was handed out earlier: it lies below the
    /// counter. This holds from the empty registry on for as long as the
    /// counter has not started over.
    pub open spec fn fresh(self) -> bool {
        forall|id: u32| self.tasks.contains_key(id) ==> id < self.next_id
    }

    /// Registering a job: it gets the counter's value as its identifier, its
    /// entry is kept under it, and the counter moves on.
    pub open spec fn add(self, entry: TaskEntry) -> (PoolView, u32) {
        (
            PoolView {
                tasks: self.tasks.insert(self.next_id, entry),
                next_id: next_after(self.next_id),
            },
            self.next_id,
        )
    }

    /// Removing the entry under `id`: it goes if it is there; if it is not,
    /// the registry stays as it is and the request fails.
    pub open spec fn remove(self, id: u32) -> (PoolView, Result<(), NotFoundError>) {
        if self.tasks.contains_key(id) {
            (PoolView { tasks: self.tasks.remove(id), ..self }, Ok(()))
        } else {
            (self, Err(NotFoundError { id }))
        }
    }

    /// What a listing shows: one line for each identifier in use, with the
    /// interval and the text of its summary.
    pub open spec fn listing(self) -> Set<(u32, u64, Seq<char>)> {
        Set::new(
            |line: (u32, u64, Seq<char>)|
                self.tasks.contains_key(line.0) && self.tasks[line.0].interval == line.1
                    && self.tasks[line.0].content == line.2,
        )
    }
}

/// A request that changes the registry.
pub enum PoolOp {
    /// Register a job with this entry.
    Add(TaskEntry),
    /// Remove the job under this identifier.
    Remove(u32),
}

/// How many of `ops` register a job.
pub open spec fn count_adds(ops: Seq<PoolOp>) -> nat
    decreases ops.len(),
{
    if ops.len() == 0 {
        0
    } else {
        count_adds(ops.drop_last()) + if ops.last() is Add {
            1nat
        } else {
            0nat
        }
    }
}

impl PoolView {
    /// The registry after one request.
    pub open spec fn apply(self, op: PoolOp) -> PoolView {
        match op {
            PoolOp::Add(entry) => self.add(entry).0,
            PoolOp::Remove(id) => self.remove(id).0,
        }
    }

    /// The registry after a run of requests, served one after the other.
    pub open spec fn run(self, ops: Seq<PoolOp>) -> PoolView
        decreases ops.len(),
    {
        if ops.len() == 0 {
            self
        } else {
            self.run(ops.drop_last()).apply(ops.last())
        }
    }

    /// The identifiers that a run of requests hands out, in the order in
    /// which it hands them out.
    pub open spec fn issued(self, ops: Seq<PoolOp>) -> Seq<u32>
        decreases ops.len(),
    {
        if ops.len() == 0 {
            Seq::<u32>::empty()
        } else {
            let earlier = self.issued(ops.drop_last());
            match ops.last() {
                PoolOp::Add(entry) => earlier.push(self.run(ops.drop_last()).add(entry).1),
                PoolOp::Remove(_) => earlier,
            }
        }
    }

    /// The answers to `n` requests in a row to remove `id`.
    pub open spec fn removals(self, id: u32, n: nat) -> Seq<Result<(), NotFoundError>>
        decreases n,
    {
        if n == 0 {
            Seq::<Result<(), NotFoundError>>::empty()
        } else {
            seq![self.remove(id).1] + self.remove(id).0.removals(id, (n - 1) as nat)
        }
    }
}

/// Identifiers only grow. As long as the counter does not start over, the
/// jobs registered during any run of requests get the counter's value, the
/// next one, and so on: each gets a strictly greater identifier than every
/// job before it, and the registry stays fresh if it was.
pub proof fn lemma_identifiers_increase(pool: PoolView, ops: Seq<PoolOp>)
    requires
        pool.next_id + count_adds(ops) <= u32::MAX + 1,
    ensures
        pool.issued(ops).len() == count_adds(ops),
        forall|k: int| 0 <= k < count_adds(ops) ==> #[trigger] pool.issued(ops)[k] == pool.next_id + k,
        forall|i: int, j: int|
            0 <= i < j < count_adds(ops) ==> pool.issued(ops)[i] < pool.issued(ops)[j],
        pool.next_id + count_adds(ops) <= u32::MAX ==> pool.run(ops).next_id == pool.next_id
            + count_adds(ops),
        pool.fresh() && pool.next_id + count_adds(ops) <= u32::MAX ==> pool.run(ops).fresh(),
    decreases ops.len(),
{
    if ops.len() > 0 {
        lemma_identifiers_increase(pool, ops.drop_last());
    }
}

/// A removed job does not come back. After the job under `id` has been
/// removed from a fresh registry, whatever is requested later, no listing
/// shows `id` again, as long as the counter does not start over.
pub proof fn lemma_removed_id_is_never_listed(pool: PoolView, id: u32, later: Seq<PoolOp>)
    requires
        pool.fresh(),
        pool.tasks.contains_key(id),
        pool.next_id + count_adds(later) <= u32::MAX + 1,
    ensures
        pool.remove(id).1 == Ok::<(), NotFoundError>(()),
        !pool.remove(id).0.run(later).tasks.contains_key(id),
        forall|line: (u32, u64, Seq<char>)| #[trigger]
            pool.remove(id).0.run(later).listing().contains(line) ==> line.0 != id,
    decreases later.len(),
{
    if later.len() > 0 {
        let earlier = later.drop_last();
        lemma_removed_id_is_never_listed(pool, id, earlier);
        lemma_identifiers_increase(pool.remove(id).0, earlier);
        if later.last() is Add {
            assert(pool.next_id + count_adds(earlier) <= u32::MAX);
            assert(pool.remove(id).0.run(earlier).next_id >= pool.next_id);
        }
    }
}

/// Removing an identifier that is not in use fails and changes nothing.
pub proof fn lemma_remove_absent_changes_nothing(pool: PoolView, id: u32)
    requires
        !pool.tasks.contains_key(id),
    ensures
        pool.remove(id) == (pool, Err::<(), NotFoundError>(NotFoundError { id })),
        pool.remove(id).0.listing() == pool.listing(),
{
}

/// Of several requests to remove the same job, served in whatever order,
/// exactly one succeeds: the first one served. All others find nothing.
pub proof fn lemma_exactly_one_remove_succeeds(pool: PoolView, id: u32, n: nat)
    requires
        pool.tasks.contains_key(id),
        n > 0,
    ensures
        pool.removals(id, n).len() == n,
        pool.removals(id, n)[0] == Ok::<(), NotFoundError>(()),
        forall|i: int|
            1 <= i < n ==> #[trigger] pool.removals(id, n)[i] == Err::<(), NotFoundError>(
                NotFoundError { id },
            ),
{
    lemma_removals_of_absent(pool.remove(id).0, id, (n - 1) as nat);
}

/// Requests to remove an identifier that is not in use all fail.
proof fn lemma_removals_of_absent(pool: PoolView, id: u32, n: nat)
    requires
        !pool.tasks.contains_key(id),
    ensures
        pool.removals(id, n).len() == n,
        forall|i: int|
            0 <= i < n ==> #[trigger] pool.removals(id, n)[i] == Err::<(), NotFoundError>(
                NotFoundError { id },
            ),
    decreases n,
{
    if n > 0 {
        lemma_removals_of_absent(pool.remove(id).0, id, (n - 1) as nat);
    }
}

/// The registry of running jobs.
pub struct TaskPool {
    pool: HashMap<u32, TaskInfo>,
    /// The identifier that the next job gets.
    next_id: u32,
}

impl View for TaskPool {
    type V = PoolView;

    closed spec fn view(&self) -> PoolView {
        PoolView {
            tasks: self.pool@.map_values(|info: TaskInfo| info@),
            next_id: self.next_id,
        }
    }
}

/// The line that a listing shows for one entry.
fn summary_line(id: u32, info: &TaskInfo) -> (line: (u32, u64, String))
    ensures
        line.deep_view() == (id, info@.interval, info@.content),
{
    (id, info.interval, info.content.clone())
}

/// A walk over the entries of the registry's map that meets every entry
/// exactly once gives, line by line, exactly what a listing shows.
proof fn lemma_listing(
    pool: Map<u32, TaskInfo>,
    all: Seq<(&u32, &TaskInfo)>,
    lines: Seq<(u32, u64, Seq<char>)>,
)
    requires
        all.no_duplicates(),
        all.len() == pool.dom().len(),
        forall|i: int|
            0 <= i < all.len() ==> pool.contains_key(*(#[trigger] all[i]).0) && pool[*all[i].0]
                == *all[i].1,
        forall|id: u32| #[trigger] pool.contains_key(id) ==> all.contains((&id, &pool[id])),
        lines.len() == all.len(),
        forall|i: int|
            0 <= i < all.len() ==> #[trigger] lines[i] == (
                *all[i].0,
                all[i].1@.interval,
                all[i].1@.content,
            ),
    ensures
        ({
            let view = PoolView { tasks: pool.map_values(|info: TaskInfo| info@), next_id: 0 };
            &&& lines.to_set() == view.listing()
            &&& lines.no_duplicates()
            &&& lines.len() == view.tasks.len()
        }),
{
    let view = PoolView { tasks: pool.map_values(|info: TaskInfo| info@), next_id: 0 };
    assert(view.tasks.dom() =~= pool.dom());
    assert forall|line: (u32, u64, Seq<char>)| lines.to_set().contains(line)
        <==> view.listing().contains(line) by {
        if lines.to_set().contains(line) {
            let i = choose|i: int| 0 <= i < lines.len() && lines[i] == line;
            assert(pool.contains_key(*all[i].0));
        }
        if view.listing().contains(line) {
            let entry = (&line.0, &pool[line.0]);
            assert(all.contains(entry));
            let i = choose|i: int| 0 <= i < all.len() && all[i] == entry;
            assert(lines[i] == line);
        }
    }
    assert(lines.to_set() =~= view.listing());
    assert forall|i: int, j: int| 0 <= i < lines.len() && 0 <= j < lines.len() && i != j implies lines[i]
        != lines[j] by {
        if lines[i] == lines[j] {
            assert(*all[i].0 == *all[j].0);
            assert(pool[*all[i].0] == *all[i].1);
            assert(pool[*all[j].0] == *all[j].1);
            assert(all[i] == all[j]);
        }
    }
}

impl TaskPool {
    /// An empty registry whose first job will get the identifier 0.
    pub fn new() -> (pool: Self)
        ensures
            pool@ == PoolView::empty(),
    {
        let pool = TaskPool { pool: HashMap::new(), next_id: 0 };
        assert(pool@.tasks =~= Map::<u32, TaskEntry>::empty());
        pool
    }

    /// Starts `task`: gives it the next identifier, keeps its summary and
    /// the sending ends of its channels under that identifier, and returns
    /// the identifier together with the job's loop and the receiving ends,
    /// for the caller to run.
    pub fn add_task(&mut self, task: ScheduleTask) -> (started: (u32, TaskRun))
        requires
            task.deep_view().valid(),
        ensures
            (final(self)@, started.0) == old(self)@.add(task.deep_view().entry()),
            started.1.job.deep_view() == task.deep_view().job(started.0),
            started.1.editor_rx == task.deep_view().editor_rx,
            started.1.signal_rx == task.deep_view().signal_rx,
    {
        let id = self.next_id;
        self.next_id = id.wrapping_add(1);
        let (info, run) = task.run(id);
        self.pool.insert(id, info);
        assert(final(self)@.tasks =~= old(self)@.tasks.insert(id, task.deep_view().entry()));
        (id, run)
    }

    /// The jobs in the registry, one line each, in no particular order: the
    /// identifier, the interval and the text of the summary.
    pub fn list_task(&self) -> (list: Vec<(u32, u64, String)>)
        ensures
            list.deep_view().to_set() == self@.listing(),
            list.deep_view().no_duplicates(),
            list.len() == self@.tasks.len(),
    {
        let mut list: Vec<(u32, u64, String)> = Vec::new();
        let ghost all = self.pool.iter().remaining();
        for entry in entries: self.pool.iter()
            invariant
                entries.seq() == all,
                all.no_duplicates(),
                list.len() == entries.index(),
                forall|i: int|
                    0 <= i < list.len() ==> (#[trigger] list[i]).deep_view() == (
                        *all[i].0,
                        all[i].1@.interval,
                        all[i].1@.content,
                    ),
        {
            let (id, info) = entry;
            list.push(summary_line(*id, info));
        }
        proof {
            lemma_listing(self.pool@, all, list.deep_view());
        }
        list
    }

    /// Removes the job registered under `index` and asks it to stop. Fails,
    /// changing nothing, if there is no such job.
    pub fn remove(&mut self, index: u32) -> (removed: Result<(), NotFoundError>)
        ensures
            (final(self)@, removed) == old(self)@.remove(index),
    {
        if !self.pool.contains_key(&index) {
            return Err(NotFoundError { id: index });
        }
        let task = self.pool.remove(&index);
        assert(final(self)@.tasks =~= old(self)@.tasks.remove(index));
        if let Some(info) = task {
            let _ = info.sig.shutdown();
        }
        Ok(())
    }
}

} // verus!
