//! Acknowledgements: marking messages as read and recording mentions.
//!
//! Marking a channel as read is debounced: of the markings that come for one
//! user and channel in quick succession only the last is carried out.
//! Mentions are recorded at once.

use vstd::prelude::*;
use crate::ids::{same_id, Id};
use crate::record::{duplicate_all, views, Record};

verus! {

/// What can be asked for a user in a channel.
#[derive(Debug, PartialEq, Eq)]
pub enum AckEvent {
    /// Add mentions of the user in the channel.
    AddMention {
        /// The messages that mention the user.
        ids: Vec<String>,
    },
    /// Mark the channel as read up to a message.
    AckMessage {
        /// The message.
        id: String,
    },
}

/// What an acknowledgement stands for: the model that contracts speak of.
pub enum AckEventView {
    AddMention { ids: Seq<Id> },
    AckMessage { id: Id },
}

impl View for AckEvent {
    type V = AckEventView;

    open spec fn view(&self) -> AckEventView {
        match self {
            AckEvent::AddMention { ids } => AckEventView::AddMention { ids: views(ids@) },
            AckEvent::AckMessage { id } => AckEventView::AckMessage { id: id@ },
        }
    }
}

impl Record for AckEvent {
    fn duplicate(&self) -> (r: Self) {
        match self {
            AckEvent::AddMention { ids } => AckEvent::AddMention { ids: duplicate_all(ids) },
            AckEvent::AckMessage { id } => AckEvent::AckMessage { id: id.clone() },
        }
    }
}

impl AckEvent {
    /// Whether the event waits for later events of its kind for the same user
    /// and channel, the last of which is the one carried out: so it is with
    /// the marking as read, while mentions are recorded at once.
    pub fn is_debounced(&self) -> (r: bool)
        ensures
            r == (self@ is AckMessage),
    {
        match self {
            AckEvent::AckMessage { .. } => true,
            AckEvent::AddMention { .. } => false,
        }
    }
}

/// An acknowledgement that waits to be carried out. Times are seconds on
/// the clock of whoever runs the board.
#[derive(Debug, PartialEq, Eq)]
pub struct Task {
    pub user: String,
    pub channel: String,
    pub event: AckEvent,
    /// When the first event for the user and channel came.
    pub first_seen: u64,
    /// When the last one came.
    pub last_updated: u64,
}

/// What a waiting acknowledgement stands for: the model that contracts speak
/// of.
pub struct TaskView {
    pub user: Id,
    pub channel: Id,
    pub event: AckEventView,
    pub first_seen: u64,
    pub last_updated: u64,
}

impl View for Task {
    type V = TaskView;

    open spec fn view(&self) -> TaskView {
        TaskView {
            user: self.user@,
            channel: self.channel@,
            event: self.event@,
            first_seen: self.first_seen,
            last_updated: self.last_updated,
        }
    }
}

impl TaskView {
    /// Whether the task is due at `now`: it has waited longer than `expire`
    /// seconds in all, or longer than `save` seconds since the last event.
    pub open spec fn should_run(self, now: u64, expire: u64, save: u64) -> bool {
        now - self.first_seen > expire || now - self.last_updated > save
    }
}

impl Task {
    /// Whether the task is due at `now`.
    pub fn should_run(&self, now: u64, expire: u64, save: u64) -> (r: bool)
        ensures
            r == self@.should_run(now, expire, save),
    {
        (now > self.first_seen && now - self.first_seen > expire) || (now > self.last_updated
            && now - self.last_updated > save)
    }
}

/// Whether a task for `user` in `channel` is among `tasks`.
pub open spec fn waits(tasks: Seq<TaskView>, user: Id, channel: Id) -> bool {
    exists|i: int| 0 <= i < tasks.len() && (#[trigger] tasks[i]).user == user && tasks[i].channel
        == channel
}

/// A task after an event for `user` in `channel` has come at `now`: the task
/// for them takes the event and waits on, any other stays as it is.
pub open spec fn touched(
    task: TaskView,
    user: Id,
    channel: Id,
    event: AckEventView,
    now: u64,
) -> TaskView {
    if task.user == user && task.channel == channel {
        TaskView { event, last_updated: now, ..task }
    } else {
        task
    }
}

/// The tasks after an event for `user` in `channel` has come at `now`: the
/// task that waits for them takes the event and waits on, or a new task is
/// the last to wait.
pub open spec fn delayed(
    tasks: Seq<TaskView>,
    user: Id,
    channel: Id,
    event: AckEventView,
    now: u64,
) -> Seq<TaskView> {
    if waits(tasks, user, channel) {
        Seq::new(tasks.len(), |i: int| touched(tasks[i], user, channel, event, now))
    } else {
        tasks.push(TaskView { user, channel, event, first_seen: now, last_updated: now })
    }
}

/// Those of `tasks` that are due at `now`, or those that are not, in order.
pub open spec fn sifted(tasks: Seq<TaskView>, now: u64, expire: u64, save: u64, due: bool) -> Seq<
    TaskView,
>
    decreases tasks.len(),
{
    if tasks.len() == 0 {
        Seq::empty()
    } else {
        let before = sifted(tasks.drop_last(), now, expire, save, due);
        if tasks.last().should_run(now, expire, save) == due {
            before.push(tasks.last())
        } else {
            before
        }
    }
}

/// The acknowledgements that wait, in the order in which their first events
/// came.
pub struct AckBoard {
    /// After how many seconds in all a task is due.
    expire: u64,
    /// After how many seconds without a new event a task is due.
    save: u64,
    tasks: Vec<Task>,
}

impl AckBoard {
    /// The tasks that wait.
    pub closed spec fn tasks(&self) -> Seq<TaskView> {
        views(self.tasks@)
    }

    /// After how many seconds in all a task is due.
    pub closed spec fn expire(&self) -> u64 {
        self.expire
    }

    /// After how many seconds without a new event a task is due.
    pub closed spec fn save(&self) -> u64 {
        self.save
    }

    /// A board on which nothing waits.
    pub fn new(expire: u64, save: u64) -> (r: Self)
        ensures
            r.tasks() == Seq::<TaskView>::empty(),
            r.expire() == expire,
            r.save() == save,
    {
        let r = AckBoard { expire, save, tasks: Vec::new() };
        assert(r.tasks() =~= Seq::<TaskView>::empty());
        r
    }

    /// How many tasks wait.
    pub fn len(&self) -> (r: usize)
        ensures
            r == self.tasks().len(),
    {
        self.tasks.len()
    }

    /// Takes an event that has come at `now`. An event that is not debounced
    /// is handed back to be carried out at once. Any other waits: it takes
    /// the place of the event that waits for the same user and channel, or
    /// is the last to wait.
    pub fn submit(&mut self, user: String, channel: String, event: AckEvent, now: u64) -> (r:
        Option<AckEvent>)
        ensures
            final(self).expire() == old(self).expire(),
            final(self).save() == old(self).save(),
            match r {
                Some(at_once) => {
                    &&& !(event@ is AckMessage)
                    &&& at_once@ == event@
                    &&& final(self).tasks() == old(self).tasks()
                },
                None => {
                    &&& event@ is AckMessage
                    &&& final(self).tasks() == delayed(
                        old(self).tasks(),
                        user@,
                        channel@,
                        event@,
                        now,
                    )
                },
            },
    {
        if !event.is_debounced() {
            return Some(event);
        }
        let ghost before = self.tasks();
        let mut found = false;
        let mut i: usize = 0;
        while i < self.tasks.len()
            invariant
                i <= self.tasks.len(),
                self.tasks().len() == before.len(),
                self.expire() == old(self).expire(),
                self.save() == old(self).save(),
                found == waits(before.take(i as int), user@, channel@),
                forall|j: int|
                    0 <= j < i ==> #[trigger] self.tasks()[j] == touched(
                        before[j],
                        user@,
                        channel@,
                        event@,
                        now,
                    ),
                forall|j: int| i <= j < before.len() ==> #[trigger] self.tasks()[j] == before[j],
            decreases self.tasks.len() - i,
        {
            let ghost current = self.tasks();
            let hit = same_id(self.tasks[i].user.as_str(), user.as_str()) && same_id(
                self.tasks[i].channel.as_str(),
                channel.as_str(),
            );
            proof {
                assert(current[i as int] == self.tasks[i as int]@);
                let front = before.take(i as int);
                let next = before.take(i + 1);
                assert(next =~= front.push(before[i as int]));
                if waits(front, user@, channel@) {
                    let k = choose|k: int|
                        0 <= k < front.len() && (#[trigger] front[k]).user == user@
                            && front[k].channel == channel@;
                    assert(next[k].user == user@ && next[k].channel == channel@);
                }
                if hit {
                    assert(next[i as int].user == user@ && next[i as int].channel == channel@);
                }
                if waits(next, user@, channel@) && !hit {
                    let k = choose|k: int|
                        0 <= k < next.len() && (#[trigger] next[k]).user == user@
                            && next[k].channel == channel@;
                    assert(front[k].user == user@ && front[k].channel == channel@);
                }
            }
            if hit {
                let task = Task {
                    user: self.tasks[i].user.clone(),
                    channel: self.tasks[i].channel.clone(),
                    event: event.duplicate(),
                    first_seen: self.tasks[i].first_seen,
                    last_updated: now,
                };
                self.tasks.set(i, task);
                found = true;
            }
            proof {
                let after = self.tasks();
                assert forall|j: int| 0 <= j < after.len() && j != i implies after[j]
                    == current[j] by {}
                assert(after[i as int] == touched(before[i as int], user@, channel@, event@, now));
                assert forall|j: int| 0 <= j < i + 1 implies #[trigger] after[j] == touched(
                    before[j],
                    user@,
                    channel@,
                    event@,
                    now,
                ) by {
                    if j < i {
                        assert(current[j] == touched(before[j], user@, channel@, event@, now));
                    }
                }
                assert forall|j: int| i + 1 <= j < before.len() implies #[trigger] after[j]
                    == before[j] by {
                    assert(current[j] == before[j]);
                }
            }
            i += 1;
        }
        proof {
            assert(before.take(before.len() as int) =~= before);
        }
        if found {
            assert(self.tasks() =~= delayed(before, user@, channel@, event@, now));
        } else {
            assert(self.tasks() =~= before);
            let ghost kept = self.tasks@;
            let task = Task { user, channel, event, first_seen: now, last_updated: now };
            self.tasks.push(task);
            assert(self.tasks() =~= views(kept).push(task@));
        }
        None
    }

    /// Takes out the tasks that are due at `now`, in their order; the others
    /// wait on.
    pub fn take_due(&mut self, now: u64) -> (r: Vec<Task>)
        ensures
            final(self).expire() == old(self).expire(),
            final(self).save() == old(self).save(),
            views(r@) == sifted(old(self).tasks(), now, old(self).expire(), old(self).save(), true),
            final(self).tasks() == sifted(
                old(self).tasks(),
                now,
                old(self).expire(),
                old(self).save(),
                false,
            ),
    {
        let ghost before = self.tasks();
        let mut due: Vec<Task> = Vec::new();
        let mut rest: Vec<Task> = Vec::new();
        let mut i: usize = 0;
        assert(before.take(0) =~= Seq::<TaskView>::empty());
        assert(views(due@) =~= Seq::<TaskView>::empty());
        assert(views(rest@) =~= Seq::<TaskView>::empty());
        while i < self.tasks.len()
            invariant
                i <= self.tasks.len(),
                self.tasks() == before,
                self.expire() == old(self).expire(),
                self.save() == old(self).save(),
                views(due@) == sifted(before.take(i as int), now, self.expire(), self.save(), true),
                views(rest@) == sifted(
                    before.take(i as int),
                    now,
                    self.expire(),
                    self.save(),
                    false,
                ),
            decreases self.tasks.len() - i,
        {
            let ghost due_before = due@;
            let ghost rest_before = rest@;
            proof {
                assert(before.take(i + 1).drop_last() =~= before.take(i as int));
                assert(before.take(i + 1).last() == self.tasks[i as int]@);
            }
            let task = &self.tasks[i];
            let copy = Task {
                user: task.user.clone(),
                channel: task.channel.clone(),
                event: task.event.duplicate(),
                first_seen: task.first_seen,
                last_updated: task.last_updated,
            };
            if task.should_run(now, self.expire, self.save) {
                due.push(copy);
                assert(views(due@) =~= views(due_before).push(task@));
            } else {
                rest.push(copy);
                assert(views(rest@) =~= views(rest_before).push(task@));
            }
            i += 1;
        }
        assert(before.take(before.len() as int) =~= before);
        self.tasks = rest;
        due
    }
}

/// At most one task waits for each user and channel.
pub open spec fn one_for_each(tasks: Seq<TaskView>) -> bool {
    forall|i: int, j: int|
        0 <= i < tasks.len() && 0 <= j < tasks.len() && (#[trigger] tasks[i]).user
            == (#[trigger] tasks[j]).user && tasks[i].channel == tasks[j].channel ==> i == j
}

/// Taking an event in leaves at most one task for each user and channel, and
/// the event is then the one that waits for its user and channel.
pub proof fn lemma_delayed_keeps_one_for_each(
    tasks: Seq<TaskView>,
    user: Id,
    channel: Id,
    event: AckEventView,
    now: u64,
)
    requires
        one_for_each(tasks),
    ensures
        one_for_each(delayed(tasks, user, channel, event, now)),
        exists|i: int|
            0 <= i < delayed(tasks, user, channel, event, now).len() && (#[trigger] delayed(
                tasks,
                user,
                channel,
                event,
                now,
            )[i]).user == user && delayed(tasks, user, channel, event, now)[i].channel == channel
                && delayed(tasks, user, channel, event, now)[i].event == event && delayed(
                tasks,
                user,
                channel,
                event,
                now,
            )[i].last_updated == now,
{
    let after = delayed(tasks, user, channel, event, now);
    if waits(tasks, user, channel) {
        let k = choose|k: int|
            0 <= k < tasks.len() && (#[trigger] tasks[k]).user == user && tasks[k].channel
                == channel;
        assert(after[k].user == user && after[k].event == event);
        assert forall|i: int, j: int|
            0 <= i < after.len() && 0 <= j < after.len() && (#[trigger] after[i]).user
                == (#[trigger] after[j]).user && after[i].channel == after[j].channel implies i
            == j by {
            assert(tasks[i].user == tasks[j].user && tasks[i].channel == tasks[j].channel);
        }
    } else {
        let n = tasks.len() as int;
        assert(after[n].user == user && after[n].event == event);
        assert forall|i: int, j: int|
            0 <= i < after.len() && 0 <= j < after.len() && (#[trigger] after[i]).user
                == (#[trigger] after[j]).user && after[i].channel == after[j].channel implies i
            == j by {
            if i < n && j < n {
                assert(tasks[i].user == tasks[j].user && tasks[i].channel == tasks[j].channel);
            } else if i < n {
                assert(tasks[i].user == user && tasks[i].channel == channel);
            } else if j < n {
                assert(tasks[j].user == user && tasks[j].channel == channel);
            }
        }
    }
}

} // verus!
