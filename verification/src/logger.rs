//! The supervisor of the workers, and what a worker does with a read.

use crate::queue::NewInternalLog;
use crate::text::{lines_of, same_text};
use crate::utils::{convert_log, is_converted, thread_label, with_logger, LogType};
use crate::{LogBuffer, Name, ThreadChannel};
use vstd::prelude::*;
use vstd::string::StringExecFns;

verus! {

/// What the supervisor's caller is to do after a step.
pub enum Action<S> {
    /// Forget every worker. None of them is stopped: each ends when its
    /// stream does.
    DropAll,
    /// Start a worker on this stream and register it under the stream's name, in
    /// place of any worker registered under that name.
    Spawn(LogBuffer<S>),
    /// Write this text to the destination and flush.
    Write(String),
    /// Show this text, write it to the destination, flush, and stop.
    Close(String),
}

/// The names of `bufs`, in order.
pub open spec fn names_of<S>(bufs: Seq<LogBuffer<S>>) -> Seq<Seq<char>> {
    bufs.map_values(|buf: LogBuffer<S>| buf.name.0@)
}

/// What a control message asks the caller to do: nothing without a message,
/// to forget the workers on `Clear`, and to start one worker for each new
/// stream, in the order in which they stand in the message.
pub open spec fn control_actions<S>(message: Option<ThreadChannel<S>>) -> Seq<Action<S>> {
    match message {
        None => Seq::empty(),
        Some(ThreadChannel::Clear) => seq![Action::DropAll],
        Some(ThreadChannel::NewBufs(bufs)) => bufs@.map_values(|buf: LogBuffer<S>| Action::Spawn(buf)),
    }
}

/// What the pending text asks the caller to do: to write it, if there is any.
pub open spec fn drain_actions<S>(queue: NewInternalLog) -> Seq<Action<S>> {
    match queue {
        NewInternalLog::New(text) => seq![Action::Write(text)],
        NewInternalLog::Empty => Seq::empty(),
    }
}

/// The names registered after a control message, given those registered before.
pub open spec fn registered_after<S>(
    registered: Set<Seq<char>>,
    message: Option<ThreadChannel<S>>,
) -> Set<Seq<char>> {
    match message {
        None => registered,
        Some(ThreadChannel::Clear) => Set::empty(),
        Some(ThreadChannel::NewBufs(bufs)) => registered.union(names_of(bufs@).to_set()),
    }
}

/// The text of the notice that the supervisor writes when it stops.
pub const CLOSING_NOTICE: &'static str = "Closing main logger thread";

/// Whether `actions` are what a step of a running supervisor asks for:
/// `front`, and behind it, where the supervisor was told to stop, the closing
/// notice as a line of the log written by the thread `thread`.
pub open spec fn is_step_output<S>(
    actions: Seq<Action<S>>,
    front: Seq<Action<S>>,
    killed: bool,
    thread: Seq<char>,
) -> bool {
    if killed {
        &&& actions.len() == front.len() + 1
        &&& actions.drop_last() == front
        &&& actions.last() matches Action::Close(notice) && is_converted(
            notice@,
            LogType::Info.prefix_text(thread),
            lines_of(CLOSING_NOTICE@),
        )
    } else {
        actions == front
    }
}

/// The text of the notice that a worker logs when it ends.
pub const WORKER_NOTICE: &'static str = "Closing thread";

/// What a worker is to do after a read of its stream.
pub enum WorkerAction {
    /// Show this line, write it to the destination, flush, and read on.
    Forward(String),
    /// Show this notice and end.
    Close(String),
}

/// What a worker does after a read of a line from its stream. `read` is the
/// number of bytes that the read brought, or nothing where it failed, and
/// `line` is what it brought. A line is passed on. At the end of the
/// stream, and where the read failed, the worker logs a notice to `queue`
/// and ends.
pub fn worker_step(
    read: Option<usize>,
    line: String,
    queue: &mut NewInternalLog,
    thread_name: Option<&str>,
) -> (action: WorkerAction)
    ensures
        (read matches Some(n) && n > 0) ==> {
            &&& action == WorkerAction::Forward(line)
            &&& *final(queue) == *old(queue)
        },
        !(read matches Some(n) && n > 0) ==> {
            &&& action matches WorkerAction::Close(notice) && is_converted(
                notice@,
                LogType::Info.prefix_text(thread_label(thread_name)),
                lines_of(WORKER_NOTICE@),
            ) && final(queue).pending() == old(queue).pending() + notice@ + "\n"@
            &&& *final(queue) is New
        },
{
    match read {
        Some(n) if n > 0 => WorkerAction::Forward(line),
        _ => {
            let notice = with_logger(
                queue,
                thread_name,
                String::from_str(WORKER_NOTICE),
                LogType::Info,
            );
            WorkerAction::Close(notice)
        },
    }
}

/// The supervisor: the names of the workers it has registered, and whether it has
/// stopped.
pub struct Supervisor {
    registry: Vec<Name>,
    terminated: bool,
}

impl Supervisor {
    /// The names of the registered workers.
    pub closed spec fn registered(&self) -> Set<Seq<char>> {
        self.registry@.map_values(|name: Name| name.0@).to_set()
    }

    /// Whether the supervisor has stopped.
    pub closed spec fn terminated(&self) -> bool {
        self.terminated
    }

    /// A supervisor that runs and has no worker registered.
    pub fn new() -> (supervisor: Self)
        ensures
            !supervisor.terminated(),
            supervisor.registered() == Set::<Seq<char>>::empty(),
    {
        let supervisor = Supervisor { registry: Vec::new(), terminated: false };
        assert(supervisor.registry@.map_values(|name: Name| name.0@) =~= Seq::empty());
        assert(supervisor.registered() =~= Set::<Seq<char>>::empty());
        supervisor
    }

    /// Registers `name`, in place of the same name if it is registered.
    fn register(&mut self, name: Name)
        ensures
            final(self).registered() == old(self).registered().insert(name.0@),
            final(self).terminated() == old(self).terminated(),
    {
        let ghost names = self.registry@.map_values(|name: Name| name.0@);
        let mut found = false;
        let mut i: usize = 0;
        while i < self.registry.len()
            invariant
                i <= self.registry.len(),
                *self == *old(self),
                names == self.registry@.map_values(|name: Name| name.0@),
                found == exists|k: int| 0 <= k < i && names[k] == name.0@,
            decreases self.registry.len() - i,
        {
            if same_text(self.registry[i].0, name.0) {
                assert(names[i as int] == name.0@);
                found = true;
            }
            i += 1;
        }
        if found {
            assert(names.to_set().contains(name.0@));
            assert(names.to_set().insert(name.0@) =~= names.to_set());
        } else {
            self.registry.push(name);
            assert(self.registry@.map_values(|name: Name| name.0@) =~= names.push(name.0@));
            proof {
                names.lemma_push_to_set_commute(name.0@);
            }
        }
    }

    /// One turn of the supervisor's loop. `message` is the control message
    /// that arrived while it waited, if one did; `queue` holds the text that
    /// is pending; `killed` says whether the supervisor was told to stop; and
    /// `thread_name` is the name of the thread that runs it.
    ///
    /// A running supervisor follows the message, takes the pending text out
    /// to be written, and, if it was told to stop, closes with a notice and
    /// stops. A supervisor that has stopped asks for nothing and changes
    /// nothing.
    pub fn step<S>(
        &mut self,
        message: Option<ThreadChannel<S>>,
        queue: &mut NewInternalLog,
        killed: bool,
        thread_name: Option<&str>,
    ) -> (actions: Vec<Action<S>>)
        ensures
            old(self).terminated() ==> {
                &&& actions@.len() == 0
                &&& *final(self) == *old(self)
                &&& *final(queue) == *old(queue)
            },
            !old(self).terminated() ==> {
                &&& final(self).registered() == registered_after(old(self).registered(), message)
                &&& final(self).terminated() == killed
                &&& *final(queue) == NewInternalLog::Empty
                &&& is_step_output(
                    actions@,
                    control_actions(message) + drain_actions(*old(queue)),
                    killed,
                    thread_label(thread_name),
                )
            },
    {
        let mut actions: Vec<Action<S>> = Vec::new();
        if self.terminated {
            return actions;
        }
        match message {
            None => {},
            Some(ThreadChannel::Clear) => {
                self.registry.clear();
                actions.push(Action::DropAll);
                assert(self.registry@.map_values(|name: Name| name.0@) =~= Seq::empty());
                assert(self.registered() =~= Set::<Seq<char>>::empty());
            },
            Some(ThreadChannel::NewBufs(bufs)) => {
                let ghost all = bufs@;
                assert(names_of(all.take(0)) =~= Seq::empty());
                assert(old(self).registered().union(names_of(all.take(0)).to_set())
                    =~= old(self).registered());
                for buf in it: bufs
                    invariant
                        it.seq() == all,
                        !self.terminated,
                        self.registered() == old(self).registered().union(
                            names_of(all.take(it.index() as int)).to_set(),
                        ),
                        actions@ == all.take(it.index() as int).map_values(
                            |buf: LogBuffer<S>| Action::Spawn(buf),
                        ),
                {
                    let ghost done = all.take(it.index() as int);
                    let ghost next = all.take(it.index() + 1);
                    self.register(buf.name);
                    actions.push(Action::Spawn(buf));
                    proof {
                        assert(next =~= done.push(buf));
                        assert(names_of(next) =~= names_of(done).push(buf.name.0@));
                        names_of(done).lemma_push_to_set_commute(buf.name.0@);
                        assert(self.registered() =~= old(self).registered().union(
                            names_of(next).to_set(),
                        ));
                        assert(actions@ =~= next.map_values(|buf: LogBuffer<S>| Action::Spawn(buf)));
                    }
                }
                assert(all.take(all.len() as int) =~= all);
            },
        }
        let ghost control = actions@;
        assert(control == control_actions(message));
        match queue.take() {
            Some(text) => actions.push(Action::Write(text)),
            None => {},
        }
        let ghost front = actions@;
        assert(front =~= control_actions(message) + drain_actions::<S>(*old(queue)));
        if killed {
            let notice = convert_log(LogType::Info, thread_name, CLOSING_NOTICE);
            actions.push(Action::Close(notice));
            self.terminated = true;
            assert(actions@.drop_last() =~= front);
        }
        actions
    }

    /// Whether the supervisor has stopped.
    pub fn is_finished(&self) -> (finished: bool)
        ensures
            finished == self.terminated(),
    {
        self.terminated
    }
}

/// Streams that are sent behind a message that clears take the place of
/// all that were registered: after the two messages the registered names
/// are those of the new streams, and no others.
pub proof fn lemma_clear_then_register<S>(registered: Set<Seq<char>>, bufs: Vec<LogBuffer<S>>)
    ensures
        registered_after(
            registered_after(registered, Some(ThreadChannel::<S>::Clear)),
            Some(ThreadChannel::NewBufs(bufs)),
        ) == names_of(bufs@).to_set(),
{
    assert(Set::<Seq<char>>::empty().union(names_of(bufs@).to_set()) =~= names_of(bufs@).to_set());
}

/// In what a step asks for, nothing is written behind the closing notice:
/// the notice comes last, and no other action is a closing one.
pub proof fn lemma_close_is_last<S>(
    actions: Seq<Action<S>>,
    message: Option<ThreadChannel<S>>,
    queue: NewInternalLog,
    killed: bool,
    thread: Seq<char>,
    i: int,
)
    requires
        is_step_output(actions, control_actions(message) + drain_actions(queue), killed, thread),
        0 <= i < actions.len(),
    ensures
        actions[i] is Close <==> killed && i == actions.len() - 1,
{
    let control = control_actions(message);
    let drain = drain_actions::<S>(queue);
    let front = control + drain;
    if i < front.len() {
        if killed {
            assert(actions.drop_last()[i] == actions[i]);
        }
        assert(actions[i] == front[i]);
        if i < control.len() {
            assert(front[i] == control[i]);
        } else {
            assert(front[i] == drain[i - control.len()]);
        }
    }
}

} // verus!
