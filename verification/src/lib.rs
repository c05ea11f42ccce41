//! Log aggregation with a rotating destination file.
//!
//! The crate holds the decisions of a log aggregator: how pending messages
//! are queued, how the archive directory is scanned and pruned, how the
//! current file is copied into an archive, and how the supervisor and its
//! workers react to events. Callers perform the file and thread operations
//! and report their outcomes back.

pub mod clock;
pub mod file;
pub mod logger;
pub mod queue;
pub mod text;
pub mod utils;

pub use queue::NewInternalLog;

use utils::{is_converted, thread_label, with_logger, LogType};
use vstd::prelude::*;
use vstd::string::StringExecFns;

verus! {

/// The name under which an input stream is registered.
#[derive(Debug, Default, Clone, Copy, PartialEq, Eq, Hash)]
pub struct Name(pub &'static str);

/// An input stream and the name it goes by.
pub struct LogBuffer<S> {
    pub name: Name,
    pub buf: S,
}

impl<S> LogBuffer<S> {
    /// The stream `buf` under the name `name`.
    pub fn new(name: Name, buf: S) -> (buffer: Self)
        ensures
            buffer.name == name,
            buffer.buf == buf,
    {
        Self { name, buf }
    }
}

/// What callers ask of the supervisor.
pub enum ThreadChannel<S> {
    /// Forget every worker.
    Clear,
    /// Start a worker for each of these streams.
    NewBufs(Vec<LogBuffer<S>>),
}

/// For how many milliseconds the supervisor waits for a control message.
pub const CONTROL_WAIT_MILLIS: u64 = 500;

/// For how many milliseconds `kill` sleeps between two looks at the
/// supervisor.
pub const KILL_POLL_MILLIS: u64 = 250;

/// The text of the notice that `kill` logs.
pub const KILL_NOTICE: &'static str = "Sent kill to logger thread";

/// The sign that tells the supervisor to stop. It starts lowered, and once
/// raised it stays so.
#[derive(Debug)]
pub struct ShutdownFlag {
    raised: bool,
}

impl ShutdownFlag {
    /// Whether the flag is raised.
    pub closed spec fn raised(&self) -> bool {
        self.raised
    }

    /// A lowered flag.
    pub fn new() -> (flag: Self)
        ensures
            !flag.raised(),
    {
        ShutdownFlag { raised: false }
    }

    /// Raises the flag.
    pub fn raise(&mut self)
        ensures
            final(self).raised(),
    {
        self.raised = true;
    }

    /// Whether the flag is raised.
    pub fn is_raised(&self) -> (raised: bool)
        ensures
            raised == self.raised(),
    {
        self.raised
    }
}

/// Installs `logger` in `slot`, which holds none yet.
pub fn init<L>(slot: &mut Option<L>, logger: L)
    requires
        *old(slot) is None,
    ensures
        *final(slot) == Some(logger),
{
    *slot = Some(logger);
}

/// Tells the supervisor to stop: raises `flag` and logs a notice to
/// `queue`. The notice is handed back for the caller to show. A logger must
/// be installed in `slot`.
pub fn kill<L>(
    slot: &Option<L>,
    flag: &mut ShutdownFlag,
    queue: &mut NewInternalLog,
    thread_name: Option<&str>,
) -> (notice: String)
    requires
        slot is Some,
    ensures
        final(flag).raised(),
        is_converted(
            notice@,
            LogType::Info.prefix_text(thread_label(thread_name)),
            text::lines_of(KILL_NOTICE@),
        ),
        *final(queue) is New,
        final(queue).pending() == old(queue).pending() + notice@ + "\n"@,
{
    flag.raise();
    with_logger(queue, thread_name, String::from_str(KILL_NOTICE), LogType::Info)
}

/// What `kill` does after a look at the supervisor: it returns once the
/// supervisor has stopped, and else sleeps so many milliseconds and looks
/// again.
pub fn kill_wait(finished: bool) -> (sleep: Option<u64>)
    ensures
        sleep == if finished {
            None
        } else {
            Some(KILL_POLL_MILLIS)
        },
{
    if finished {
        None
    } else {
        Some(KILL_POLL_MILLIS)
    }
}

} // verus!
