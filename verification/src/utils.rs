//! The text of a log line: when it was written, by which thread, how grave
//! it is, and what it says.

use crate::clock::{has_shape, local_time_text, LOG_FORMAT, LOG_SHAPE};
use crate::queue::NewInternalLog;
use crate::text::{join_lines, lines, lines_of};
use crate::{LogBuffer, ThreadChannel};
use vstd::prelude::*;
use vstd::string::StringExecFns;

verus! {

/// How grave a message is.
#[derive(Debug, Clone, Copy, PartialEq, Eq, Structural)]
pub enum LogType {
    Warn,
    Info,
    Error,
}

/// The name that a line gives to its thread: the thread's own name, or
/// `unamed` where it has none.
pub open spec fn thread_label(thread_name: Option<&str>) -> Seq<char> {
    match thread_name {
        Some(name) => name@,
        None => "unamed"@,
    }
}

/// The date `date` as it stands at the start of a line.
pub open spec fn time_tag(date: Seq<char>) -> Seq<char> {
    "["@ + date + "]:"@
}

/// Whether `tag` is a date of the clock's shape as it stands at the start
/// of a line.
pub open spec fn is_time_tag(tag: Seq<char>) -> bool {
    exists|date: Seq<char>| #![trigger time_tag(date)] has_shape(date, LOG_SHAPE@) && tag == time_tag(date)
}

/// One line of the log: the time, who wrote it and how grave it is, a
/// space, and the text.
pub open spec fn log_line(tag: Seq<char>, prefix: Seq<char>, line: Seq<char>) -> Seq<char> {
    tag + prefix + " "@ + line
}

/// The lines of the log for `lines`, the one at `i` written at `tags[i]`.
pub open spec fn log_lines(tags: Seq<Seq<char>>, prefix: Seq<char>, lines: Seq<Seq<char>>) -> Seq<
    Seq<char>,
> {
    Seq::new(lines.len(), |i: int| log_line(tags[i], prefix, lines[i]))
}

/// Whether `text` is the log text for `lines` under `prefix`: one line of
/// the log for each of them, each with a time of its own, and a line feed
/// between one and the next.
pub open spec fn is_converted(text: Seq<char>, prefix: Seq<char>, lines: Seq<Seq<char>>) -> bool {
    exists|tags: Seq<Seq<char>>|
        #![trigger log_lines(tags, prefix, lines)]
        {
            &&& tags.len() == lines.len()
            &&& forall|i: int| 0 <= i < tags.len() ==> is_time_tag(#[trigger] tags[i])
            &&& text == join_lines(log_lines(tags, prefix, lines))
        }
}

impl LogType {
    /// The word that stands for this gravity in a line.
    pub open spec fn severity(self) -> Seq<char> {
        match self {
            LogType::Warn => "WARN"@,
            LogType::Info => "INFO"@,
            LogType::Error => "ERR"@,
        }
    }

    /// What a line says of its writer: the thread called `thread`, and
    /// this gravity.
    pub open spec fn prefix_text(self, thread: Seq<char>) -> Seq<char> {
        "[thread:"@ + thread + ":"@ + self.severity() + "]:"@
    }

    /// What a line says of its writer: the thread, by its name or as
    /// `unamed`, and this gravity.
    pub fn prefix(&self, thread_name: Option<&str>) -> (prefix: String)
        ensures
            prefix@ == self.prefix_text(thread_label(thread_name)),
    {
        let mut prefix = String::from_str("[thread:");
        match thread_name {
            Some(name) => prefix.append(name),
            None => prefix.append("unamed"),
        }
        prefix.append(":");
        match self {
            LogType::Warn => prefix.append("WARN"),
            LogType::Info => prefix.append("INFO"),
            LogType::Error => prefix.append("ERR"),
        }
        prefix.append("]:");
        prefix
    }
}

/// The time of the call as it stands at the start of a line.
pub fn log_time() -> (tag: String)
    ensures
        is_time_tag(tag@),
{
    let date = local_time_text(LOG_FORMAT);
    let mut tag = String::from_str("[");
    tag.append(date.as_str());
    tag.append("]:");
    assert(tag@ == time_tag(date@));
    tag
}

/// One line of the log.
pub fn format_line(tag: &str, prefix: &str, line: &str) -> (text: String)
    ensures
        text@ == log_line(tag@, prefix@, line@),
{
    let mut text = String::from_str(tag);
    text.append(prefix);
    text.append(" ");
    text.append(line);
    text
}

/// The log text for `msg`, written by the thread `thread_name` with the
/// gravity `log_type`: each line of `msg` becomes a line of the log with the
/// time at which it was converted.
pub fn convert_log(log_type: LogType, thread_name: Option<&str>, msg: &str) -> (text: String)
    ensures
        is_converted(text@, log_type.prefix_text(thread_label(thread_name)), lines_of(msg@)),
{
    let prefix = log_type.prefix(thread_name);
    let all = lines(msg);
    let ghost texts = lines_of(msg@);
    let ghost mut tags: Seq<Seq<char>> = Seq::empty();
    let mut text = String::new();
    let mut i: usize = 0;
    assert(log_lines(tags, prefix@, texts.take(0)) =~= Seq::<Seq<char>>::empty());
    while i < all.len()
        invariant
            i <= all.len(),
            all@.map_values(|line: String| line@) == texts,
            tags.len() == i,
            forall|k: int| 0 <= k < tags.len() ==> is_time_tag(#[trigger] tags[k]),
            text@ == join_lines(log_lines(tags, prefix@, texts.take(i as int))),
        decreases all.len() - i,
    {
        let ghost done = log_lines(tags, prefix@, texts.take(i as int));
        let tag = log_time();
        let line = format_line(tag.as_str(), prefix.as_str(), all[i].as_str());
        if i > 0 {
            text.append("\n");
        }
        text.append(line.as_str());
        proof {
            reveal_strlit("\n");
            assert("\n"@ =~= seq!['\n']);
            assert(all@.map_values(|line: String| line@)[i as int] == all@[i as int]@);
            tags = tags.push(tag@);
            let next = log_lines(tags, prefix@, texts.take(i + 1));
            assert(next =~= done.push(line@));
            assert(next.drop_last() =~= done);
            if i == 0 {
                assert(text@ =~= line@);
            }
        }
        i += 1;
    }
    proof {
        assert(texts.take(i as int) =~= texts);
    }
    text
}

/// Takes in the message `log`: converts it, puts it with a line feed behind
/// what is pending in `queue`, and hands back the converted text for the
/// caller to show.
pub fn with_logger(
    queue: &mut NewInternalLog,
    thread_name: Option<&str>,
    log: String,
    log_type: LogType,
) -> (shown: String)
    ensures
        is_converted(shown@, log_type.prefix_text(thread_label(thread_name)), lines_of(log@)),
        *final(queue) is New,
        final(queue).pending() == old(queue).pending() + shown@ + "\n"@,
{
    let shown = convert_log(log_type, thread_name, log.as_str());
    queue.append(shown.as_str());
    queue.append("\n");
    shown
}

/// The control messages that put `bufs` in the place of every registered
/// stream: one that clears, then one that registers them.
pub fn new_input_bufs<S>(bufs: Vec<LogBuffer<S>>) -> (messages: Vec<ThreadChannel<S>>)
    ensures
        messages@ == seq![ThreadChannel::Clear, ThreadChannel::NewBufs(bufs)],
{
    let mut messages: Vec<ThreadChannel<S>> = Vec::new();
    messages.push(ThreadChannel::Clear);
    messages.push(ThreadChannel::NewBufs(bufs));
    assert(messages@ =~= seq![ThreadChannel::Clear, ThreadChannel::NewBufs(bufs)]);
    messages
}

} // verus!
