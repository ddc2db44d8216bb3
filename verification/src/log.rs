//! What the handlers report as they run. The entries hold the facts; turning
//! them into text is left to whoever prints them.

use crate::counter::{AddCommand, Counter};
use vstd::prelude::*;

verus! {

/// One report of a handler.
#[derive(Debug, PartialEq, Eq)]
pub enum LogEntry {
    /// The greeting command ran for this caller.
    Greeted { user_id: String },
    /// This caller asked for this change of the counter.
    Requested { user_id: String, command: AddCommand },
    /// The counter after the change.
    Incremented { counter: Counter },
    /// This caller joined the channel.
    Connected { user_id: String },
    /// A message of this caller was dropped unprocessed.
    Dropped { user_id: String },
}

/// A [`LogEntry`] with each caller as a sequence of characters.
pub enum LogEntryView {
    Greeted { user_id: Seq<char> },
    Requested { user_id: Seq<char>, command: AddCommand },
    Incremented { counter: Counter },
    Connected { user_id: Seq<char> },
    Dropped { user_id: Seq<char> },
}

impl View for LogEntry {
    type V = LogEntryView;

    open spec fn view(&self) -> LogEntryView {
        match self {
            LogEntry::Greeted { user_id } => LogEntryView::Greeted { user_id: user_id@ },
            LogEntry::Requested { user_id, command } => LogEntryView::Requested {
                user_id: user_id@,
                command: *command,
            },
            LogEntry::Incremented { counter } => LogEntryView::Incremented { counter: *counter },
            LogEntry::Connected { user_id } => LogEntryView::Connected { user_id: user_id@ },
            LogEntry::Dropped { user_id } => LogEntryView::Dropped { user_id: user_id@ },
        }
    }
}

impl Clone for LogEntry {
    fn clone(&self) -> (copy: Self)
        ensures
            copy@ == self@,
    {
        match self {
            LogEntry::Greeted { user_id } => LogEntry::Greeted { user_id: user_id.clone() },
            LogEntry::Requested { user_id, command } => LogEntry::Requested {
                user_id: user_id.clone(),
                command: *command,
            },
            LogEntry::Incremented { counter } => LogEntry::Incremented { counter: *counter },
            LogEntry::Connected { user_id } => LogEntry::Connected { user_id: user_id.clone() },
            LogEntry::Dropped { user_id } => LogEntry::Dropped { user_id: user_id.clone() },
        }
    }
}

/// The entries of a log, each by its view.
pub open spec fn lines(log: Seq<LogEntry>) -> Seq<LogEntryView> {
    log.map_values(|entry: LogEntry| entry@)
}

/// Appends `entry` to `log`.
pub fn record(log: &mut Vec<LogEntry>, entry: LogEntry)
    ensures
        lines(final(log)@) == lines(old(log)@).push(entry@),
{
    log.push(entry);
    assert(lines(log@) =~= lines(old(log)@).push(entry@));
}

} // verus!
