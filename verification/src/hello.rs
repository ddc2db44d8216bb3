//! The greeting program.

use crate::command::Effect;
use crate::error::CommandError;
use crate::log::{lines, record, LogEntry, LogEntryView};
use vstd::prelude::*;

verus! {

/// The command `greet`: it reports the caller and changes nothing.
#[derive(Clone, Copy, Debug, PartialEq, Eq, Structural)]
pub struct Greet;

impl Greet {
    /// What running the command for `user_id` comes to: a greeting in the
    /// log, and the records as they were.
    pub open spec fn effect(self, user_id: Seq<char>, records: Map<Seq<char>, Seq<u8>>) -> Effect {
        Effect { outcome: Ok(()), records, reports: seq![LogEntryView::Greeted { user_id }] }
    }

    /// Greets `user_id` in the log. It never fails.
    pub fn run(&self, user_id: &str, log: &mut Vec<LogEntry>) -> (done: Result<(), CommandError>)
        ensures
            done is Ok,
            lines(final(log)@) == lines(old(log)@).push(
                LogEntryView::Greeted { user_id: user_id@ },
            ),
    {
        record(log, LogEntry::Greeted { user_id: user_id.to_owned() });
        Ok(())
    }
}

} // verus!
