//! The command registry and the dispatcher: from a name, a payload and a
//! caller to one run of the handler registered under the name.

use crate::counter::{counter_key, AddCommand, ResetCommand};
use crate::error::{outcome, CommandError, CommandErrorView};
use crate::hello::Greet;
use crate::log::{lines, LogEntry, LogEntryView};
use crate::store::Store;
use crate::table::Table;
use vstd::prelude::*;

verus! {

/// What one run of a command comes to.
pub struct Effect {
    /// What the caller is told.
    pub outcome: Result<(), CommandErrorView>,
    /// The records of the store afterwards.
    pub records: Map<Seq<char>, Seq<u8>>,
    /// What the run adds to the log, in order.
    pub reports: Seq<LogEntryView>,
}

/// A run that came to `effect`: it told the caller `done`, took the store
/// from `before` to `after` and the log from `log_before` to `log_after`.
pub open spec fn carried_out(
    effect: Effect,
    done: Result<(), CommandError>,
    before: Store,
    after: Store,
    log_before: Seq<LogEntry>,
    log_after: Seq<LogEntry>,
) -> bool {
    &&& outcome(done) == effect.outcome
    &&& after@ == effect.records
    &&& after.writable() == before.writable()
    &&& lines(log_after) == lines(log_before) + effect.reports
}

/// The handlers that can be registered, each with the payload it expects.
#[derive(Clone, Copy, Debug, PartialEq, Eq, Structural)]
pub enum CommandKind {
    /// [`Greet`]: an empty payload.
    Greet,
    /// [`AddCommand`]: a direction and a number.
    Add,
    /// [`ResetCommand`]: an empty payload.
    Reset,
}

/// A decoded command, ready to run.
#[derive(Clone, Copy, Debug, PartialEq, Eq, Structural)]
pub enum Command {
    Greet(Greet),
    Add(AddCommand),
    Reset(ResetCommand),
}

impl CommandKind {
    /// The command that `payload` stands for, for a handler of this kind.
    pub open spec fn parse(self, payload: Seq<u8>) -> Option<Command> {
        match self {
            CommandKind::Greet => if payload.len() == 0 {
                Some(Command::Greet(Greet))
            } else {
                None
            },
            CommandKind::Add => match AddCommand::parse(payload) {
                Some(command) => Some(Command::Add(command)),
                None => None,
            },
            CommandKind::Reset => if payload.len() == 0 {
                Some(Command::Reset(ResetCommand))
            } else {
                None
            },
        }
    }

    /// Decodes `payload` for a handler of this kind.
    pub fn decode(&self, payload: &[u8]) -> (command: Option<Command>)
        ensures
            command == self.parse(payload@),
    {
        match self {
            CommandKind::Greet => if payload.len() == 0 {
                Some(Command::Greet(Greet))
            } else {
                None
            },
            CommandKind::Add => match AddCommand::decode(payload) {
                Some(command) => Some(Command::Add(command)),
                None => None,
            },
            CommandKind::Reset => if payload.len() == 0 {
                Some(Command::Reset(ResetCommand))
            } else {
                None
            },
        }
    }
}

impl Command {
    /// What running the command for `caller` comes to, in a program that
    /// `owner` owns, on a store that holds `records`.
    pub open spec fn effect(
        self,
        caller: Seq<char>,
        owner: Seq<char>,
        records: Map<Seq<char>, Seq<u8>>,
        writable: bool,
    ) -> Effect {
        match self {
            Command::Greet(command) => command.effect(caller, records),
            Command::Add(command) => command.effect(caller, records, writable),
            Command::Reset(command) => command.effect(caller, owner, records, writable),
        }
    }

    /// Runs the command once for `caller`.
    pub fn run(
        &self,
        caller: &str,
        owner: &str,
        store: &mut Store,
        log: &mut Vec<LogEntry>,
    ) -> (done: Result<(), CommandError>)
        ensures
            carried_out(
                self.effect(caller@, owner@, old(store)@, old(store).writable()),
                done,
                *old(store),
                *final(store),
                old(log)@,
                final(log)@,
            ),
    {
        match self {
            Command::Greet(command) => {
                assert(lines(log@).push(LogEntryView::Greeted { user_id: caller@ }) =~= lines(log@)
                    + seq![LogEntryView::Greeted { user_id: caller@ }]);
                command.run(caller, log)
            },
            Command::Add(command) => command.run(caller, store, log),
            Command::Reset(command) => {
                let done = command.run(caller, owner, store);
                assert(lines(log@) + Seq::<LogEntryView>::empty() =~= lines(log@));
                done
            },
        }
    }
}

/// A program: its owner and the commands registered in it.
pub struct Program {
    owner: String,
    commands: Table<CommandKind>,
}

/// What a dispatch comes to, in a program with these `commands` and this
/// `owner`.
///
/// A name that is not registered fails as an unknown command, and a payload
/// that the handler cannot read as a decode error; neither touches the store
/// or the log. Else it is what one run of the decoded command comes to.
pub open spec fn dispatched(
    commands: Map<Seq<char>, CommandKind>,
    owner: Seq<char>,
    name: Seq<char>,
    payload: Seq<u8>,
    caller: Seq<char>,
    records: Map<Seq<char>, Seq<u8>>,
    writable: bool,
) -> Effect {
    if !commands.contains_key(name) {
        Effect { outcome: Err(CommandErrorView::UnknownCommand), records, reports: seq![] }
    } else {
        match commands[name].parse(payload) {
            None => Effect { outcome: Err(CommandErrorView::DecodeError), records, reports: seq![] },
            Some(command) => command.effect(caller, owner, records, writable),
        }
    }
}

impl Program {
    /// The identity of the owner.
    pub closed spec fn owner(&self) -> Seq<char> {
        self.owner@
    }

    /// The registered handlers, by command name.
    pub closed spec fn commands(&self) -> Map<Seq<char>, CommandKind> {
        self.commands@
    }

    /// A program of `owner` with no command registered.
    pub fn new(owner: &str) -> (program: Self)
        ensures
            program.owner() == owner@,
            program.commands() == Map::<Seq<char>, CommandKind>::empty(),
    {
        Program { owner: owner.to_owned(), commands: Table::new() }
    }

    /// Registers a handler under `name`. A name can be registered once:
    /// a second registration is turned down and changes nothing.
    pub fn register(&mut self, name: &str, kind: CommandKind) -> (registered: bool)
        ensures
            registered == !old(self).commands().contains_key(name@),
            final(self).owner() == old(self).owner(),
            final(self).commands() == if registered {
                old(self).commands().insert(name@, kind)
            } else {
                old(self).commands()
            },
    {
        if self.commands.contains_key(name) {
            return false;
        }
        self.commands.insert(name, kind);
        true
    }

    /// The handler registered under `name`.
    pub fn lookup(&self, name: &str) -> (kind: Option<CommandKind>)
        ensures
            kind == self.commands().get(name@),
    {
        match self.commands.get(name) {
            Some(kind) => Some(*kind),
            None => None,
        }
    }

    /// Carries out one command for `caller`: looks the handler up, decodes
    /// the payload and runs the handler once, as [`dispatched`] says.
    pub fn dispatch(
        &self,
        name: &str,
        payload: &[u8],
        caller: &str,
        store: &mut Store,
        log: &mut Vec<LogEntry>,
    ) -> (done: Result<(), CommandError>)
        ensures
            carried_out(
                dispatched(
                    self.commands(),
                    self.owner(),
                    name@,
                    payload@,
                    caller@,
                    old(store)@,
                    old(store).writable(),
                ),
                done,
                *old(store),
                *final(store),
                old(log)@,
                final(log)@,
            ),
    {
        assert(lines(log@) + Seq::<LogEntryView>::empty() =~= lines(log@));
        let kind = match self.lookup(name) {
            Some(kind) => kind,
            None => {
                return Err(CommandError::UnknownCommand);
            },
        };
        let command = match kind.decode(payload) {
            Some(command) => command,
            None => {
                return Err(CommandError::DecodeError);
            },
        };
        command.run(caller, self.owner.as_str(), store, log)
    }
}

/// Dispatching a name that is not registered fails as an unknown command,
/// whatever the payload and the caller, and leaves the records and the log
/// as they were.
pub proof fn lemma_unknown_command_fails(
    commands: Map<Seq<char>, CommandKind>,
    owner: Seq<char>,
    name: Seq<char>,
    payload: Seq<u8>,
    caller: Seq<char>,
    records: Map<Seq<char>, Seq<u8>>,
    writable: bool,
)
    requires
        !commands.contains_key(name),
    ensures
        dispatched(commands, owner, name, payload, caller, records, writable) == (Effect {
            outcome: Err(CommandErrorView::UnknownCommand),
            records,
            reports: seq![],
        }),
{
}

/// A dispatch that fails leaves every record as it was: a command is
/// turned down before the store is touched, and a write that the store does
/// not take changes nothing.
pub proof fn lemma_failure_changes_no_record(
    commands: Map<Seq<char>, CommandKind>,
    owner: Seq<char>,
    name: Seq<char>,
    payload: Seq<u8>,
    caller: Seq<char>,
    records: Map<Seq<char>, Seq<u8>>,
    writable: bool,
)
    requires
        dispatched(commands, owner, name, payload, caller, records, writable).outcome is Err,
    ensures
        dispatched(commands, owner, name, payload, caller, records, writable).records == records,
{
}

/// A dispatch changes no record but the counter's, and that one as a whole.
pub proof fn lemma_other_records_are_kept(
    commands: Map<Seq<char>, CommandKind>,
    owner: Seq<char>,
    name: Seq<char>,
    payload: Seq<u8>,
    caller: Seq<char>,
    records: Map<Seq<char>, Seq<u8>>,
    writable: bool,
    key: Seq<char>,
)
    requires
        key != counter_key(),
    ensures
        ({
            let after = dispatched(commands, owner, name, payload, caller, records, writable).records;
            &&& after.contains_key(key) == records.contains_key(key)
            &&& records.contains_key(key) ==> after[key] == records[key]
        }),
{
}

} // verus!
