//! The counter program: one record, a signed 32-bit counter, which `add`
//! changes by a delta and `reset` sets back to zero.

use crate::command::{carried_out, Effect};
use crate::error::{outcome, CommandError, CommandErrorView};
use crate::log::{lines, record, LogEntry, LogEntryView};
use crate::store::Store;
use crate::wire::{int_of_le, le_of_int, lemma_int_round_trip, read_i32, write_i32};
use vstd::prelude::*;

verus! {

/// The record that the counter program keeps.
#[derive(Clone, Copy, Debug, PartialEq, Eq, Structural)]
pub struct Counter {
    pub value: i32,
}

/// The command `add`: a delta with its direction.
#[derive(Clone, Copy, Debug, PartialEq, Eq, Structural)]
pub enum AddCommand {
    Plus(i32),
    Minus(i32),
}

/// The command `reset`, which only the owner may run.
#[derive(Clone, Copy, Debug, PartialEq, Eq, Structural)]
pub struct ResetCommand;

/// The key of the counter's record.
pub open spec fn counter_key() -> Seq<char> {
    "counter"@
}

/// What a caller is told whose change would take the counter out of range.
pub open spec fn out_of_range_message() -> Seq<char> {
    "counter out of range"@
}

/// What a caller is told who asks for a reset and is not the owner.
pub open spec fn not_owner_message() -> Seq<char> {
    "YOU NOT DA OWNER!"@
}

impl Counter {
    /// The bytes of the record: the value, least significant byte first.
    pub open spec fn record(self) -> Seq<u8> {
        le_of_int(self.value as int)
    }

    /// The counter that a record stands for. Only records of four bytes do.
    pub open spec fn parse(bytes: Seq<u8>) -> Option<Counter> {
        if bytes.len() == 4 {
            Some(Counter { value: int_of_le(bytes) as i32 })
        } else {
            None
        }
    }

    /// The counter that a store holds: what its record stands for, and zero
    /// where there is no record or it cannot be read.
    pub open spec fn stored(records: Map<Seq<char>, Seq<u8>>) -> Counter {
        if records.contains_key(counter_key()) {
            match Counter::parse(records[counter_key()]) {
                Some(counter) => counter,
                None => Counter { value: 0 },
            }
        } else {
            Counter { value: 0 }
        }
    }

    /// The bytes to record for this counter.
    pub fn encode(&self) -> (bytes: Vec<u8>)
        ensures
            bytes@ == self.record(),
    {
        let mut bytes: Vec<u8> = Vec::new();
        write_i32(&mut bytes, self.value);
        assert(bytes@ =~= self.record());
        bytes
    }

    /// Reads a record back.
    pub fn decode(bytes: &[u8]) -> (counter: Option<Counter>)
        ensures
            counter == Counter::parse(bytes@),
    {
        if bytes.len() != 4 {
            return None;
        }
        let value = read_i32(bytes, 0);
        assert(bytes@.subrange(0, 4) =~= bytes@);
        Some(Counter { value })
    }

    /// The counter that `store` holds.
    pub fn load(store: &Store) -> (counter: Counter)
        ensures
            counter == Counter::stored(store@),
    {
        match store.read("counter") {
            Some(bytes) => match Counter::decode(bytes.as_slice()) {
                Some(counter) => counter,
                None => Counter { value: 0 },
            },
            None => Counter { value: 0 },
        }
    }
}

impl AddCommand {
    /// The signed change that the command asks for.
    pub open spec fn delta(self) -> int {
        match self {
            AddCommand::Plus(n) => n as int,
            AddCommand::Minus(n) => -(n as int),
        }
    }

    /// Whether the signed change is itself a 32-bit number. Only taking
    /// away the least 32-bit number is not.
    pub open spec fn representable(self) -> bool {
        i32::MIN <= self.delta() <= i32::MAX
    }

    /// The counter after the change, where that is a 32-bit number.
    pub open spec fn applied(self, counter: Counter) -> Option<Counter> {
        let sum = counter.value + self.delta();
        if i32::MIN <= sum <= i32::MAX {
            Some(Counter { value: sum as i32 })
        } else {
            None
        }
    }

    /// What running the command for `user_id` comes to, on a store that
    /// holds `records`.
    ///
    /// The request is reported first. Where the new value would not be a
    /// 32-bit number the command is refused. Else the new value is reported
    /// and written, which fails where the store takes no write.
    pub open spec fn effect(
        self,
        user_id: Seq<char>,
        records: Map<Seq<char>, Seq<u8>>,
        writable: bool,
    ) -> Effect {
        let asked = LogEntryView::Requested { user_id, command: self };
        match self.applied(Counter::stored(records)) {
            None => Effect {
                outcome: Err(CommandErrorView::HandlerFailure(out_of_range_message())),
                records,
                reports: seq![asked],
            },
            Some(after) => Effect {
                outcome: if writable {
                    Ok(())
                } else {
                    Err(CommandErrorView::IoError)
                },
                records: if writable {
                    records.insert(counter_key(), after.record())
                } else {
                    records
                },
                reports: seq![asked, LogEntryView::Incremented { counter: after }],
            },
        }
    }

    /// The bytes of the command: a byte for the direction, then the number.
    pub open spec fn payload(self) -> Seq<u8> {
        match self {
            AddCommand::Plus(n) => seq![0u8] + le_of_int(n as int),
            AddCommand::Minus(n) => seq![1u8] + le_of_int(n as int),
        }
    }

    /// The command that a payload stands for, if it stands for one.
    pub open spec fn parse(bytes: Seq<u8>) -> Option<AddCommand> {
        if bytes.len() == 5 && bytes[0] == 0 {
            Some(AddCommand::Plus(int_of_le(bytes.subrange(1, 5)) as i32))
        } else if bytes.len() == 5 && bytes[0] == 1 {
            Some(AddCommand::Minus(int_of_le(bytes.subrange(1, 5)) as i32))
        } else {
            None
        }
    }

    /// The payload of the command.
    pub fn encode(&self) -> (bytes: Vec<u8>)
        ensures
            bytes@ == self.payload(),
    {
        let mut bytes: Vec<u8> = Vec::new();
        match self {
            AddCommand::Plus(n) => {
                bytes.push(0);
                write_i32(&mut bytes, *n);
            },
            AddCommand::Minus(n) => {
                bytes.push(1);
                write_i32(&mut bytes, *n);
            },
        }
        assert(bytes@ =~= self.payload());
        bytes
    }

    /// Reads a payload. `None` tells a payload that stands for no command.
    pub fn decode(bytes: &[u8]) -> (command: Option<AddCommand>)
        ensures
            command == AddCommand::parse(bytes@),
    {
        if bytes.len() != 5 || bytes[0] > 1 {
            return None;
        }
        let n = read_i32(bytes, 1);
        if bytes[0] == 0 {
            Some(AddCommand::Plus(n))
        } else {
            Some(AddCommand::Minus(n))
        }
    }

    /// The signed change that the command asks for.
    pub fn amount(&self) -> (amount: i32)
        requires
            self.representable(),
        ensures
            amount == self.delta(),
    {
        match self {
            AddCommand::Minus(n) => -*n,
            AddCommand::Plus(n) => *n,
        }
    }

    /// Changes the counter in `store` by the delta and reports the request
    /// and the new value in `log`, as [`AddCommand::effect`] says.
    pub fn run(
        &self,
        user_id: &str,
        store: &mut Store,
        log: &mut Vec<LogEntry>,
    ) -> (done: Result<(), CommandError>)
        ensures
            carried_out(
                self.effect(user_id@, old(store)@, old(store).writable()),
                done,
                *old(store),
                *final(store),
                old(log)@,
                final(log)@,
            ),
    {
        record(log, LogEntry::Requested { user_id: user_id.to_owned(), command: *self });
        let counter = Counter::load(store);
        let sum: i64 = match self {
            AddCommand::Plus(n) => counter.value as i64 + *n as i64,
            AddCommand::Minus(n) => counter.value as i64 - *n as i64,
        };
        let ghost asked = LogEntryView::Requested { user_id: user_id@, command: *self };
        if sum < -2147483648 || sum > 2147483647 {
            assert(lines(old(log)@).push(asked) =~= lines(old(log)@) + seq![asked]);
            return Err(CommandError::HandlerFailure("counter out of range".to_owned()));
        }
        let after = Counter { value: sum as i32 };
        record(log, LogEntry::Incremented { counter: after });
        assert(lines(old(log)@).push(asked).push(LogEntryView::Incremented { counter: after })
            =~= lines(old(log)@) + seq![asked, LogEntryView::Incremented { counter: after }]);
        match store.write("counter", after.encode()) {
            Ok(()) => Ok(()),
            Err(_) => Err(CommandError::IoError),
        }
    }
}

impl ResetCommand {
    /// What running the command for `user_id` comes to, on a store that
    /// holds `records`, in a program that `owner` owns.
    ///
    /// Anyone but the owner is turned away before the store is touched. For
    /// the owner the counter is overwritten with zero, which fails where
    /// the store takes no write.
    pub open spec fn effect(
        self,
        user_id: Seq<char>,
        owner: Seq<char>,
        records: Map<Seq<char>, Seq<u8>>,
        writable: bool,
    ) -> Effect {
        if user_id != owner {
            Effect {
                outcome: Err(CommandErrorView::Unauthorized(not_owner_message())),
                records,
                reports: seq![],
            }
        } else if !writable {
            Effect { outcome: Err(CommandErrorView::IoError), records, reports: seq![] }
        } else {
            Effect {
                outcome: Ok(()),
                records: records.insert(counter_key(), Counter { value: 0 }.record()),
                reports: seq![],
            }
        }
    }

    /// Sets the counter in `store` back to zero, for the owner only, as
    /// [`ResetCommand::effect`] says.
    pub fn run(
        &self,
        user_id: &str,
        owner: &str,
        store: &mut Store,
    ) -> (done: Result<(), CommandError>)
        ensures
            ({
                let effect = self.effect(user_id@, owner@, old(store)@, old(store).writable());
                &&& outcome(done) == effect.outcome
                &&& final(store)@ == effect.records
                &&& final(store).writable() == old(store).writable()
            }),
    {
        if user_id.to_owned() != owner.to_owned() {
            return Err(CommandError::Unauthorized("YOU NOT DA OWNER!".to_owned()));
        }
        let counter = Counter { value: 0 };
        match store.write("counter", counter.encode()) {
            Ok(()) => Ok(()),
            Err(_) => Err(CommandError::IoError),
        }
    }
}

/// A payload reads back as the command it was written from.
pub proof fn lemma_payload_round_trip(command: AddCommand)
    ensures
        AddCommand::parse(command.payload()) == Some(command),
{
    let bytes = command.payload();
    match command {
        AddCommand::Plus(n) => {
            lemma_int_round_trip(n as int);
            assert(bytes.subrange(1, 5) =~= le_of_int(n as int));
        },
        AddCommand::Minus(n) => {
            lemma_int_round_trip(n as int);
            assert(bytes.subrange(1, 5) =~= le_of_int(n as int));
        },
    }
}

/// A record reads back as the counter it was written from.
pub proof fn lemma_record_round_trip(counter: Counter)
    ensures
        Counter::parse(counter.record()) == Some(counter),
{
    lemma_int_round_trip(counter.value as int);
}

/// After a counter's record was written, the store holds that counter.
pub proof fn lemma_stored_after_write(records: Map<Seq<char>, Seq<u8>>, counter: Counter)
    ensures
        Counter::stored(records.insert(counter_key(), counter.record())) == counter,
{
    lemma_record_round_trip(counter);
}

/// A store in which no counter was ever recorded reads as zero, however
/// often it is read: reading takes the store as it is and leaves it so.
pub proof fn lemma_absent_counter_is_zero(records: Map<Seq<char>, Seq<u8>>)
    requires
        !records.contains_key(counter_key()),
    ensures
        Counter::stored(records) == (Counter { value: 0 }),
{
}

/// An addition that succeeds leaves the store holding the changed counter;
/// one that fails leaves the records as they were.
pub proof fn lemma_add_changes_the_stored_counter(
    command: AddCommand,
    user_id: Seq<char>,
    records: Map<Seq<char>, Seq<u8>>,
    writable: bool,
)
    ensures
        ({
            let effect = command.effect(user_id, records, writable);
            if effect.outcome is Ok {
                Some(Counter::stored(effect.records)) == command.applied(Counter::stored(records))
            } else {
                effect.records == records
            }
        }),
{
    match command.applied(Counter::stored(records)) {
        Some(after) => lemma_stored_after_write(records, after),
        None => {},
    }
}

/// A reset by anyone but the owner is unauthorized and leaves the records as
/// they were; a reset by the owner that succeeds leaves the counter at zero.
pub proof fn lemma_reset_is_for_the_owner(
    user_id: Seq<char>,
    owner: Seq<char>,
    records: Map<Seq<char>, Seq<u8>>,
    writable: bool,
)
    ensures
        ({
            let effect = ResetCommand.effect(user_id, owner, records, writable);
            &&& user_id != owner ==> effect.records == records && effect.outcome == Err::<(), _>(
                CommandErrorView::Unauthorized(not_owner_message()),
            )
            &&& user_id == owner && writable ==> effect.outcome is Ok && Counter::stored(
                effect.records,
            ) == (Counter { value: 0 })
        }),
{
    lemma_stored_after_write(records, Counter { value: 0 });
}

/// One `add` as it reaches the dispatcher: who asks, and for what.
pub struct Request {
    pub user_id: Seq<char>,
    pub command: AddCommand,
}

/// The records after a series of `add` requests ran one after another on a
/// store that takes writes, each to its end before the next began. A request
/// that is refused changes nothing, and the next one runs.
pub open spec fn served(
    records: Map<Seq<char>, Seq<u8>>,
    requests: Seq<Request>,
) -> Map<Seq<char>, Seq<u8>>
    decreases requests.len(),
{
    if requests.len() == 0 {
        records
    } else {
        let last = requests.last();
        last.command.effect(last.user_id, served(records, requests.drop_last()), true).records
    }
}

/// The sum of the deltas of those requests of a series that were refused.
pub open spec fn refused(records: Map<Seq<char>, Seq<u8>>, requests: Seq<Request>) -> int
    decreases requests.len(),
{
    if requests.len() == 0 {
        0
    } else {
        let last = requests.last();
        let before = served(records, requests.drop_last());
        refused(records, requests.drop_last()) + if last.command.effect(
            last.user_id,
            before,
            true,
        ).outcome is Ok {
            0
        } else {
            last.command.delta()
        }
    }
}

/// The algebraic sum of the deltas of a series of requests.
pub open spec fn total(requests: Seq<Request>) -> int
    decreases requests.len(),
{
    if requests.len() == 0 {
        0
    } else {
        total(requests.drop_last()) + requests.last().command.delta()
    }
}

/// No update is lost: after a series of requests the counter stands at its
/// first value plus the sum of all deltas but the refused ones.
pub proof fn lemma_adds_accumulate(records: Map<Seq<char>, Seq<u8>>, requests: Seq<Request>)
    ensures
        Counter::stored(served(records, requests)).value == Counter::stored(records).value + total(
            requests,
        ) - refused(records, requests),
    decreases requests.len(),
{
    if requests.len() > 0 {
        let earlier = requests.drop_last();
        lemma_adds_accumulate(records, earlier);
        let last = requests.last();
        lemma_add_changes_the_stored_counter(
            last.command,
            last.user_id,
            served(records, earlier),
            true,
        );
    }
}

/// Taking one request out of a series takes its delta out of the sum.
proof fn lemma_total_without(requests: Seq<Request>, at: int)
    requires
        0 <= at < requests.len(),
    ensures
        total(requests) == total(requests.remove(at)) + requests[at].command.delta(),
    decreases requests.len(),
{
    if at == requests.len() - 1 {
        assert(requests.remove(at) =~= requests.drop_last());
    } else {
        lemma_total_without(requests.drop_last(), at);
        assert(requests.remove(at).drop_last() =~= requests.drop_last().remove(at));
        assert(requests.remove(at).last() == requests.last());
    }
}

/// The sum of the deltas does not depend on the order of the requests.
pub proof fn lemma_total_in_any_order(first: Seq<Request>, second: Seq<Request>)
    requires
        first.to_multiset() == second.to_multiset(),
    ensures
        total(first) == total(second),
    decreases first.len(),
{
    broadcast use vstd::seq_lib::group_to_multiset_ensures;

    first.to_multiset_ensures();
    second.to_multiset_ensures();
    if first.len() == 0 {
        assert(second.to_multiset().len() == 0);
    } else {
        let last = first.last();
        assert(first.contains(last));
        assert(second.to_multiset().count(last) > 0);
        assert(second.contains(last));
        let at = choose|at: int| 0 <= at < second.len() && second[at] == last;
        assert(first.drop_last() =~= first.remove(first.len() - 1));
        assert(first.drop_last().to_multiset() =~= second.remove(at).to_multiset());
        lemma_total_in_any_order(first.drop_last(), second.remove(at));
        lemma_total_without(second, at);
    }
}

/// Concurrent additions come to the same in every interleaving.
///
/// A store hands out one exclusive borrow at a time, so dispatches against it
/// run one after another in some order. Whatever that order, where no
/// request is refused the counter ends at the same value: its first value
/// plus the sum of all deltas.
pub proof fn lemma_adds_in_any_order(
    records: Map<Seq<char>, Seq<u8>>,
    first: Seq<Request>,
    second: Seq<Request>,
)
    requires
        first.to_multiset() == second.to_multiset(),
        refused(records, first) == 0,
        refused(records, second) == 0,
    ensures
        Counter::stored(served(records, first)) == Counter::stored(served(records, second)),
        Counter::stored(served(records, first)).value == Counter::stored(records).value + total(
            first,
        ),
{
    lemma_adds_accumulate(records, first);
    lemma_adds_accumulate(records, second);
    lemma_total_in_any_order(first, second);
}

} // verus!
