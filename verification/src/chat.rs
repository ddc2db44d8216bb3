//! The chat program: the channel `main`, on which callers move about a grid
//! and show emotes, and every connected caller is told of it.

use crate::bus::{delivered, Bus};
use crate::log::{lines, record, LogEntry, LogEntryView};
use crate::table::Table;
use crate::wire::{int_of_le, le_of_int, lemma_int_round_trip, read_i32, write_i32};
use turbo_genesis_sdk::os::server::channel::ChannelSettings;
use vstd::prelude::*;

verus! {

/// What a caller can show.
#[derive(Clone, Copy, Debug, PartialEq, Eq, Structural)]
pub enum Emote {
    Love,
    Anger,
    Sob,
    Thinking,
}

/// What a connected caller sends to the channel.
#[derive(Clone, Copy, Debug, PartialEq, Eq, Structural)]
pub enum UserMessage {
    /// Show an emote.
    Emote(Emote),
    /// Move by this much along each axis.
    Move(i32, i32),
}

/// What the channel tells every connected caller.
#[derive(Debug, PartialEq, Eq)]
pub enum UserEvent {
    /// A caller moved and is now at `position`.
    Move { user_id: String, position: (i32, i32) },
    /// A caller shows an emote.
    Emote { user_id: String, kind: Emote },
    /// A caller joined.
    Enter { user_id: String },
    /// A caller left.
    Leave { user_id: String },
    /// The interval elapsed.
    Tick,
}

/// A [`UserEvent`] with each caller as a sequence of characters.
pub enum UserEventView {
    Move { user_id: Seq<char>, position: (i32, i32) },
    Emote { user_id: Seq<char>, kind: Emote },
    Enter { user_id: Seq<char> },
    Leave { user_id: Seq<char> },
    Tick,
}

/// A move was asked for that would take the caller off the 32-bit grid.
#[derive(Clone, Copy, Debug, PartialEq, Eq)]
pub struct MoveError;

/// The interval of the channel, in the host's time unit: ten times sixty
/// frames of sixteen.
pub const TICK_INTERVAL: u32 = 16 * 60 * 10;

impl View for UserEvent {
    type V = UserEventView;

    open spec fn view(&self) -> UserEventView {
        match self {
            UserEvent::Move { user_id, position } => UserEventView::Move {
                user_id: user_id@,
                position: *position,
            },
            UserEvent::Emote { user_id, kind } => UserEventView::Emote {
                user_id: user_id@,
                kind: *kind,
            },
            UserEvent::Enter { user_id } => UserEventView::Enter { user_id: user_id@ },
            UserEvent::Leave { user_id } => UserEventView::Leave { user_id: user_id@ },
            UserEvent::Tick => UserEventView::Tick,
        }
    }
}

impl Clone for UserEvent {
    fn clone(&self) -> (copy: Self)
        ensures
            copy@ == self@,
    {
        match self {
            UserEvent::Move { user_id, position } => UserEvent::Move {
                user_id: user_id.clone(),
                position: *position,
            },
            UserEvent::Emote { user_id, kind } => UserEvent::Emote {
                user_id: user_id.clone(),
                kind: *kind,
            },
            UserEvent::Enter { user_id } => UserEvent::Enter { user_id: user_id.clone() },
            UserEvent::Leave { user_id } => UserEvent::Leave { user_id: user_id.clone() },
            UserEvent::Tick => UserEvent::Tick,
        }
    }
}

impl Emote {
    /// The byte that stands for the emote.
    pub open spec fn tag(self) -> u8 {
        match self {
            Emote::Love => 0,
            Emote::Anger => 1,
            Emote::Sob => 2,
            Emote::Thinking => 3,
        }
    }

    /// The emote that a byte stands for.
    pub open spec fn of_tag(tag: u8) -> Option<Emote> {
        if tag == 0 {
            Some(Emote::Love)
        } else if tag == 1 {
            Some(Emote::Anger)
        } else if tag == 2 {
            Some(Emote::Sob)
        } else if tag == 3 {
            Some(Emote::Thinking)
        } else {
            None
        }
    }
}

impl UserMessage {
    /// The bytes of a message: a byte that tells the variant, then the
    /// emote's byte, or the two deltas.
    pub open spec fn payload(self) -> Seq<u8> {
        match self {
            UserMessage::Emote(kind) => seq![0u8, kind.tag()],
            UserMessage::Move(dx, dy) => seq![1u8] + le_of_int(dx as int) + le_of_int(dy as int),
        }
    }

    /// The message that a payload stands for, if it stands for one.
    pub open spec fn parse(bytes: Seq<u8>) -> Option<UserMessage> {
        if bytes.len() == 2 && bytes[0] == 0 {
            match Emote::of_tag(bytes[1]) {
                Some(kind) => Some(UserMessage::Emote(kind)),
                None => None,
            }
        } else if bytes.len() == 9 && bytes[0] == 1 {
            Some(
                UserMessage::Move(
                    int_of_le(bytes.subrange(1, 5)) as i32,
                    int_of_le(bytes.subrange(5, 9)) as i32,
                ),
            )
        } else {
            None
        }
    }

    /// The payload of the message.
    pub fn encode(&self) -> (bytes: Vec<u8>)
        ensures
            bytes@ == self.payload(),
    {
        let mut bytes: Vec<u8> = Vec::new();
        match self {
            UserMessage::Emote(kind) => {
                bytes.push(0);
                let tag: u8 = match kind {
                    Emote::Love => 0,
                    Emote::Anger => 1,
                    Emote::Sob => 2,
                    Emote::Thinking => 3,
                };
                bytes.push(tag);
            },
            UserMessage::Move(dx, dy) => {
                bytes.push(1);
                write_i32(&mut bytes, *dx);
                write_i32(&mut bytes, *dy);
            },
        }
        assert(bytes@ =~= self.payload());
        bytes
    }

    /// Reads a payload. `None` tells a payload that stands for no message.
    pub fn decode(bytes: &[u8]) -> (message: Option<UserMessage>)
        ensures
            message == UserMessage::parse(bytes@),
    {
        if bytes.len() == 2 && bytes[0] == 0 {
            let tag = bytes[1];
            if tag == 0 {
                Some(UserMessage::Emote(Emote::Love))
            } else if tag == 1 {
                Some(UserMessage::Emote(Emote::Anger))
            } else if tag == 2 {
                Some(UserMessage::Emote(Emote::Sob))
            } else if tag == 3 {
                Some(UserMessage::Emote(Emote::Thinking))
            } else {
                None
            }
        } else if bytes.len() == 9 && bytes[0] == 1 {
            let dx = read_i32(bytes, 1);
            let dy = read_i32(bytes, 5);
            Some(UserMessage::Move(dx, dy))
        } else {
            None
        }
    }
}

/// A payload reads back as the message it was written from.
pub proof fn lemma_message_round_trip(message: UserMessage)
    ensures
        UserMessage::parse(message.payload()) == Some(message),
{
    match message {
        UserMessage::Emote(kind) => {},
        UserMessage::Move(dx, dy) => {
            let bytes = message.payload();
            lemma_int_round_trip(dx as int);
            lemma_int_round_trip(dy as int);
            assert(bytes.subrange(1, 5) =~= le_of_int(dx as int));
            assert(bytes.subrange(5, 9) =~= le_of_int(dy as int));
        },
    }
}

/// The session of the channel `main`: where each caller stands.
///
/// A caller who never moved has no entry and stands at the origin. Entries
/// outlive the connection: a caller who leaves and joins again is where they
/// were.
pub struct MainChannel {
    positions: Table<(i32, i32)>,
}

/// Where `user_id` stands according to `positions`.
pub open spec fn position_in(positions: Map<Seq<char>, (i32, i32)>, user_id: Seq<char>) -> (
    i32,
    i32,
) {
    if positions.contains_key(user_id) {
        positions[user_id]
    } else {
        (0, 0)
    }
}

/// Whether a move by `(dx, dy)` from `from` stays on the 32-bit grid.
pub open spec fn move_fits(from: (i32, i32), dx: i32, dy: i32) -> bool {
    &&& i32::MIN <= from.0 + dx <= i32::MAX
    &&& i32::MIN <= from.1 + dy <= i32::MAX
}

/// Where a move by `(dx, dy)` from `from` ends.
pub open spec fn moved(from: (i32, i32), dx: i32, dy: i32) -> (i32, i32) {
    ((from.0 + dx) as i32, (from.1 + dy) as i32)
}

impl MainChannel {
    /// The tracked positions, by caller.
    pub closed spec fn positions(&self) -> Map<Seq<char>, (i32, i32)> {
        self.positions@
    }

    /// A session in which nobody has moved.
    pub fn new() -> (session: Self)
        ensures
            session.positions() == Map::<Seq<char>, (i32, i32)>::empty(),
    {
        MainChannel { positions: Table::new() }
    }

    /// Called once when the session is created: asks for the interval.
    pub fn on_open(&mut self, settings: &mut ChannelSettings)
        ensures
            final(settings).interval == Some(TICK_INTERVAL),
            final(self).positions() == old(self).positions(),
    {
        settings.set_interval(TICK_INTERVAL);
    }

    /// Called once per elapsed interval: tells every connected caller.
    pub fn on_interval(&mut self, bus: &mut Bus)
        ensures
            final(bus)@ == delivered(old(bus)@, UserEventView::Tick),
            final(self).positions() == old(self).positions(),
    {
        bus.broadcast(&UserEvent::Tick);
    }

    /// Called when `user_id` has joined: reports it, and tells every
    /// connected caller, the one who joined among them.
    pub fn on_connect(&mut self, user_id: &str, bus: &mut Bus, log: &mut Vec<LogEntry>)
        ensures
            final(bus)@ == delivered(old(bus)@, UserEventView::Enter { user_id: user_id@ }),
            lines(final(log)@) == lines(old(log)@).push(
                LogEntryView::Connected { user_id: user_id@ },
            ),
            final(self).positions() == old(self).positions(),
    {
        record(log, LogEntry::Connected { user_id: user_id.to_owned() });
        bus.broadcast(&UserEvent::Enter { user_id: user_id.to_owned() });
    }

    /// Called once per message of a connected caller.
    ///
    /// A move changes the caller's position by the deltas, from the origin
    /// where the caller has none yet, and tells everyone the new position.
    /// An emote is told to everyone and changes nothing. A move that would
    /// leave the grid is refused: nothing changes and nothing is told.
    pub fn on_data(
        &mut self,
        user_id: &str,
        data: UserMessage,
        bus: &mut Bus,
    ) -> (done: Result<(), MoveError>)
        ensures
            match data {
                UserMessage::Move(dx, dy) => {
                    let from = position_in(old(self).positions(), user_id@);
                    if move_fits(from, dx, dy) {
                        &&& done is Ok
                        &&& final(self).positions() == old(self).positions().insert(
                            user_id@,
                            moved(from, dx, dy),
                        )
                        &&& final(bus)@ == delivered(
                            old(bus)@,
                            UserEventView::Move { user_id: user_id@, position: moved(from, dx, dy) },
                        )
                    } else {
                        &&& done is Err
                        &&& final(self).positions() == old(self).positions()
                        &&& final(bus)@ == old(bus)@
                    }
                },
                UserMessage::Emote(kind) => {
                    &&& done is Ok
                    &&& final(self).positions() == old(self).positions()
                    &&& final(bus)@ == delivered(
                        old(bus)@,
                        UserEventView::Emote { user_id: user_id@, kind },
                    )
                },
            },
    {
        match data {
            UserMessage::Move(dx, dy) => {
                let from = self.position(user_id);
                let x = from.0.checked_add(dx);
                let y = from.1.checked_add(dy);
                match (x, y) {
                    (Some(x), Some(y)) => {
                        self.positions.insert(user_id, (x, y));
                        bus.broadcast(
                            &UserEvent::Move { user_id: user_id.to_owned(), position: (x, y) },
                        );
                        Ok(())
                    },
                    _ => Err(MoveError),
                }
            },
            UserMessage::Emote(kind) => {
                bus.broadcast(&UserEvent::Emote { user_id: user_id.to_owned(), kind });
                Ok(())
            },
        }
    }

    /// Called when `user_id` has left: tells every caller still connected.
    /// The caller's position is kept.
    pub fn on_disconnect(&mut self, user_id: &str, bus: &mut Bus)
        ensures
            final(bus)@ == delivered(old(bus)@, UserEventView::Leave { user_id: user_id@ }),
            final(self).positions() == old(self).positions(),
    {
        bus.broadcast(&UserEvent::Leave { user_id: user_id.to_owned() });
    }

    /// Where `user_id` stands: the origin for a caller who never moved.
    pub fn position(&self, user_id: &str) -> (at: (i32, i32))
        ensures
            at == position_in(self.positions(), user_id@),
    {
        match self.positions.get(user_id) {
            Some(at) => *at,
            None => (0, 0),
        }
    }
}

/// Moves add up: after two moves that stay on the grid a caller stands
/// where they stood plus both deltas.
pub proof fn lemma_moves_accumulate(from: (i32, i32), first: (i32, i32), second: (i32, i32))
    requires
        move_fits(from, first.0, first.1),
        move_fits(moved(from, first.0, first.1), second.0, second.1),
    ensures
        moved(moved(from, first.0, first.1), second.0, second.1) == (
            (from.0 + first.0 + second.0) as i32,
            (from.1 + first.1 + second.1) as i32,
        ),
{
}

} // verus!
