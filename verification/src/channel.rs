//! Channel sessions and their registry: what arrives for a channel is handed
//! to its session, which is opened when the first thing arrives for it.

use crate::bus::{delivered, events, lemma_broadcast_reaches_everyone, names, Bus};
use crate::chat::{
    lemma_message_round_trip, move_fits, moved, position_in, MainChannel, UserEvent,
    UserEventView, UserMessage, TICK_INTERVAL,
};
use crate::log::{lines, record, LogEntry, LogEntryView};
use crate::table::Table;
use turbo_genesis_sdk::os::server::channel::{ChannelError, ChannelMessage, ChannelSettings};
use vstd::prelude::*;

verus! {

/// One open channel: the session that handles it, the settings the session
/// asked for, and the connections.
pub struct Session {
    handler: MainChannel,
    settings: ChannelSettings,
    bus: Bus,
}

/// What a session holds.
pub struct SessionView {
    /// Where each caller stands.
    pub positions: Map<Seq<char>, (i32, i32)>,
    /// What each connected caller has been sent.
    pub inboxes: Map<Seq<char>, Seq<UserEventView>>,
    /// The interval that the session asked for.
    pub interval: Option<u32>,
}

/// What one thing that arrived comes to.
pub struct Step {
    /// The session afterwards.
    pub after: SessionView,
    /// What is added to the log.
    pub reports: Seq<LogEntryView>,
    /// Whether the channel is still open.
    pub open: bool,
}

/// No channel is registered under the name.
#[derive(Clone, Copy, Debug, PartialEq, Eq)]
pub struct UnknownChannel;

/// The shortest wait for something to arrive, in the host's time unit.
pub const SHORTEST_WAIT: u32 = 16;

/// A session as it is opened: nobody has moved, nobody is connected, and
/// the interval is the chat's.
pub open spec fn fresh() -> SessionView {
    SessionView { positions: Map::empty(), inboxes: Map::empty(), interval: Some(TICK_INTERVAL) }
}

/// How long to wait for something to arrive before the interval counts as
/// elapsed: the interval, without end where there is none, and never less
/// than the shortest wait.
pub open spec fn wait(interval: Option<u32>) -> u32 {
    let asked = match interval {
        Some(ms) => ms,
        None => u32::MAX,
    };
    if asked < SHORTEST_WAIT {
        SHORTEST_WAIT
    } else {
        asked
    }
}

/// What a message of `user_id` comes to.
///
/// A payload that stands for no message, and a move that would leave the
/// grid, are dropped and reported, and change nothing. A move changes the
/// caller's position and an emote changes nothing; both are told to every
/// connected caller.
pub open spec fn data_step(session: SessionView, user_id: Seq<char>, payload: Seq<u8>) -> Step {
    let dropped = Step {
        after: session,
        reports: seq![LogEntryView::Dropped { user_id }],
        open: true,
    };
    match UserMessage::parse(payload) {
        None => dropped,
        Some(UserMessage::Emote(kind)) => Step {
            after: SessionView {
                inboxes: delivered(session.inboxes, UserEventView::Emote { user_id, kind }),
                ..session
            },
            reports: seq![],
            open: true,
        },
        Some(UserMessage::Move(dx, dy)) => {
            let from = position_in(session.positions, user_id);
            if move_fits(from, dx, dy) {
                let position = moved(from, dx, dy);
                Step {
                    after: SessionView {
                        positions: session.positions.insert(user_id, position),
                        inboxes: delivered(
                            session.inboxes,
                            UserEventView::Move { user_id, position },
                        ),
                        ..session
                    },
                    reports: seq![],
                    open: true,
                }
            } else {
                dropped
            }
        },
    }
}

/// What one thing that arrived for a channel comes to.
///
/// A caller who connects is connected first and then told of, so that they
/// hear of themselves. A caller who disconnects is disconnected first, so
/// that only those who stay hear of it; where they stood is kept. A wait
/// that timed out is an elapsed interval. Any other failure to receive
/// closes the channel.
pub open spec fn step(session: SessionView, received: Result<ChannelMessage, ChannelError>) -> Step {
    match received {
        Ok(ChannelMessage::Connect(user, _)) => {
            let joined = if session.inboxes.contains_key(user@) {
                session.inboxes
            } else {
                session.inboxes.insert(user@, seq![])
            };
            Step {
                after: SessionView {
                    inboxes: delivered(joined, UserEventView::Enter { user_id: user@ }),
                    ..session
                },
                reports: seq![LogEntryView::Connected { user_id: user@ }],
                open: true,
            }
        },
        Ok(ChannelMessage::Disconnect(user, _)) => Step {
            after: SessionView {
                inboxes: delivered(
                    session.inboxes.remove(user@),
                    UserEventView::Leave { user_id: user@ },
                ),
                ..session
            },
            reports: seq![],
            open: true,
        },
        Ok(ChannelMessage::Data(user, payload)) => data_step(session, user@, payload@),
        Err(ChannelError::Timeout) => Step {
            after: SessionView { inboxes: delivered(session.inboxes, UserEventView::Tick), ..session },
            reports: seq![],
            open: true,
        },
        Err(_) => Step { after: session, reports: seq![], open: false },
    }
}

impl View for Session {
    type V = SessionView;

    closed spec fn view(&self) -> SessionView {
        SessionView {
            positions: self.handler.positions(),
            inboxes: self.bus@,
            interval: self.settings.interval,
        }
    }
}

impl Session {
    /// Opens a session: creates the handler and lets it choose its settings.
    pub fn open() -> (session: Self)
        ensures
            session@ == fresh(),
    {
        let mut handler = MainChannel::new();
        let mut settings = ChannelSettings { interval: None };
        handler.on_open(&mut settings);
        Session { handler, settings, bus: Bus::new() }
    }

    /// How long to wait for something to arrive before handing a timeout
    /// to [`Session::handle`].
    pub fn timeout(&self) -> (ms: u32)
        ensures
            ms == wait(self@.interval),
    {
        let asked = match self.settings.interval {
            Some(ms) => ms,
            None => u32::MAX,
        };
        if asked < SHORTEST_WAIT {
            SHORTEST_WAIT
        } else {
            asked
        }
    }

    /// Handles one thing that arrived, to its end, as [`step`] says. The
    /// result tells whether the channel is still open.
    pub fn handle(
        &mut self,
        received: Result<ChannelMessage, ChannelError>,
        log: &mut Vec<LogEntry>,
    ) -> (open: bool)
        ensures
            final(self)@ == step(old(self)@, received).after,
            lines(final(log)@) == lines(old(log)@) + step(old(self)@, received).reports,
            open == step(old(self)@, received).open,
    {
        assert(lines(log@) + Seq::<LogEntryView>::empty() =~= lines(log@));
        match received {
            Ok(ChannelMessage::Connect(user, _)) => {
                let _ = self.bus.connect(user.as_str());
                self.handler.on_connect(user.as_str(), &mut self.bus, log);
                assert(lines(old(log)@).push(LogEntryView::Connected { user_id: user@ }) =~= lines(
                    old(log)@,
                ) + seq![LogEntryView::Connected { user_id: user@ }]);
                true
            },
            Ok(ChannelMessage::Disconnect(user, _)) => {
                let _ = self.bus.disconnect(user.as_str());
                self.handler.on_disconnect(user.as_str(), &mut self.bus);
                true
            },
            Ok(ChannelMessage::Data(user, payload)) => {
                let handled = match UserMessage::decode(payload.as_slice()) {
                    Some(message) => self.handler.on_data(user.as_str(), message, &mut self.bus).is_ok(),
                    None => false,
                };
                if !handled {
                    record(log, LogEntry::Dropped { user_id: user.clone() });
                    assert(lines(old(log)@).push(LogEntryView::Dropped { user_id: user@ })
                        =~= lines(old(log)@) + seq![LogEntryView::Dropped { user_id: user@ }]);
                }
                true
            },
            Err(ChannelError::Timeout) => {
                self.handler.on_interval(&mut self.bus);
                true
            },
            Err(_) => false,
        }
    }

    /// Whether `user_id` is connected.
    pub fn is_connected(&self, user_id: &str) -> (connected: bool)
        ensures
            connected == self@.inboxes.contains_key(user_id@),
    {
        self.bus.is_connected(user_id)
    }

    /// The callers who are connected, each once, in no particular order.
    pub fn callers(&self) -> (callers: Vec<String>)
        ensures
            names(callers@).no_duplicates(),
            forall|user_id: Seq<char>|
                names(callers@).contains(user_id) <==> self@.inboxes.contains_key(user_id),
    {
        self.bus.callers()
    }

    /// Takes what `user_id` has been sent out of the session, oldest first,
    /// for the transport to send on. Nothing else changes.
    pub fn take(&mut self, user_id: &str) -> (inbox: Vec<UserEvent>)
        ensures
            events(inbox@) == if old(self)@.inboxes.contains_key(user_id@) {
                old(self)@.inboxes[user_id@]
            } else {
                Seq::<UserEventView>::empty()
            },
            final(self)@ == (SessionView {
                inboxes: if old(self)@.inboxes.contains_key(user_id@) {
                    old(self)@.inboxes.insert(user_id@, Seq::<UserEventView>::empty())
                } else {
                    old(self)@.inboxes
                },
                ..old(self)@
            }),
    {
        self.bus.take(user_id)
    }

    /// What `user_id` has been sent, oldest first; nothing for a caller who
    /// is not connected.
    pub fn received(&self, user_id: &str) -> (inbox: Vec<UserEvent>)
        ensures
            events(inbox@) == if self@.inboxes.contains_key(user_id@) {
                self@.inboxes[user_id@]
            } else {
                Seq::<UserEventView>::empty()
            },
    {
        self.bus.received(user_id)
    }

    /// Where `user_id` stands: the origin for a caller who never moved.
    pub fn position(&self, user_id: &str) -> (at: (i32, i32))
        ensures
            at == position_in(self@.positions, user_id@),
    {
        self.handler.position(user_id)
    }
}

/// The channels of a program: the names under which a session can be
/// opened, and the sessions that are open.
///
/// A session is opened when the first thing arrives for its channel and
/// stays, with or without connections, until the channel closes.
pub struct Channels {
    registered: Table<()>,
    sessions: Table<Session>,
}

/// What the open sessions are after `received` arrived for the channel
/// `name`: its session, opened now if it was not open, took the step, and
/// is gone if that closed the channel.
pub open spec fn routed(
    sessions: Map<Seq<char>, SessionView>,
    name: Seq<char>,
    received: Result<ChannelMessage, ChannelError>,
) -> Map<Seq<char>, SessionView> {
    let session = if sessions.contains_key(name) {
        sessions[name]
    } else {
        fresh()
    };
    let taken = step(session, received);
    if taken.open {
        sessions.insert(name, taken.after)
    } else {
        sessions.remove(name)
    }
}

/// What `received` for the channel `name` adds to the log.
pub open spec fn routed_reports(
    sessions: Map<Seq<char>, SessionView>,
    name: Seq<char>,
    received: Result<ChannelMessage, ChannelError>,
) -> Seq<LogEntryView> {
    let session = if sessions.contains_key(name) {
        sessions[name]
    } else {
        fresh()
    };
    step(session, received).reports
}

impl Channels {
    /// The names under which a session can be opened.
    pub closed spec fn registered(&self) -> Set<Seq<char>> {
        self.registered@.dom()
    }

    /// The open sessions, by channel name.
    pub closed spec fn sessions(&self) -> Map<Seq<char>, SessionView> {
        self.sessions@.map_values(|session: Session| session@)
    }

    /// A registry with no channel.
    pub fn new() -> (channels: Self)
        ensures
            channels.registered() == Set::<Seq<char>>::empty(),
            channels.sessions() == Map::<Seq<char>, SessionView>::empty(),
    {
        let channels = Channels { registered: Table::new(), sessions: Table::new() };
        assert(channels.registered() =~= Set::<Seq<char>>::empty());
        assert(channels.sessions() =~= Map::<Seq<char>, SessionView>::empty());
        channels
    }

    /// Registers the chat session under `name`. A name can be registered
    /// once: a second registration is turned down and changes nothing.
    pub fn register(&mut self, name: &str) -> (registered: bool)
        ensures
            registered == !old(self).registered().contains(name@),
            final(self).registered() == old(self).registered().insert(name@),
            final(self).sessions() == old(self).sessions(),
    {
        if self.registered.contains_key(name) {
            assert(self.registered() =~= old(self).registered().insert(name@));
            return false;
        }
        self.registered.insert(name, ());
        assert(self.registered() =~= old(self).registered().insert(name@));
        true
    }

    /// Whether a session is open for the channel `name`.
    pub fn is_open(&self, name: &str) -> (open: bool)
        ensures
            open == self.sessions().contains_key(name@),
    {
        self.sessions.contains_key(name)
    }

    /// The open session of the channel `name`.
    pub fn session(&self, name: &str) -> (session: Option<&Session>)
        ensures
            match session {
                Some(session) => self.sessions().contains_key(name@) && session@
                    == self.sessions()[name@],
                None => !self.sessions().contains_key(name@),
            },
    {
        self.sessions.get(name)
    }

    /// Takes what `user_id` has been sent on the channel `name` out of its
    /// session, oldest first, for the transport to send on. There is nothing
    /// to take where the channel is not open or the caller not connected.
    pub fn take(&mut self, name: &str, user_id: &str) -> (inbox: Vec<UserEvent>)
        ensures
            final(self).registered() == old(self).registered(),
            ({
                let sessions = old(self).sessions();
                if sessions.contains_key(name@) && sessions[name@].inboxes.contains_key(user_id@) {
                    &&& events(inbox@) == sessions[name@].inboxes[user_id@]
                    &&& final(self).sessions() == sessions.insert(
                        name@,
                        SessionView {
                            inboxes: sessions[name@].inboxes.insert(
                                user_id@,
                                Seq::<UserEventView>::empty(),
                            ),
                            ..sessions[name@]
                        },
                    )
                } else {
                    &&& events(inbox@) == Seq::<UserEventView>::empty()
                    &&& final(self).sessions() == sessions
                }
            }),
    {
        match self.sessions.remove(name) {
            Some(session) => {
                let mut session = session;
                let inbox = session.take(user_id);
                self.sessions.insert(name, session);
                proof {
                    let sessions = old(self).sessions();
                    if sessions[name@].inboxes.contains_key(user_id@) {
                        assert(self.sessions() =~= sessions.insert(
                            name@,
                            SessionView {
                                inboxes: sessions[name@].inboxes.insert(
                                    user_id@,
                                    Seq::<UserEventView>::empty(),
                                ),
                                ..sessions[name@]
                            },
                        ));
                    } else {
                        assert(self.sessions() =~= sessions);
                    }
                }
                inbox
            },
            None => {
                let nothing: Vec<UserEvent> = Vec::new();
                assert(events(nothing@) =~= Seq::<UserEventView>::empty());
                assert(self.sessions() =~= old(self).sessions());
                nothing
            },
        }
    }

    /// Hands what arrived for the channel `name` to its session, as
    /// [`routed`] says, and tells whether the channel is still open.
    ///
    /// For a name that is not registered it fails and changes nothing.
    pub fn deliver(
        &mut self,
        name: &str,
        received: Result<ChannelMessage, ChannelError>,
        log: &mut Vec<LogEntry>,
    ) -> (open: Result<bool, UnknownChannel>)
        ensures
            final(self).registered() == old(self).registered(),
            if old(self).registered().contains(name@) {
                &&& final(self).sessions() == routed(old(self).sessions(), name@, received)
                &&& lines(final(log)@) == lines(old(log)@) + routed_reports(
                    old(self).sessions(),
                    name@,
                    received,
                )
                &&& open is Ok
                &&& open->Ok_0 == final(self).sessions().contains_key(name@)
            } else {
                &&& open is Err
                &&& final(self).sessions() == old(self).sessions()
                &&& final(log)@ == old(log)@
            },
    {
        if !self.registered.contains_key(name) {
            return Err(UnknownChannel);
        }
        let mut session = match self.sessions.remove(name) {
            Some(session) => session,
            None => Session::open(),
        };
        let open = session.handle(received, log);
        if open {
            self.sessions.insert(name, session);
            assert(self.sessions() =~= routed(old(self).sessions(), name@, received));
        } else {
            assert(self.sessions() =~= routed(old(self).sessions(), name@, received));
        }
        Ok(open)
    }
}

/// Leaving and joining again keeps where the caller stands: a session holds
/// every position until the channel closes, whoever is connected.
pub proof fn lemma_reconnect_keeps_position(
    session: SessionView,
    user: String,
    left_with: Vec<u8>,
    joined_with: Vec<u8>,
)
    ensures
        ({
            let left = step(session, Ok(ChannelMessage::Disconnect(user, left_with)));
            let back = step(left.after, Ok(ChannelMessage::Connect(user, joined_with)));
            &&& left.open && back.open
            &&& left.after.positions == session.positions
            &&& back.after.positions == session.positions
            &&& position_in(back.after.positions, user@) == position_in(session.positions, user@)
            &&& back.after.inboxes.contains_key(user@)
            &&& back.after.inboxes[user@] == seq![UserEventView::Enter { user_id: user@ }]
        }),
{
    let left = step(session, Ok(ChannelMessage::Disconnect(user, left_with)));
    let gone = session.inboxes.remove(user@);
    let told = delivered(gone, UserEventView::Leave { user_id: user@ });
    assert(!told.contains_key(user@));
    let joined = told.insert(user@, seq![]);
    assert(joined.contains_key(user@));
    assert(delivered(joined, UserEventView::Enter { user_id: user@ })[user@] =~= seq![
        UserEventView::Enter { user_id: user@ },
    ]);
}

/// A move that stays on the grid is told once to every connected caller,
/// the one who moved among them, with the place where the move ended; it
/// opens and closes no connection.
pub proof fn lemma_move_is_told_to_all(
    session: SessionView,
    user_id: Seq<char>,
    dx: i32,
    dy: i32,
    listener: Seq<char>,
)
    requires
        move_fits(position_in(session.positions, user_id), dx, dy),
        session.inboxes.contains_key(listener),
    ensures
        ({
            let taken = data_step(session, user_id, UserMessage::Move(dx, dy).payload());
            let position = moved(position_in(session.positions, user_id), dx, dy);
            &&& position_in(taken.after.positions, user_id) == position
            &&& taken.after.inboxes.dom() == session.inboxes.dom()
            &&& taken.after.inboxes[listener] == session.inboxes[listener].push(
                UserEventView::Move { user_id, position },
            )
            &&& taken.reports == Seq::<LogEntryView>::empty()
        }),
{
    lemma_message_round_trip(UserMessage::Move(dx, dy));
    let position = moved(position_in(session.positions, user_id), dx, dy);
    lemma_broadcast_reaches_everyone(session.inboxes, UserEventView::Move { user_id, position });
}

/// Only a caller's own message changes where that caller stands: whatever
/// else arrives, they stay where they were.
pub proof fn lemma_positions_are_kept(
    session: SessionView,
    received: Result<ChannelMessage, ChannelError>,
    other: Seq<char>,
)
    requires
        !(received matches Ok(ChannelMessage::Data(user, _)) && user@ == other),
    ensures
        position_in(step(session, received).after.positions, other) == position_in(
            session.positions,
            other,
        ),
{
}

} // verus!
