//! The client's side: three screens, one for each program, and what each
//! frame's input makes of them. The game decides; whoever drives it samples
//! the input beforehand and carries the actions out afterwards.

use crate::bus::events;
use crate::chat::{Emote, UserEvent, UserEventView, UserMessage};
use crate::command::Command;
use crate::counter::{AddCommand, Counter, ResetCommand};
use crate::hello::Greet;
use crate::host::button_down;
use std::collections::VecDeque;
use turbo_genesis_abi::{TurboButton, TurboGamepad, TurboMouse};
use vstd::prelude::*;

verus! {

/// The screens, in the order in which Select walks through them.
#[derive(Clone, Copy, Debug, PartialEq, Eq, Structural)]
pub enum Screen {
    Hello,
    Counter,
    Chat,
}

/// What the host sampled for one frame.
pub struct Frame {
    /// The first gamepad.
    pub gamepad: TurboGamepad,
    /// The mouse, in screen coordinates.
    pub mouse: TurboMouse,
    /// The counter's record as the client last saw it, if it has one.
    pub counter: Option<Counter>,
    /// Whether the connection to the chat channel is open.
    pub connected: bool,
    /// What arrived on that connection since the last frame, oldest first.
    pub received: Vec<UserEvent>,
}

/// What the host is to do for a frame.
#[derive(Debug, PartialEq, Eq)]
pub enum Action {
    /// Draw the heading of the greeting screen.
    HelloTitle,
    /// Draw the heading of the chat screen.
    ChatTitle,
    /// Draw a disc of diameter `d` in the square whose corner is at
    /// `(left, top)`.
    Circ { d: i32, left: i64, top: i64, color: u32 },
    /// Draw the counter.
    ShowCounter(Counter),
    /// Draw an event of the chat log at `(x, y)`.
    ShowEvent { event: UserEvent, x: i32, y: i32 },
    /// Send a command to the server.
    Exec(Command),
    /// Send a message on the chat connection.
    Send(UserMessage),
}

/// An [`Action`] with its event, if it has one, by its view.
pub enum ActionView {
    HelloTitle,
    ChatTitle,
    Circ { d: i32, left: i64, top: i64, color: u32 },
    ShowCounter(Counter),
    ShowEvent { event: UserEventView, x: i32, y: i32 },
    Exec(Command),
    Send(UserMessage),
}

/// The client's state: the screen that shows, and the last lines of chat.
pub struct GameState {
    screen: Screen,
    chat_log: VecDeque<UserEvent>,
}

/// The number of chat events that the log keeps.
pub const CHAT_LOG_LINES: usize = 14;

/// The amount by which a click changes the counter.
pub const CLICK_AMOUNT: i32 = 100;

/// The colour of the disc under the mouse: opaque red.
pub const POINTER_COLOR: u32 = 0xff0000ff;

impl View for Action {
    type V = ActionView;

    open spec fn view(&self) -> ActionView {
        match self {
            Action::HelloTitle => ActionView::HelloTitle,
            Action::ChatTitle => ActionView::ChatTitle,
            Action::Circ { d, left, top, color } => ActionView::Circ {
                d: *d,
                left: *left,
                top: *top,
                color: *color,
            },
            Action::ShowCounter(counter) => ActionView::ShowCounter(*counter),
            Action::ShowEvent { event, x, y } => ActionView::ShowEvent { event: event@, x: *x, y: *y },
            Action::Exec(command) => ActionView::Exec(*command),
            Action::Send(message) => ActionView::Send(*message),
        }
    }
}

/// A list of actions, each by its view.
pub open spec fn actions(list: Seq<Action>) -> Seq<ActionView> {
    list.map_values(|action: Action| action@)
}

/// `item` alone where `wanted` holds, and nothing else.
pub open spec fn when<A>(wanted: bool, item: A) -> Seq<A> {
    if wanted {
        seq![item]
    } else {
        seq![]
    }
}

/// Whether a button went down in this frame.
pub open spec fn just_pressed(button: TurboButton) -> bool {
    button == TurboButton::JustPressed
}

impl Screen {
    /// The screen after this one; after the last comes the first.
    pub open spec fn following(self) -> Screen {
        match self {
            Screen::Hello => Screen::Counter,
            Screen::Counter => Screen::Chat,
            Screen::Chat => Screen::Hello,
        }
    }

    /// The screen after this one; after the last comes the first.
    pub fn next(self) -> (next: Screen)
        ensures
            next == self.following(),
    {
        match self {
            Screen::Hello => Screen::Counter,
            Screen::Counter => Screen::Chat,
            Screen::Chat => Screen::Hello,
        }
    }
}

impl Default for Screen {
    fn default() -> (screen: Self)
        ensures
            screen == Screen::Hello,
    {
        Screen::Hello
    }
}

/// The screen for a frame: the following one where Select went down.
pub open spec fn turned(screen: Screen, gamepad: TurboGamepad) -> Screen {
    if just_pressed(gamepad.select) {
        screen.following()
    } else {
        screen
    }
}

/// The chat log as a frame finds it: emptied where Select went down on the
/// chat screen.
pub open spec fn kept(
    screen: Screen,
    chat_log: Seq<UserEventView>,
    gamepad: TurboGamepad,
) -> Seq<UserEventView> {
    if just_pressed(gamepad.select) && screen == Screen::Chat {
        seq![]
    } else {
        chat_log
    }
}

/// What the greeting screen asks for: its heading, and the greeting where
/// Start went down.
pub open spec fn hello_actions(gamepad: TurboGamepad) -> Seq<ActionView> {
    seq![ActionView::HelloTitle] + when(
        just_pressed(gamepad.start),
        ActionView::Exec(Command::Greet(Greet)),
    )
}

/// The disc under the mouse: twice as wide while a button is down, and
/// centred on the pointer.
pub open spec fn pointer(mouse: TurboMouse) -> ActionView {
    let size: i32 = if button_down(mouse.left) || button_down(mouse.right) {
        16
    } else {
        8
    };
    ActionView::Circ {
        d: size,
        left: (mouse.x - size / 2) as i64,
        top: (mouse.y - size / 2) as i64,
        color: POINTER_COLOR,
    }
}

/// What the counter screen asks for: the disc under the mouse; an addition
/// for a left click and a subtraction for a right click; a reset where
/// Start went down; and the counter, where the client has seen it.
pub open spec fn counter_actions(
    gamepad: TurboGamepad,
    mouse: TurboMouse,
    counter: Option<Counter>,
) -> Seq<ActionView> {
    seq![pointer(mouse)] + when(
        just_pressed(mouse.left),
        ActionView::Exec(Command::Add(AddCommand::Plus(CLICK_AMOUNT))),
    ) + when(
        just_pressed(mouse.right),
        ActionView::Exec(Command::Add(AddCommand::Minus(CLICK_AMOUNT))),
    ) + when(just_pressed(gamepad.start), ActionView::Exec(Command::Reset(ResetCommand))) + match counter {
        Some(counter) => seq![ActionView::ShowCounter(counter)],
        None => seq![],
    }
}

/// The chat log after `received` arrived: the last lines of both, as many as
/// the log keeps.
pub open spec fn appended<A>(chat_log: Seq<A>, received: Seq<A>) -> Seq<A> {
    let all = chat_log + received;
    if all.len() <= CHAT_LOG_LINES {
        all
    } else {
        all.subrange(all.len() - CHAT_LOG_LINES, all.len() as int)
    }
}

/// The chat log on the screen: the newest event on top, ten pixels a line.
pub open spec fn chat_lines(chat_log: Seq<UserEventView>) -> Seq<ActionView> {
    Seq::new(
        chat_log.len(),
        |i: int|
            ActionView::ShowEvent {
                event: chat_log[chat_log.len() - 1 - i],
                x: 4,
                y: (8 + i * 10) as i32,
            },
    )
}

/// The chat log after a frame on the chat screen: what arrived is appended
/// while the connection is open.
pub open spec fn chat_log_after(
    chat_log: Seq<UserEventView>,
    connected: bool,
    received: Seq<UserEventView>,
) -> Seq<UserEventView> {
    if connected {
        appended(chat_log, received)
    } else {
        chat_log
    }
}

/// What the chat screen asks for: its heading; a heart where Start went down
/// and the connection is open; and the lines of the log.
pub open spec fn chat_actions(
    gamepad: TurboGamepad,
    connected: bool,
    chat_log: Seq<UserEventView>,
) -> Seq<ActionView> {
    seq![ActionView::ChatTitle] + when(
        connected && just_pressed(gamepad.start),
        ActionView::Send(UserMessage::Emote(Emote::Love)),
    ) + chat_lines(chat_log)
}

impl GameState {
    #[verifier::type_invariant]
    spec fn log_is_short(&self) -> bool {
        self.chat_log@.len() <= CHAT_LOG_LINES
    }

    /// The screen that shows.
    pub closed spec fn screen(&self) -> Screen {
        self.screen
    }

    /// The chat log, oldest event first.
    pub closed spec fn chat_log(&self) -> Seq<UserEventView> {
        events(self.chat_log@)
    }

    /// The state at the start: the greeting screen and an empty chat log.
    pub fn new() -> (state: Self)
        ensures
            state.screen() == Screen::Hello,
            state.chat_log() == Seq::<UserEventView>::empty(),
    {
        let state = GameState { screen: Screen::default(), chat_log: VecDeque::new() };
        assert(state.chat_log() =~= Seq::<UserEventView>::empty());
        state
    }

    /// Advances the game by one frame and says what the host is to do.
    ///
    /// Select turns to the next screen, and empties the chat log on leaving
    /// the chat screen. Then the screen that shows has its turn.
    pub fn update(&mut self, frame: Frame) -> (plan: Vec<Action>)
        ensures
            final(self).screen() == turned(old(self).screen(), frame.gamepad),
            final(self).chat_log().len() <= CHAT_LOG_LINES,
            ({
                let kept = kept(old(self).screen(), old(self).chat_log(), frame.gamepad);
                match final(self).screen() {
                    Screen::Hello => {
                        &&& final(self).chat_log() == kept
                        &&& actions(plan@) == hello_actions(frame.gamepad)
                    },
                    Screen::Counter => {
                        &&& final(self).chat_log() == kept
                        &&& actions(plan@) == counter_actions(
                            frame.gamepad,
                            frame.mouse,
                            frame.counter,
                        )
                    },
                    Screen::Chat => {
                        &&& final(self).chat_log() == chat_log_after(
                            kept,
                            frame.connected,
                            events(frame.received@),
                        )
                        &&& actions(plan@) == chat_actions(
                            frame.gamepad,
                            frame.connected,
                            final(self).chat_log(),
                        )
                    },
                }
            }),
    {
        proof {
            use_type_invariant(&*self);
        }
        if frame.gamepad.select.just_pressed() {
            if self.screen == Screen::Chat {
                let _ = self.take_log();
            }
            self.screen = self.screen.next();
        }
        match self.screen {
            Screen::Counter => self.update_counter(&frame),
            Screen::Hello => self.update_hello(&frame),
            Screen::Chat => self.update_chat(&frame),
        }
    }

    /// The greeting screen's turn.
    fn update_hello(&self, frame: &Frame) -> (plan: Vec<Action>)
        ensures
            actions(plan@) == hello_actions(frame.gamepad),
    {
        let mut plan: Vec<Action> = Vec::new();
        plan.push(Action::HelloTitle);
        if frame.gamepad.start.just_pressed() {
            plan.push(Action::Exec(Command::Greet(Greet)));
        }
        assert(actions(plan@) =~= hello_actions(frame.gamepad));
        plan
    }

    /// The counter screen's turn.
    fn update_counter(&self, frame: &Frame) -> (plan: Vec<Action>)
        ensures
            actions(plan@) == counter_actions(frame.gamepad, frame.mouse, frame.counter),
    {
        let mut plan: Vec<Action> = Vec::new();
        let p = &frame.mouse;
        let size: i32 = if p.pressed() {
            16
        } else {
            8
        };
        plan.push(
            Action::Circ {
                d: size,
                left: p.x as i64 - (size / 2) as i64,
                top: p.y as i64 - (size / 2) as i64,
                color: POINTER_COLOR,
            },
        );

        let amount: i32 = CLICK_AMOUNT;

        if p.left.just_pressed() {
            let cmd = AddCommand::Plus(amount);
            plan.push(Action::Exec(Command::Add(cmd)));
        }
        if p.right.just_pressed() {
            let cmd = AddCommand::Minus(amount);
            plan.push(Action::Exec(Command::Add(cmd)));
        }
        if frame.gamepad.start.just_pressed() {
            plan.push(Action::Exec(Command::Reset(ResetCommand)));
        }
        if let Some(counter) = frame.counter {
            plan.push(Action::ShowCounter(counter));
        }
        assert(actions(plan@) =~= counter_actions(frame.gamepad, frame.mouse, frame.counter));
        plan
    }

    /// The chat screen's turn.
    fn update_chat(&mut self, frame: &Frame) -> (plan: Vec<Action>)
        ensures
            final(self).screen() == old(self).screen(),
            final(self).chat_log() == chat_log_after(
                old(self).chat_log(),
                frame.connected,
                events(frame.received@),
            ),
            actions(plan@) == chat_actions(frame.gamepad, frame.connected, final(self).chat_log()),
    {
        let mut plan: Vec<Action> = Vec::new();
        plan.push(Action::ChatTitle);
        let mut chat_log = self.take_log();
        let ghost before = events(chat_log@);
        if frame.connected {
            let mut k: usize = 0;
            while k < frame.received.len()
                invariant
                    k <= frame.received@.len(),
                    chat_log@.len() <= CHAT_LOG_LINES,
                    events(chat_log@) == appended(
                        before,
                        events(frame.received@).subrange(0, k as int),
                    ),
                decreases frame.received@.len() - k,
            {
                let ghost so_far = events(chat_log@);
                let ghost received = events(frame.received@);
                let ghost one = received[k as int];
                if chat_log.len() >= CHAT_LOG_LINES {
                    let _ = chat_log.pop_front();
                    assert(events(chat_log@) =~= so_far.subrange(1, so_far.len() as int));
                }
                let ghost rest = events(chat_log@);
                chat_log.push_back(frame.received[k].clone());
                proof {
                    assert(events(chat_log@) =~= rest.push(one));
                    let all = before + received.subrange(0, k as int);
                    assert(received.subrange(0, k + 1) =~= received.subrange(0, k as int).push(one));
                    assert(before + received.subrange(0, k + 1) =~= all.push(one));
                    assert(rest.push(one) =~= appended(before, received.subrange(0, k + 1)));
                }
                k += 1;
            }
            proof {
                let received = events(frame.received@);
                assert(received.subrange(0, k as int) =~= received);
            }
            if frame.gamepad.start.just_pressed() {
                plan.push(Action::Send(UserMessage::Emote(Emote::Love)));
            }
        } else {
            assert(events(chat_log@) =~= before);
        }
        let ghost head = actions(plan@);
        assert(head =~= seq![ActionView::ChatTitle] + when(
            frame.connected && just_pressed(frame.gamepad.start),
            ActionView::Send(UserMessage::Emote(Emote::Love)),
        ));
        let n = chat_log.len();
        let ghost shown = events(chat_log@);
        let mut i: usize = 0;
        while i < n
            invariant
                i <= n,
                n == chat_log@.len(),
                n <= CHAT_LOG_LINES,
                shown == events(chat_log@),
                actions(plan@) == head + chat_lines(shown).subrange(0, i as int),
            decreases n - i,
        {
            let ghost drawn = actions(plan@);
            let event = chat_log[n - 1 - i].clone();
            let y: i32 = 8 + (i as i32) * 10;
            let line = Action::ShowEvent { event, x: 4, y };
            assert(line@ == chat_lines(shown)[i as int]);
            plan.push(line);
            assert(actions(plan@) =~= drawn.push(line@));
            assert(chat_lines(shown).subrange(0, i + 1) =~= chat_lines(shown).subrange(
                0,
                i as int,
            ).push(line@));
            assert(actions(plan@) =~= head + chat_lines(shown).subrange(0, i + 1));
            i += 1;
        }
        assert(chat_lines(shown).subrange(0, n as int) =~= chat_lines(shown));
        self.chat_log = chat_log;
        plan
    }

    /// Moves the chat log out and leaves an empty one.
    fn take_log(&mut self) -> (chat_log: VecDeque<UserEvent>)
        ensures
            chat_log@ == old(self).chat_log@,
            chat_log@.len() <= CHAT_LOG_LINES,
            final(self).chat_log@.len() == 0,
            final(self).screen == old(self).screen,
    {
        proof {
            use_type_invariant(&*self);
        }
        let mut emptied = GameState { screen: self.screen, chat_log: VecDeque::new() };
        core::mem::swap(self, &mut emptied);
        let GameState { screen: _, chat_log } = emptied;
        chat_log
    }

    /// The screen that a frame with this gamepad will show, for a host that
    /// samples only what that screen reads.
    pub fn upcoming_screen(&self, gamepad: &TurboGamepad) -> (screen: Screen)
        ensures
            screen == turned(self.screen(), *gamepad),
    {
        if gamepad.select.just_pressed() {
            self.screen.next()
        } else {
            self.screen
        }
    }

    /// The screen that shows.
    pub fn current_screen(&self) -> (screen: Screen)
        ensures
            screen == self.screen(),
    {
        self.screen
    }

    /// The chat log, oldest event first: at most as many as the log keeps.
    pub fn lines(&self) -> (lines: Vec<UserEvent>)
        ensures
            events(lines@) == self.chat_log(),
            lines@.len() <= CHAT_LOG_LINES,
    {
        proof {
            use_type_invariant(self);
        }
        let mut lines: Vec<UserEvent> = Vec::new();
        let mut i: usize = 0;
        while i < self.chat_log.len()
            invariant
                i <= self.chat_log@.len(),
                lines@.len() == i,
                forall|j: int| 0 <= j < i ==> (#[trigger] lines@[j])@ == self.chat_log@[j]@,
            decreases self.chat_log@.len() - i,
        {
            lines.push(self.chat_log[i].clone());
            i += 1;
        }
        assert(events(lines@) =~= self.chat_log());
        lines
    }
}

} // verus!
