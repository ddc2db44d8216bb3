//! The broadcast bus of one channel: who is connected, and what each of them
//! has been sent.

use crate::chat::{UserEvent, UserEventView};
use crate::table::Table;
use vstd::prelude::*;

verus! {

/// The connections of a channel, each with the events delivered to it and
/// not yet taken.
///
/// The view maps each connected caller to those events, oldest first.
pub struct Bus {
    inboxes: Table<Vec<UserEvent>>,
}

/// A list of events, each by its view.
pub open spec fn events(inbox: Seq<UserEvent>) -> Seq<UserEventView> {
    inbox.map_values(|event: UserEvent| event@)
}

/// A list of callers, each as a sequence of characters.
pub open spec fn names(callers: Seq<String>) -> Seq<Seq<char>> {
    callers.map_values(|caller: String| caller@)
}

/// What the connections hold once `event` has been delivered to each: every
/// connection has it once more, at the end, and the connections are the same.
pub open spec fn delivered(
    inboxes: Map<Seq<char>, Seq<UserEventView>>,
    event: UserEventView,
) -> Map<Seq<char>, Seq<UserEventView>> {
    inboxes.map_values(|inbox: Seq<UserEventView>| inbox.push(event))
}

impl View for Bus {
    type V = Map<Seq<char>, Seq<UserEventView>>;

    closed spec fn view(&self) -> Map<Seq<char>, Seq<UserEventView>> {
        self.inboxes@.map_values(|inbox: Vec<UserEvent>| events(inbox@))
    }
}

impl Bus {
    /// A bus with no connection.
    pub fn new() -> (bus: Self)
        ensures
            bus@ == Map::<Seq<char>, Seq<UserEventView>>::empty(),
    {
        let bus = Bus { inboxes: Table::new() };
        assert(bus@ =~= Map::<Seq<char>, Seq<UserEventView>>::empty());
        bus
    }

    /// Whether `user_id` is connected.
    pub fn is_connected(&self, user_id: &str) -> (connected: bool)
        ensures
            connected == self@.contains_key(user_id@),
    {
        self.inboxes.contains_key(user_id)
    }

    /// The number of connections.
    pub fn connections(&self) -> (n: usize)
        ensures
            n == self@.dom().len(),
            self@.dom().finite(),
    {
        let n = self.inboxes.len();
        proof {
            self.inboxes.lemma_keys();
            let keys = self.inboxes.keys();
            keys.unique_seq_to_set();
            assert forall|k: Seq<char>| keys.to_set().contains(k) <==> self@.dom().contains(k) by {
                assert(keys.to_set().contains(k) <==> keys.contains(k));
                assert(self@.dom().contains(k) <==> self.inboxes@.contains_key(k));
            }
            assert(keys.to_set() =~= self@.dom());
        }
        n
    }

    /// Opens a connection for `user_id`, with nothing delivered yet. A
    /// caller who is connected already stays as they are.
    pub fn connect(&mut self, user_id: &str) -> (opened: bool)
        ensures
            opened == !old(self)@.contains_key(user_id@),
            final(self)@ == if opened {
                old(self)@.insert(user_id@, Seq::<UserEventView>::empty())
            } else {
                old(self)@
            },
    {
        if self.inboxes.contains_key(user_id) {
            return false;
        }
        let inbox: Vec<UserEvent> = Vec::new();
        assert(events(inbox@) =~= Seq::<UserEventView>::empty());
        self.inboxes.insert(user_id, inbox);
        assert(self@ =~= old(self)@.insert(user_id@, Seq::<UserEventView>::empty()));
        true
    }

    /// Closes the connection of `user_id` and drops what it had not taken.
    pub fn disconnect(&mut self, user_id: &str) -> (closed: bool)
        ensures
            closed == old(self)@.contains_key(user_id@),
            final(self)@ == old(self)@.remove(user_id@),
    {
        let taken = self.inboxes.remove(user_id);
        assert(self@ =~= old(self)@.remove(user_id@));
        taken.is_some()
    }

    /// Delivers `event` once to every connection that is open now.
    pub fn broadcast(&mut self, event: &UserEvent)
        ensures
            final(self)@ == delivered(old(self)@, event@),
    {
        let n = self.inboxes.len();
        let ghost keys = self.inboxes.keys();
        let mut i: usize = 0;
        while i < n
            invariant
                i <= n,
                n == self.inboxes.spec_len(),
                self.inboxes.well_formed(),
                self.inboxes.keys() == keys,
                self@.dom() == old(self)@.dom(),
                forall|j: int|
                    0 <= j < i ==> self@[#[trigger] keys[j]] == old(self)@[keys[j]].push(event@),
                forall|j: int| i <= j < n ==> self@[#[trigger] keys[j]] == old(self)@[keys[j]],
            decreases n - i,
        {
            proof {
                self.inboxes.lemma_keys();
            }
            let ghost before = self@;
            let ghost key = keys[i as int];
            let mut inbox = self.inboxes.replace_at(i, Vec::new());
            let ghost had = inbox@;
            assert(before.contains_key(key) && events(had) == before[key]);
            inbox.push(event.clone());
            assert(events(inbox@) =~= events(had).push(event@));
            let _ = self.inboxes.replace_at(i, inbox);
            proof {
                assert(self@ =~= before.insert(key, events(had).push(event@)));
                assert(self@.dom() =~= before.dom());
                assert forall|j: int| 0 <= j < i + 1 implies self@[#[trigger] keys[j]] == old(
                    self,
                )@[keys[j]].push(event@) by {
                    if j < i {
                        assert(keys[j] != keys[i as int]);
                    }
                }
                assert forall|j: int| i + 1 <= j < n implies self@[#[trigger] keys[j]] == old(
                    self,
                )@[keys[j]] by {
                    assert(keys[j] != keys[i as int]);
                }
            }
            i += 1;
        }
        proof {
            self.inboxes.lemma_keys();
            let want = delivered(old(self)@, event@);
            assert(self@.dom() =~= want.dom());
            assert forall|k: Seq<char>| self@.contains_key(k) implies self@[k] == want[k] by {
                assert(self.inboxes@.contains_key(k));
                assert(keys.contains(k));
                let j = choose|j: int| 0 <= j < keys.len() && keys[j] == k;
                assert(self@[keys[j]] == old(self)@[keys[j]].push(event@));
            }
            assert(self@ =~= want);
        }
    }

    /// Takes what has been delivered to `user_id` out of the bus, oldest
    /// first, for the transport to send on. The connection stays open, with
    /// nothing waiting. For a caller who is not connected there is nothing
    /// to take.
    pub fn take(&mut self, user_id: &str) -> (inbox: Vec<UserEvent>)
        ensures
            events(inbox@) == if old(self)@.contains_key(user_id@) {
                old(self)@[user_id@]
            } else {
                Seq::<UserEventView>::empty()
            },
            final(self)@ == if old(self)@.contains_key(user_id@) {
                old(self)@.insert(user_id@, Seq::<UserEventView>::empty())
            } else {
                old(self)@
            },
    {
        match self.inboxes.remove(user_id) {
            Some(inbox) => {
                let emptied: Vec<UserEvent> = Vec::new();
                assert(events(emptied@) =~= Seq::<UserEventView>::empty());
                self.inboxes.insert(user_id, emptied);
                assert(self@ =~= old(self)@.insert(user_id@, Seq::<UserEventView>::empty()));
                inbox
            },
            None => {
                let nothing: Vec<UserEvent> = Vec::new();
                assert(events(nothing@) =~= Seq::<UserEventView>::empty());
                assert(self@ =~= old(self)@);
                nothing
            },
        }
    }

    /// The callers who are connected, each once, in no particular order.
    pub fn callers(&self) -> (callers: Vec<String>)
        ensures
            names(callers@).no_duplicates(),
            forall|user_id: Seq<char>|
                names(callers@).contains(user_id) <==> self@.contains_key(user_id),
    {
        let n = self.inboxes.len();
        proof {
            self.inboxes.lemma_keys();
        }
        let mut callers: Vec<String> = Vec::new();
        let mut i: usize = 0;
        while i < n
            invariant
                i <= n,
                n == self.inboxes.spec_len(),
                n == self.inboxes.keys().len(),
                names(callers@) == self.inboxes.keys().subrange(0, i as int),
            decreases n - i,
        {
            let ghost before = names(callers@);
            let caller = self.inboxes.key_at(i).clone();
            let ghost name = caller@;
            assert(name == self.inboxes.keys()[i as int]);
            callers.push(caller);
            assert(names(callers@) =~= before.push(name));
            assert(before.push(name) =~= self.inboxes.keys().subrange(0, i + 1));
            i += 1;
        }
        proof {
            assert(self.inboxes.keys().subrange(0, n as int) =~= self.inboxes.keys());
            assert forall|user_id: Seq<char>|
                names(callers@).contains(user_id) <==> self@.contains_key(user_id) by {
                assert(self@.contains_key(user_id) <==> self.inboxes@.contains_key(user_id));
            }
        }
        callers
    }

    /// What has been delivered to `user_id`, oldest first; nothing for a
    /// caller who is not connected.
    pub fn received(&self, user_id: &str) -> (inbox: Vec<UserEvent>)
        ensures
            events(inbox@) == if self@.contains_key(user_id@) {
                self@[user_id@]
            } else {
                Seq::<UserEventView>::empty()
            },
    {
        let mut copy: Vec<UserEvent> = Vec::new();
        match self.inboxes.get(user_id) {
            Some(inbox) => {
                let mut i: usize = 0;
                while i < inbox.len()
                    invariant
                        i <= inbox@.len(),
                        copy@.len() == i,
                        forall|j: int| 0 <= j < i ==> (#[trigger] copy@[j])@ == inbox@[j]@,
                    decreases inbox@.len() - i,
                {
                    copy.push(inbox[i].clone());
                    i += 1;
                }
                assert(events(copy@) =~= events(inbox@));
            },
            None => {
                assert(events(copy@) =~= Seq::<UserEventView>::empty());
            },
        }
        copy
    }
}

/// A broadcast reaches every connection that is open, once, after what it
/// had been sent before, and opens or closes none.
pub proof fn lemma_broadcast_reaches_everyone(
    inboxes: Map<Seq<char>, Seq<UserEventView>>,
    event: UserEventView,
)
    ensures
        delivered(inboxes, event).dom() == inboxes.dom(),
        forall|user_id: Seq<char>| #[trigger]
            inboxes.contains_key(user_id) ==> delivered(inboxes, event)[user_id]
                == inboxes[user_id].push(event),
{
    assert(delivered(inboxes, event).dom() =~= inboxes.dom());
}

} // verus!
