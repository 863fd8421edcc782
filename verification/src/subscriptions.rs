//! The subscriptions that wait to hear whether they are ready.

use vstd::prelude::*;
use crate::json::Json;
use crate::messages::{subscribe_text, unsubscribe_text, Subscribe, Unsubscribe};
use crate::queue::OutboundQueue;
use crate::random::{is_id, Random};
use crate::table::Table;

verus! {

/// The handlers that fire when the server answers for the subscription `id`:
/// those that wait under it, last registered first.
pub open spec fn fired<S>(subs: Map<Seq<char>, Seq<S>>, id: Seq<char>) -> Seq<S> {
    match subs.get(id) {
        Some(listeners) => listeners.reverse(),
        None => Seq::empty(),
    }
}

/// The subscriptions that still wait after the server has answered for each
/// of `ids`.
pub open spec fn after_ready<S>(subs: Map<Seq<char>, Seq<S>>, ids: Seq<Seq<char>>) -> Map<
    Seq<char>,
    Seq<S>,
>
    decreases ids.len(),
{
    if ids.len() == 0 {
        subs
    } else {
        after_ready(subs, ids.drop_last()).remove(ids.last())
    }
}

/// The handlers that fire when the server answers for each of `ids` in turn.
/// An id that occurs twice fires its handlers the first time only.
pub open spec fn ready_handlers<S>(subs: Map<Seq<char>, Seq<S>>, ids: Seq<Seq<char>>) -> Seq<S>
    decreases ids.len(),
{
    if ids.len() == 0 {
        Seq::empty()
    } else {
        ready_handlers(subs, ids.drop_last()) + fired(
            after_ready(subs, ids.drop_last()),
            ids.last(),
        )
    }
}

/// One failed id fires and forgets what a list of that one id would.
pub proof fn lemma_single_notice<S>(subs: Map<Seq<char>, Seq<S>>, id: Seq<char>)
    ensures
        after_ready(subs, seq![id]) == subs.remove(id),
        ready_handlers(subs, seq![id]) == fired(subs, id),
{
    let ids = seq![id];
    assert(ids.drop_last() =~= Seq::<Seq<char>>::empty());
    assert(ids.last() == id);
    assert(after_ready(subs, ids.drop_last()) == subs);
    assert(ready_handlers(subs, ids.drop_last()) =~= Seq::<S>::empty());
    assert(ready_handlers(subs, ids) =~= fired(subs, id));
}

/// The texts of a list of borrowed strings.
pub open spec fn texts(ids: Seq<&str>) -> Seq<Seq<char>> {
    ids.map_values(|id: &str| id@)
}

/// What a readiness notice says: the ids that are ready, or the id that
/// failed.
pub open spec fn notice_ids(notice: Result<Vec<&str>, (&str, &Json)>) -> Seq<Seq<char>> {
    match notice {
        Ok(ids) => texts(ids@),
        Err((id, _)) => seq![id@],
    }
}

/// The subscriptions that have been asked for, each with the handlers that
/// wait to hear of it. The handlers of a subscription leave the table when
/// the server answers for it, so each can be fired at most once.
pub struct Subscriptions<S> {
    subs: Table<Vec<S>>,
    rng: Random,
}

impl<S> View for Subscriptions<S> {
    type V = Map<Seq<char>, Seq<S>>;

    /// The waiting handlers of each subscription, by the subscription's id,
    /// in the order in which they were registered.
    closed spec fn view(&self) -> Map<Seq<char>, Seq<S>> {
        self.subs@.map_values(|listeners: Vec<S>| listeners@)
    }
}

impl<S> Subscriptions<S> {
    /// The table of subscriptions holds no id twice.
    pub closed spec fn wf(&self) -> bool {
        self.subs.wf()
    }

    /// No subscription waits yet.
    pub fn new(rng: Random) -> (subscriptions: Subscriptions<S>)
        ensures
            subscriptions.wf(),
            subscriptions@ == Map::<Seq<char>, Seq<S>>::empty(),
    {
        let subscriptions = Subscriptions { subs: Table::new(), rng: rng };
        assert(subscriptions@ =~= Map::<Seq<char>, Seq<S>>::empty());
        subscriptions
    }

    /// Fires, by handing them to the caller, the handlers that a readiness
    /// notice concerns, and forgets them: for a list of ready ids the
    /// handlers of each in turn, for a failure the handlers of the id that
    /// failed. Ids that nobody waits for are passed over.
    pub fn notify(&mut self, subs: Result<Vec<&str>, (&str, &Json)>) -> (handlers: Vec<S>)
        requires
            old(self).wf(),
        ensures
            final(self).wf(),
            handlers@ == ready_handlers(old(self)@, notice_ids(subs)),
            final(self)@ == after_ready(old(self)@, notice_ids(subs)),
    {
        match subs {
            Ok(successes) => {
                let mut handlers: Vec<S> = Vec::new();
                let mut i: usize = 0;
                proof {
                    assert(texts(successes@).take(0) =~= Seq::<Seq<char>>::empty());
                }
                while i < successes.len()
                    invariant
                        i <= successes.len(),
                        self.wf(),
                        handlers@ == ready_handlers(old(self)@, texts(successes@).take(i as int)),
                        self@ == after_ready(old(self)@, texts(successes@).take(i as int)),
                    decreases successes.len() - i,
                {
                    let mut more = self.relay(successes[i]);
                    proof {
                        let upto = texts(successes@).take(i + 1);
                        assert(upto.drop_last() =~= texts(successes@).take(i as int));
                        assert(upto.last() == successes@[i as int]@);
                    }
                    handlers.append(&mut more);
                    i = i + 1;
                }
                proof {
                    assert(texts(successes@).take(i as int) =~= texts(successes@));
                }
                handlers
            },
            Err((id, _)) => {
                let handlers = self.relay(id);
                proof {
                    lemma_single_notice(old(self)@, id@);
                }
                handlers
            },
        }
    }

    /// Asks the server for the publication `name`. An empty slot is first
    /// filled with a fresh random id, under which no handler waits yet; then
    /// the `sub` frame with the slot's id joins the queue.
    pub fn sub(&mut self, outgoing: &mut OutboundQueue, name: &str, id: &mut Option<String>)
        requires
            old(self).wf(),
        ensures
            final(self).wf(),
            (*final(id)) is Some,
            (*old(id)) is Some ==> *final(id) == *old(id) && final(self)@ == old(self)@,
            (*old(id)) is None ==> is_id((*final(id))->0@) && final(self)@ == old(self)@.insert(
                (*final(id))->0@,
                Seq::empty(),
            ),
            final(outgoing)@ == old(outgoing)@.push(subscribe_text((*final(id))->0@, name@, None)),
    {
        if id.is_none() {
            self.create_profile(id);
        }
        match id {
            Some(sub_id) => {
                let sub_msg = Subscribe::text(sub_id.as_str(), name, None);
                outgoing.send(sub_msg);
            },
            None => {},
        }
    }

    /// Tells the server to end the subscription `id`.
    pub fn unsub(&self, outgoing: &mut OutboundQueue, id: &str)
        ensures
            final(outgoing)@ == old(outgoing)@.push(unsubscribe_text(id@)),
    {
        let unsub_msg = Unsubscribe::text(id);
        outgoing.send(unsub_msg);
    }

    /// Lets `f` wait for the answer to the slot's subscription. An empty
    /// slot is first filled with a fresh random id. Where the server has
    /// already answered for the slot's id nobody waits under it any more,
    /// and `f` is dropped.
    pub fn add_listener(&mut self, id: &mut Option<String>, f: S)
        requires
            old(self).wf(),
        ensures
            final(self).wf(),
            (*final(id)) is Some,
            (*old(id)) is Some ==> *final(id) == *old(id) && final(self)@ == listening(
                old(self)@,
                (*old(id))->0@,
                f,
            ),
            (*old(id)) is None ==> is_id((*final(id))->0@) && final(self)@ == old(self)@.insert(
                (*final(id))->0@,
                seq![f],
            ),
    {
        if id.is_none() {
            self.create_profile(id);
        }
        match id {
            Some(sub_id) => {
                self.listen(sub_id.as_str(), f);
                proof {
                    assert(Seq::<S>::empty().push(f) =~= seq![f]);
                    if (*old(id)) is None {
                        assert(self@ =~= old(self)@.insert(sub_id@, seq![f]));
                    }
                }
            },
            None => {},
        }
    }

    /// Lets `f` wait under `id`, where a list of handlers waits there.
    pub fn listen(&mut self, id: &str, f: S)
        requires
            old(self).wf(),
        ensures
            final(self).wf(),
            final(self)@ == listening(old(self)@, id@, f),
    {
        match self.subs.remove(id) {
            Some(listeners) => {
                let mut listeners = listeners;
                listeners.push(f);
                self.subs.insert(String::from_str(id), listeners);
                assert(self@ =~= listening(old(self)@, id@, f));
            },
            None => {
                assert(self@ =~= old(self)@);
            },
        }
    }

    /// Fills the slot with a fresh random id and opens an empty list of
    /// handlers under it.
    pub fn create_profile(&mut self, key: &mut Option<String>)
        requires
            old(self).wf(),
        ensures
            final(self).wf(),
            (*final(key)) is Some,
            is_id((*final(key))->0@),
            final(self)@ == old(self)@.insert((*final(key))->0@, Seq::empty()),
    {
        let id = self.rng.id();
        *key = Some(id.clone());
        self.open_profile(id);
    }

    /// Opens an empty list of handlers under `id`. Handlers that waited
    /// under the same id are dropped without being fired.
    pub fn open_profile(&mut self, id: String)
        requires
            old(self).wf(),
        ensures
            final(self).wf(),
            final(self)@ == old(self)@.insert(id@, Seq::empty()),
    {
        self.subs.insert(id, Vec::new());
        assert(self@ =~= old(self)@.insert(id@, Seq::empty()));
    }

    /// Takes the handlers of the subscription `id` out of the table, last
    /// registered first.
    pub fn relay(&mut self, id: &str) -> (handlers: Vec<S>)
        requires
            old(self).wf(),
        ensures
            final(self).wf(),
            handlers@ == fired(old(self)@, id@),
            final(self)@ == old(self)@.remove(id@),
    {
        let mut handlers: Vec<S> = Vec::new();
        match self.subs.remove(id) {
            Some(callbacks) => {
                let mut callbacks = callbacks;
                let ghost waiting = callbacks@;
                while callbacks.len() > 0
                    invariant
                        callbacks@ =~= waiting.take(callbacks@.len() as int),
                        callbacks@.len() <= waiting.len(),
                        handlers@ =~= waiting.skip(callbacks@.len() as int).reverse(),
                    decreases callbacks@.len(),
                {
                    let ghost n = callbacks@.len() as int;
                    match callbacks.pop() {
                        Some(callback) => {
                            handlers.push(callback);
                            proof {
                                assert(callback == waiting[n - 1]);
                            }
                        },
                        None => {},
                    }
                }
                proof {
                    assert(waiting.skip(0) =~= waiting);
                }
            },
            None => {},
        }
        assert(self@ =~= old(self)@.remove(id@));
        handlers
    }
}

/// The table after `f` has joined the handlers that wait under `id`; where
/// nobody waits under `id` the table is as it was.
pub open spec fn listening<S>(subs: Map<Seq<char>, Seq<S>>, id: Seq<char>, f: S) -> Map<
    Seq<char>,
    Seq<S>,
> {
    match subs.get(id) {
        Some(listeners) => subs.insert(id, listeners.push(f)),
        None => subs,
    }
}

} // verus!
