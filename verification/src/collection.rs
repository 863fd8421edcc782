//! A named collection on the server: the listeners for its events, its
//! subscription, and the method calls that change it.

use vstd::prelude::*;
use vstd::string::*;
use crate::json::Json;
use crate::listeners::{keys_ascend, keys_of, keys_within, listener_at, without, Listeners};
use crate::listeners::lemma_without_keeps;
use crate::messages::{method_text, payloads, subscribe_text, unsubscribe_text};
use crate::methods::Methods;
use crate::queue::OutboundQueue;
use crate::random::is_id;
use crate::subscriptions::{listening, Subscriptions};

verus! {

/// The kinds of event that a collection's listeners wait for.
#[derive(Clone, Copy, Debug, PartialEq, Eq)]
pub enum Listener {
    Inserted,
    Removed,
    Changed,
}

/// What a registration returns and a deregistration takes: the kind of the
/// listener and its key in the collection.
#[derive(Clone, Copy, Debug, PartialEq, Eq)]
pub struct ListenerId(pub Listener, pub u32);

/// The name of the server method that performs the operation `suffix` on
/// the collection `name`.
pub open spec fn op_name(name: Seq<char>, suffix: Seq<char>) -> Seq<char> {
    "/"@ + name + suffix
}

/// The names of the server methods that change a collection.
pub struct OpNames {
    insert: String,
    upsert: String,
    update: String,
    remove: String,
}

/// What a collection holds.
pub struct CollectionView<A, C, R> {
    /// The collection's name on the server.
    pub name: Seq<char>,
    /// The listeners for `added` events with their keys, oldest first.
    pub added: Seq<(u32, A)>,
    /// The listeners for `changed` events with their keys, oldest first.
    pub changed: Seq<(u32, C)>,
    /// The listeners for `removed` events with their keys, oldest first.
    pub removed: Seq<(u32, R)>,
    /// The id of the collection's subscription, `None` while it has none.
    pub sub_id: Option<Seq<char>>,
    /// The key that was handed out last.
    pub count: int,
}

/// One collection of a connection. Each of its listeners stands under a key
/// that no other listener of the collection has or will have.
pub struct Collection<A, C, R> {
    remove_listeners: Listeners<R>,
    insert_listeners: Listeners<A>,
    change_listeners: Listeners<C>,
    id: Option<String>,
    count: u32,
    name: String,
    ops: OpNames,
}

/// A collection, by the name that stresses what it holds: the callbacks
/// for the events of a Mongo collection.
pub type MongoCallbacks<A, C, R> = Collection<A, C, R>;

impl<A, C, R> View for Collection<A, C, R> {
    type V = CollectionView<A, C, R>;

    closed spec fn view(&self) -> CollectionView<A, C, R> {
        CollectionView {
            name: self.name@,
            added: self.insert_listeners@,
            changed: self.change_listeners@,
            removed: self.remove_listeners@,
            sub_id: match self.id {
                Some(id) => Some(id@),
                None => None,
            },
            count: self.count as int,
        }
    }
}

impl<A, C, R> CollectionView<A, C, R> {
    /// In each table the keys grow in the order of registration, and none
    /// is above the key handed out last.
    pub open spec fn wf(self) -> bool {
        &&& 0 <= self.count <= u32::MAX
        &&& keys_ascend(self.added) && keys_within(self.added, self.count)
        &&& keys_ascend(self.changed) && keys_within(self.changed, self.count)
        &&& keys_ascend(self.removed) && keys_within(self.removed, self.count)
    }

    /// Whether another listener can be given a key.
    pub open spec fn has_room(self) -> bool {
        self.count < u32::MAX
    }

    /// A collection by this name that nobody has touched yet.
    pub open spec fn fresh(name: Seq<char>) -> Self {
        CollectionView {
            name: name,
            added: Seq::empty(),
            changed: Seq::empty(),
            removed: Seq::empty(),
            sub_id: None,
            count: 0,
        }
    }

    /// The key that the next listener gets.
    pub open spec fn next_key(self) -> u32 {
        (self.count + 1) as u32
    }

    /// The collection after `f` has been registered for `added` events.
    pub open spec fn adding(self, f: A) -> Self {
        CollectionView {
            added: self.added.push((self.next_key(), f)),
            count: self.count + 1,
            ..self
        }
    }

    /// The collection after `f` has been registered for `changed` events.
    pub open spec fn changing(self, f: C) -> Self {
        CollectionView {
            changed: self.changed.push((self.next_key(), f)),
            count: self.count + 1,
            ..self
        }
    }

    /// The collection after `f` has been registered for `removed` events.
    pub open spec fn removing(self, f: R) -> Self {
        CollectionView {
            removed: self.removed.push((self.next_key(), f)),
            count: self.count + 1,
            ..self
        }
    }

    /// The collection with the subscription id `id`, or with none.
    pub open spec fn with_sub(self, id: Option<Seq<char>>) -> Self {
        CollectionView { sub_id: id, ..self }
    }

    /// The collection after the listener `id` has been taken out of the
    /// table of its kind.
    pub open spec fn cleared(self, id: ListenerId) -> Self {
        match id.0 {
            Listener::Inserted => CollectionView { added: without(self.added, id.1), ..self },
            Listener::Changed => CollectionView { changed: without(self.changed, id.1), ..self },
            Listener::Removed => CollectionView { removed: without(self.removed, id.1), ..self },
        }
    }
}

impl<A, C, R> Collection<A, C, R> {
    /// The tables and the method names are in order.
    pub closed spec fn wf(&self) -> bool {
        &&& self@.wf()
        &&& self.insert_listeners.wf()
        &&& self.change_listeners.wf()
        &&& self.remove_listeners.wf()
        &&& self.ops.insert@ == op_name(self.name@, "/insert"@)
        &&& self.ops.update@ == op_name(self.name@, "/update"@)
        &&& self.ops.upsert@ == op_name(self.name@, "/upsert"@)
        &&& self.ops.remove@ == op_name(self.name@, "/remove"@)
    }

    /// A well-formed collection has a well-formed view.
    pub proof fn lemma_wf(&self)
        requires
            self.wf(),
        ensures
            self@.wf(),
    {
    }

    /// The collection `name`, without listeners and without a subscription.
    pub fn new(name: String) -> (collection: Self)
        ensures
            collection.wf(),
            collection@ == CollectionView::<A, C, R>::fresh(name@),
    {
        let mut insert = String::from_str("/");
        insert.append(name.as_str());
        insert.append("/insert");
        let mut update = String::from_str("/");
        update.append(name.as_str());
        update.append("/update");
        let mut upsert = String::from_str("/");
        upsert.append(name.as_str());
        upsert.append("/upsert");
        let mut remove = String::from_str("/");
        remove.append(name.as_str());
        remove.append("/remove");
        let ops = OpNames { insert: insert, update: update, upsert: upsert, remove: remove };
        Collection {
            remove_listeners: Listeners::new(),
            insert_listeners: Listeners::new(),
            change_listeners: Listeners::new(),
            id: None,
            count: 0,
            name: name,
            ops: ops,
        }
    }

    /// The listeners to fire for a `removed` event: the keys of those that
    /// are registered now, oldest first.
    pub fn notify_remove(&self) -> (keys: Vec<u32>)
        ensures
            keys@ == keys_of(self@.removed),
    {
        self.remove_listeners.keys()
    }

    /// The listeners to fire for an `added` event: the keys of those that
    /// are registered now, oldest first.
    pub fn notify_insert(&self) -> (keys: Vec<u32>)
        ensures
            keys@ == keys_of(self@.added),
    {
        self.insert_listeners.keys()
    }

    /// The listeners to fire for a `changed` event: the keys of those that
    /// are registered now, oldest first.
    pub fn notify_change(&self) -> (keys: Vec<u32>)
        ensures
            keys@ == keys_of(self@.changed),
    {
        self.change_listeners.keys()
    }

    /// The listener for `removed` events under `key`.
    pub fn removed_listener<'a>(&'a self, key: u32) -> (listener: Option<&'a R>)
        requires
            self.wf(),
        ensures
            listener == match listener_at(self@.removed, key) {
                Some(l) => Some(&l),
                None => None,
            },
    {
        self.remove_listeners.get(key)
    }

    /// The listener for `added` events under `key`.
    pub fn added_listener<'a>(&'a self, key: u32) -> (listener: Option<&'a A>)
        requires
            self.wf(),
        ensures
            listener == match listener_at(self@.added, key) {
                Some(l) => Some(&l),
                None => None,
            },
    {
        self.insert_listeners.get(key)
    }

    /// The listener for `changed` events under `key`.
    pub fn changed_listener<'a>(&'a self, key: u32) -> (listener: Option<&'a C>)
        requires
            self.wf(),
        ensures
            listener == match listener_at(self@.changed, key) {
                Some(l) => Some(&l),
                None => None,
            },
    {
        self.change_listeners.get(key)
    }

    /// Whether another listener can be given a key.
    pub fn has_room(&self) -> (room: bool)
        ensures
            room == self@.has_room(),
    {
        self.count < u32::MAX
    }

    /// Hands out the next key.
    fn increment(&mut self) -> (key: u32)
        requires
            old(self).wf(),
            old(self)@.has_room(),
        ensures
            key == old(self)@.count + 1,
            final(self)@ == (CollectionView { count: key as int, ..old(self)@ }),
            final(self).wf(),
    {
        self.count = self.count + 1;
        self.count
    }

    /// Registers `f` for `removed` events under the next key.
    pub fn on_remove(&mut self, f: R) -> (id: ListenerId)
        requires
            old(self).wf(),
            old(self)@.has_room(),
        ensures
            final(self).wf(),
            id == ListenerId(Listener::Removed, old(self)@.next_key()),
            final(self)@ == old(self)@.removing(f),
    {
        let count: u32 = self.increment();
        self.remove_listeners.insert(count, f);
        ListenerId(Listener::Removed, count)
    }

    /// Registers `f` for `added` events under the next key.
    pub fn on_add(&mut self, f: A) -> (id: ListenerId)
        requires
            old(self).wf(),
            old(self)@.has_room(),
        ensures
            final(self).wf(),
            id == ListenerId(Listener::Inserted, old(self)@.next_key()),
            final(self)@ == old(self)@.adding(f),
    {
        let count: u32 = self.increment();
        self.insert_listeners.insert(count, f);
        ListenerId(Listener::Inserted, count)
    }

    /// Registers `f` for `changed` events under the next key.
    pub fn on_change(&mut self, f: C) -> (id: ListenerId)
        requires
            old(self).wf(),
            old(self)@.has_room(),
        ensures
            final(self).wf(),
            id == ListenerId(Listener::Changed, old(self)@.next_key()),
            final(self)@ == old(self)@.changing(f),
    {
        let count: u32 = self.increment();
        self.change_listeners.insert(count, f);
        ListenerId(Listener::Changed, count)
    }

    /// Lets `f` wait to hear whether the collection's subscription is
    /// ready. A collection without a subscription id is given a fresh one.
    pub fn on_ready<S>(&mut self, subs: &mut Subscriptions<S>, f: S)
        requires
            old(self).wf(),
            old(subs).wf(),
        ensures
            final(self).wf(),
            final(subs).wf(),
            final(self)@.sub_id is Some,
            final(self)@ == old(self)@.with_sub(final(self)@.sub_id),
            old(self)@.sub_id is Some ==> final(self)@ == old(self)@ && final(subs)@ == listening(
                old(subs)@,
                old(self)@.sub_id->0,
                f,
            ),
            old(self)@.sub_id is None ==> is_id(final(self)@.sub_id->0) && final(subs)@ == old(
                subs,
            )@.insert(final(self)@.sub_id->0, seq![f]),
    {
        subs.add_listener(&mut self.id, f);
    }

    /// Deregisters the listener `id`. The other listeners stay, each under
    /// its key.
    pub fn clear_listener(&mut self, id: ListenerId)
        requires
            old(self).wf(),
        ensures
            final(self).wf(),
            final(self)@ == old(self)@.cleared(id),
    {
        proof {
            lemma_without_keeps(self@.added, id.1);
            lemma_without_keeps(self@.changed, id.1);
            lemma_without_keeps(self@.removed, id.1);
        }
        match id {
            ListenerId(Listener::Inserted, c) => {
                self.insert_listeners.remove(c);
            },
            ListenerId(Listener::Changed, c) => {
                self.change_listeners.remove(c);
            },
            ListenerId(Listener::Removed, c) => {
                self.remove_listeners.remove(c);
            },
        }
    }

    /// Calls the server method that inserts `record` into the collection.
    pub fn insert<M>(
        &self,
        methods: &mut Methods<M>,
        outgoing: &mut OutboundQueue,
        record: &Json,
        callback: M,
    ) -> (id: String)
        requires
            self.wf(),
            old(methods).wf(),
        ensures
            final(methods).wf(),
            is_id(id@),
            final(methods)@ == old(methods)@.insert(id@, callback),
            final(outgoing)@ == old(outgoing)@.push(
                method_text(id@, op_name(self@.name, "/insert"@), Some(seq![*record])),
            ),
    {
        let params: Vec<&Json> = vec![record];
        proof {
            assert(payloads(params@) =~= seq![*record]);
        }
        methods.send(outgoing, self.ops.insert.as_str(), Some(&params), callback)
    }

    /// Calls the server method that applies `modifier` to the records that
    /// `selector` picks.
    pub fn update<M>(
        &self,
        methods: &mut Methods<M>,
        outgoing: &mut OutboundQueue,
        selector: &Json,
        modifier: &Json,
        callback: M,
    ) -> (id: String)
        requires
            self.wf(),
            old(methods).wf(),
        ensures
            final(methods).wf(),
            is_id(id@),
            final(methods)@ == old(methods)@.insert(id@, callback),
            final(outgoing)@ == old(outgoing)@.push(
                method_text(
                    id@,
                    op_name(self@.name, "/update"@),
                    Some(seq![*selector, *modifier]),
                ),
            ),
    {
        let params: Vec<&Json> = vec![selector, modifier];
        proof {
            assert(payloads(params@) =~= seq![*selector, *modifier]);
        }
        methods.send(outgoing, self.ops.update.as_str(), Some(&params), callback)
    }

    /// Calls the server method that applies `modifier` to the records that
    /// `selector` picks, or inserts a record where it picks none.
    pub fn upsert<M>(
        &self,
        methods: &mut Methods<M>,
        outgoing: &mut OutboundQueue,
        selector: &Json,
        modifier: &Json,
        callback: M,
    ) -> (id: String)
        requires
            self.wf(),
            old(methods).wf(),
        ensures
            final(methods).wf(),
            is_id(id@),
            final(methods)@ == old(methods)@.insert(id@, callback),
            final(outgoing)@ == old(outgoing)@.push(
                method_text(
                    id@,
                    op_name(self@.name, "/upsert"@),
                    Some(seq![*selector, *modifier]),
                ),
            ),
    {
        let params: Vec<&Json> = vec![selector, modifier];
        proof {
            assert(payloads(params@) =~= seq![*selector, *modifier]);
        }
        methods.send(outgoing, self.ops.upsert.as_str(), Some(&params), callback)
    }

    /// Calls the server method that removes the records that `selector`
    /// picks.
    pub fn remove<M>(
        &self,
        methods: &mut Methods<M>,
        outgoing: &mut OutboundQueue,
        selector: &Json,
        callback: M,
    ) -> (id: String)
        requires
            self.wf(),
            old(methods).wf(),
        ensures
            final(methods).wf(),
            is_id(id@),
            final(methods)@ == old(methods)@.insert(id@, callback),
            final(outgoing)@ == old(outgoing)@.push(
                method_text(id@, op_name(self@.name, "/remove"@), Some(seq![*selector])),
            ),
    {
        let params: Vec<&Json> = vec![selector];
        proof {
            assert(payloads(params@) =~= seq![*selector]);
        }
        methods.send(outgoing, self.ops.remove.as_str(), Some(&params), callback)
    }

    /// Subscribes to the publication of the collection's name. A collection
    /// without a subscription id is given a fresh one, under which no
    /// handler waits yet; the `sub` frame carries the collection's id.
    pub fn subscribe<S>(&mut self, subs: &mut Subscriptions<S>, outgoing: &mut OutboundQueue)
        requires
            old(self).wf(),
            old(subs).wf(),
        ensures
            final(self).wf(),
            final(subs).wf(),
            final(self)@.sub_id is Some,
            final(self)@ == old(self)@.with_sub(final(self)@.sub_id),
            old(self)@.sub_id is Some ==> final(self)@ == old(self)@ && final(subs)@ == old(subs)@,
            old(self)@.sub_id is None ==> is_id(final(self)@.sub_id->0) && final(subs)@ == old(
                subs,
            )@.insert(final(self)@.sub_id->0, Seq::empty()),
            final(outgoing)@ == old(outgoing)@.push(
                subscribe_text(final(self)@.sub_id->0, old(self)@.name, None),
            ),
    {
        subs.sub(outgoing, self.name.as_str(), &mut self.id);
    }

    /// Ends the collection's subscription: the `unsub` frame with its id
    /// joins the queue, and the collection forgets the id. A collection
    /// without a subscription is left as it is, and nothing is sent.
    pub fn unsubscribe<S>(&mut self, subs: &Subscriptions<S>, outgoing: &mut OutboundQueue)
        requires
            old(self).wf(),
        ensures
            final(self).wf(),
            final(self)@ == old(self)@.with_sub(None),
            final(outgoing)@ == match old(self)@.sub_id {
                Some(id) => old(outgoing)@.push(unsubscribe_text(id)),
                None => old(outgoing)@,
            },
    {
        match &self.id {
            Some(id) => {
                subs.unsub(outgoing, id.as_str());
            },
            None => {},
        }
        self.id = None;
    }

    /// The collection's name on the server.
    pub fn name(&self) -> (name: &str)
        ensures
            name@ == self@.name,
    {
        self.name.as_str()
    }

    /// The id of the collection's subscription.
    pub fn sub_id(&self) -> (id: Option<&str>)
        ensures
            id is Some == self@.sub_id is Some,
            id is Some ==> id->0@ == self@.sub_id->0,
    {
        match &self.id {
            Some(id) => Some(id.as_str()),
            None => None,
        }
    }
}

} // verus!
