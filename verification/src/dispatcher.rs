//! The engine's state and the routing of the frames that arrive.

use vstd::prelude::*;
use crate::action::{Action, Deed};
use crate::collection::{op_name, Collection, CollectionView, Listener, ListenerId};
use crate::json::Json;
use crate::listeners::keys_of;
use crate::messages::{method_text, params_view, pong_text, subscribe_text, unsubscribe_text, Pong};
use crate::methods::Methods;
use crate::queue::OutboundQueue;
use crate::random::{is_id, Random};
use crate::subscriptions::{after_ready, fired, listening, ready_handlers, texts, Subscriptions};
use crate::subscriptions::lemma_single_notice;
use crate::text::same_text;

verus! {

/// The strings among `items`, in the items' order; what is not a string is
/// passed over.
pub open spec fn strings_among(items: Seq<Json>) -> Seq<Seq<char>>
    decreases items.len(),
{
    if items.len() == 0 {
        Seq::empty()
    } else {
        match items.last().string() {
            Some(s) => strings_among(items.drop_last()).push(s),
            None => strings_among(items.drop_last()),
        }
    }
}

/// The place of the collection `name` in the registry.
pub open spec fn index_of_name<A, C, R>(mongos: Seq<CollectionView<A, C, R>>, name: Seq<char>)
    -> Option<int>
    decreases mongos.len(),
{
    if mongos.len() == 0 {
        None
    } else if mongos.last().name == name {
        Some(mongos.len() - 1)
    } else {
        index_of_name(mongos.drop_last(), name)
    }
}

/// What a `result` frame says of its call: an error where the frame has
/// one, else the result where it has one.
pub open spec fn result_outcome(message: Json) -> Option<Result<Json, Json>> {
    match (message.member("error"@), message.member("result"@)) {
        (Some(error), _) => Some(Err(error)),
        (None, Some(result)) => Some(Ok(result)),
        (None, None) => None,
    }
}

/// The ids that a `ready` frame lists, `None` where it has no list.
pub open spec fn ready_ids(message: Json) -> Option<Seq<Seq<char>>> {
    match message.member("subs"@) {
        Some(subs) => match subs.items() {
            Some(items) => Some(strings_among(items)),
            None => None,
        },
        None => None,
    }
}

/// What the engine holds.
pub struct CoreView<M, S, A, C, R> {
    /// The waiting handler of each pending call, by the call's id.
    pub methods: Map<Seq<char>, M>,
    /// The waiting handlers of each subscription, by the subscription's id.
    pub subs: Map<Seq<char>, Seq<S>>,
    /// The collections, in the order in which they were first asked for.
    pub mongos: Seq<CollectionView<A, C, R>>,
    /// The frames that wait to be written, oldest first.
    pub transfer: Seq<Seq<char>>,
}

impl<M, S, A, C, R> CoreView<M, S, A, C, R> {
    /// Every collection is in order, and no two have the same name.
    pub open spec fn wf(self) -> bool {
        &&& forall|i: int| 0 <= i < self.mongos.len() ==> (#[trigger] self.mongos[i]).wf()
        &&& forall|i: int, j: int|
            0 <= i < j < self.mongos.len() ==> (#[trigger] self.mongos[i]).name != (
            #[trigger] self.mongos[j]).name
    }

    /// A `ping` is answered with a `pong` that carries the ping's id, where
    /// it has one that is a string.
    pub open spec fn on_ping(self, message: Json) -> Self {
        CoreView { transfer: self.transfer.push(pong_text(message.string_at("id"@))), ..self }
    }

    /// A `result` completes the call of its id, where that call waits and
    /// the frame has an outcome.
    pub open spec fn on_result(self, message: Json) -> (Self, Deed<M, S>) {
        match (message.string_at("id"@), result_outcome(message)) {
            (Some(id), Some(outcome)) => match self.methods.get(id) {
                Some(handler) => (
                    CoreView { methods: self.methods.remove(id), ..self },
                    Deed::Complete { handler: handler, outcome: outcome },
                ),
                None => (self, Deed::Idle),
            },
            _ => (self, Deed::Idle),
        }
    }

    /// An `added` goes to the `added` listeners of its collection, where the
    /// collection is known and the frame names a document.
    pub open spec fn on_added(self, message: Json) -> Deed<M, S> {
        match (self.collection_of(message), message.string_at("id"@)) {
            (Some(at), Some(id)) => Deed::Added {
                collection: at,
                listeners: keys_of(self.mongos[at].added),
                id: id,
                fields: message.member("fields"@),
            },
            _ => Deed::Idle,
        }
    }

    /// A `changed` goes to the `changed` listeners of its collection.
    pub open spec fn on_changed(self, message: Json) -> Deed<M, S> {
        match (self.collection_of(message), message.string_at("id"@)) {
            (Some(at), Some(id)) => Deed::Changed {
                collection: at,
                listeners: keys_of(self.mongos[at].changed),
                id: id,
                fields: message.member("fields"@),
                cleared: message.member("cleared"@),
            },
            _ => Deed::Idle,
        }
    }

    /// A `removed` goes to the `removed` listeners of its collection.
    pub open spec fn on_removed(self, message: Json) -> Deed<M, S> {
        match (self.collection_of(message), message.string_at("id"@)) {
            (Some(at), Some(id)) => Deed::Removed {
                collection: at,
                listeners: keys_of(self.mongos[at].removed),
                id: id,
            },
            _ => Deed::Idle,
        }
    }

    /// A `ready` fires and forgets the handlers of each subscription it
    /// lists.
    pub open spec fn on_ready(self, message: Json) -> (Self, Deed<M, S>) {
        match ready_ids(message) {
            Some(ids) => (
                CoreView { subs: after_ready(self.subs, ids), ..self },
                Deed::Ready { handlers: ready_handlers(self.subs, ids), answer: Ok(()) },
            ),
            None => (self, Deed::Idle),
        }
    }

    /// A `nosub` fires and forgets the handlers of its subscription, with
    /// the frame's error.
    pub open spec fn on_nosub(self, message: Json) -> (Self, Deed<M, S>) {
        match (message.member("error"@), message.string_at("id"@)) {
            (Some(error), Some(id)) => (
                CoreView { subs: self.subs.remove(id), ..self },
                Deed::Ready { handlers: fired(self.subs, id), answer: Err(error) },
            ),
            _ => (self, Deed::Idle),
        }
    }

    /// The place of the collection that a frame names.
    pub open spec fn collection_of(self, message: Json) -> Option<int> {
        match message.string_at("collection"@) {
            Some(name) => index_of_name(self.mongos, name),
            None => None,
        }
    }

    /// What a frame does to the engine and asks of the caller. A frame
    /// without a `msg` that is a string, or with one that the engine does
    /// not know, does nothing.
    pub open spec fn step(self, message: Json) -> (Self, Deed<M, S>) {
        match message.string_at("msg"@) {
            Some(msg) => {
                if msg == "ping"@ {
                    (self.on_ping(message), Deed::Idle)
                } else if msg == "result"@ {
                    self.on_result(message)
                } else if msg == "added"@ {
                    (self, self.on_added(message))
                } else if msg == "changed"@ {
                    (self, self.on_changed(message))
                } else if msg == "removed"@ {
                    (self, self.on_removed(message))
                } else if msg == "ready"@ {
                    self.on_ready(message)
                } else if msg == "nosub"@ {
                    self.on_nosub(message)
                } else {
                    (self, Deed::Idle)
                }
            },
            None => (self, Deed::Idle),
        }
    }

    /// The engine after the call `id` to `method` has been sent with
    /// `callback` waiting for its result.
    pub open spec fn called(
        self,
        id: Seq<char>,
        method: Seq<char>,
        params: Option<Seq<Json>>,
        callback: M,
    ) -> Self {
        CoreView {
            methods: self.methods.insert(id, callback),
            transfer: self.transfer.push(method_text(id, method, params)),
            ..self
        }
    }

    /// The engine with `collection` in the place `at` of the registry.
    pub open spec fn with_mongo(self, at: int, collection: CollectionView<A, C, R>) -> Self {
        CoreView { mongos: self.mongos.update(at, collection), ..self }
    }

    /// The engine after `f` has begun to wait for the subscription of the
    /// collection at `at`. `fresh` is the id that a collection without one
    /// is given.
    pub open spec fn awaiting(self, at: int, f: S, fresh: Seq<char>) -> Self {
        match self.mongos[at].sub_id {
            Some(id) => CoreView { subs: listening(self.subs, id, f), ..self },
            None => CoreView {
                subs: self.subs.insert(fresh, seq![f]),
                mongos: self.mongos.update(at, self.mongos[at].with_sub(Some(fresh))),
                ..self
            },
        }
    }

    /// The engine after the collection at `at` has subscribed. `fresh` is
    /// the id that a collection without one is given.
    pub open spec fn subscribed(self, at: int, fresh: Seq<char>) -> Self {
        match self.mongos[at].sub_id {
            Some(id) => CoreView {
                transfer: self.transfer.push(subscribe_text(id, self.mongos[at].name, None)),
                ..self
            },
            None => CoreView {
                subs: self.subs.insert(fresh, Seq::empty()),
                mongos: self.mongos.update(at, self.mongos[at].with_sub(Some(fresh))),
                transfer: self.transfer.push(subscribe_text(fresh, self.mongos[at].name, None)),
                ..self
            },
        }
    }

    /// The engine after the collection at `at` has ended its subscription.
    pub open spec fn unsubscribed(self, at: int) -> Self {
        CoreView {
            mongos: self.mongos.update(at, self.mongos[at].with_sub(None)),
            transfer: match self.mongos[at].sub_id {
                Some(id) => self.transfer.push(unsubscribe_text(id)),
                None => self.transfer,
            },
            ..self
        }
    }

    /// The registry after the collection `name` has been asked for, and the
    /// collection's place in it: a known name keeps its place, a new one
    /// joins at the end.
    pub open spec fn with_collection(self, name: Seq<char>) -> (Self, int) {
        match index_of_name(self.mongos, name) {
            Some(at) => (self, at),
            None => (
                CoreView { mongos: self.mongos.push(CollectionView::fresh(name)), ..self },
                self.mongos.len() as int,
            ),
        }
    }
}

/// A name that no collection has is not found.
pub proof fn lemma_name_absent<A, C, R>(mongos: Seq<CollectionView<A, C, R>>, name: Seq<char>)
    requires
        forall|i: int| 0 <= i < mongos.len() ==> (#[trigger] mongos[i]).name != name,
    ensures
        index_of_name(mongos, name) is None,
    decreases mongos.len(),
{
    if mongos.len() > 0 {
        let front = mongos.drop_last();
        assert forall|i: int| 0 <= i < front.len() implies (#[trigger] front[i]).name != name by {
            assert(front[i] == mongos[i]);
        }
        lemma_name_absent(front, name);
        assert(mongos.last() == mongos[mongos.len() - 1]);
    }
}

/// A name is found at a place where a collection has it, and later
/// collections do not matter where none of them has the name.
pub proof fn lemma_name_found<A, C, R>(
    mongos: Seq<CollectionView<A, C, R>>,
    name: Seq<char>,
    at: int,
)
    requires
        0 <= at < mongos.len(),
        mongos[at].name == name,
        forall|i: int| at < i < mongos.len() ==> (#[trigger] mongos[i]).name != name,
    ensures
        index_of_name(mongos, name) == Some(at),
    decreases mongos.len(),
{
    assert(mongos.last() == mongos[mongos.len() - 1]);
    if at < mongos.len() - 1 {
        let front = mongos.drop_last();
        assert(front[at] == mongos[at]);
        assert forall|i: int| at < i < front.len() implies (#[trigger] front[i]).name != name by {
            assert(front[i] == mongos[i]);
        }
        lemma_name_found(front, name, at);
    }
}

/// What is found under a name has that name.
pub proof fn lemma_index_of_name<A, C, R>(mongos: Seq<CollectionView<A, C, R>>, name: Seq<char>)
    ensures
        match index_of_name(mongos, name) {
            Some(at) => 0 <= at < mongos.len() && mongos[at].name == name,
            None => forall|i: int| 0 <= i < mongos.len() ==> (#[trigger] mongos[i]).name != name,
        },
    decreases mongos.len(),
{
    if mongos.len() > 0 {
        let front = mongos.drop_last();
        lemma_index_of_name(front, name);
        assert(mongos.last() == mongos[mongos.len() - 1]);
        if mongos.last().name != name {
            match index_of_name(front, name) {
                Some(at) => {
                    assert(front[at] == mongos[at]);
                },
                None => {
                    assert forall|i: int| 0 <= i < mongos.len() implies (#[trigger] mongos[i]).name
                        != name by {
                        if i < front.len() {
                            assert(front[i] == mongos[i]);
                        }
                    }
                },
            }
        }
    }
}

/// The engine: the pending calls, the subscriptions, the collections and
/// the queue of frames to write.
pub struct Core<M, S, A, C, R> {
    methods: Methods<M>,
    mongos: Vec<Collection<A, C, R>>,
    subs: Subscriptions<S>,
    transfer: OutboundQueue,
}

impl<M, S, A, C, R> View for Core<M, S, A, C, R> {
    type V = CoreView<M, S, A, C, R>;

    closed spec fn view(&self) -> CoreView<M, S, A, C, R> {
        CoreView {
            methods: self.methods@,
            subs: self.subs@,
            mongos: self.mongos@.map_values(|c: Collection<A, C, R>| c@),
            transfer: self.transfer@,
        }
    }
}

impl<M, S, A, C, R> Core<M, S, A, C, R> {
    /// The tables are in order.
    pub closed spec fn wf(&self) -> bool {
        &&& self.methods.wf()
        &&& self.subs.wf()
        &&& self@.wf()
        &&& forall|i: int| 0 <= i < self.mongos@.len() ==> (#[trigger] self.mongos@[i]).wf()
    }

    /// An engine in order has a view in order.
    pub proof fn lemma_wf(&self)
        requires
            self.wf(),
        ensures
            self@.wf(),
    {
    }

    /// An engine that has neither sent nor received anything. The two
    /// generators draw the ids of calls and of subscriptions.
    pub fn new(call_ids: Random, sub_ids: Random) -> (core: Self)
        ensures
            core.wf(),
            core@ == (CoreView::<M, S, A, C, R> {
                methods: Map::empty(),
                subs: Map::empty(),
                mongos: Seq::empty(),
                transfer: Seq::empty(),
            }),
    {
        let core = Core {
            methods: Methods::new(call_ids),
            mongos: Vec::new(),
            subs: Subscriptions::new(sub_ids),
            transfer: OutboundQueue::new(),
        };
        assert(core@.mongos =~= Seq::empty());
        core
    }

    /// An engine with generators on the operating system's random source;
    /// `None` when the source is not available.
    pub fn open() -> (core: Option<Self>)
        ensures
            core is Some ==> core->0.wf() && core->0@ == (CoreView::<M, S, A, C, R> {
                methods: Map::empty(),
                subs: Map::empty(),
                mongos: Seq::empty(),
                transfer: Seq::empty(),
            }),
    {
        Core::from_sources(Random::new(), Random::new())
    }

    /// An engine on the two generators, which draw the ids of calls and of
    /// subscriptions; `None` where either is missing.
    pub fn from_sources(call_ids: Option<Random>, sub_ids: Option<Random>) -> (core: Option<Self>)
        ensures
            core is Some <==> call_ids is Some && sub_ids is Some,
            core is Some ==> core->0.wf() && core->0@ == (CoreView::<M, S, A, C, R> {
                methods: Map::empty(),
                subs: Map::empty(),
                mongos: Seq::empty(),
                transfer: Seq::empty(),
            }),
    {
        match (call_ids, sub_ids) {
            (Some(call_ids), Some(sub_ids)) => Some(Core::new(call_ids, sub_ids)),
            _ => None,
        }
    }

    /// Answers a `ping`.
    pub fn handle_ping(&mut self, message: &Json)
        requires
            old(self).wf(),
        ensures
            final(self).wf(),
            final(self)@ == old(self)@.on_ping(*message),
    {
        self.transfer.send(Pong::text(message.str_at("id")));
    }

    /// Routes a `result` to the call it answers.
    pub fn handle_result<'a>(&mut self, message: &'a Json) -> (action: Action<'a, M, S>)
        requires
            old(self).wf(),
        ensures
            final(self).wf(),
            (final(self)@, action@) == old(self)@.on_result(*message),
    {
        match message.str_at("id") {
            Some(id) => {
                let result = match (message.get("error"), message.get("result")) {
                    (Some(e), _) => Err(e),
                    (None, Some(r)) => Ok(r),
                    (None, None) => {
                        return Action::Idle;
                    },
                };
                match self.methods.apply(id) {
                    Some(handler) => Action::Complete { handler: handler, outcome: result },
                    None => {
                        assert(self.methods@ =~= old(self).methods@);
                        Action::Idle
                    },
                }
            },
            None => Action::Idle,
        }
    }

    /// Routes an `added` to its collection.
    pub fn handle_added<'a>(&self, message: &'a Json) -> (action: Action<'a, M, S>)
        requires
            self.wf(),
        ensures
            action@ == self@.on_added(*message),
    {
        let collection = self.collection(message);
        let id = message.str_at("id");
        match (id, collection) {
            (Some(id), Some(at)) => {
                let fields = message.get("fields");
                let listeners = self.mongos[at].notify_insert();
                Action::Added { collection: at, listeners: listeners, id: id, fields: fields }
            },
            _ => Action::Idle,
        }
    }

    /// Routes a `changed` to its collection.
    pub fn handle_changed<'a>(&self, message: &'a Json) -> (action: Action<'a, M, S>)
        requires
            self.wf(),
        ensures
            action@ == self@.on_changed(*message),
    {
        let collection = self.collection(message);
        let id = message.str_at("id");
        match (id, collection) {
            (Some(id), Some(at)) => {
                let fields = message.get("fields");
                let cleared = message.get("cleared");
                let listeners = self.mongos[at].notify_change();
                Action::Changed {
                    collection: at,
                    listeners: listeners,
                    id: id,
                    fields: fields,
                    cleared: cleared,
                }
            },
            _ => Action::Idle,
        }
    }

    /// Routes a `removed` to its collection.
    pub fn handle_removed<'a>(&self, message: &'a Json) -> (action: Action<'a, M, S>)
        requires
            self.wf(),
        ensures
            action@ == self@.on_removed(*message),
    {
        let collection = self.collection(message);
        let id = message.str_at("id");
        match (id, collection) {
            (Some(id), Some(at)) => {
                let listeners = self.mongos[at].notify_remove();
                Action::Removed { collection: at, listeners: listeners, id: id }
            },
            _ => Action::Idle,
        }
    }

    /// Routes a `ready` to the subscriptions it lists.
    pub fn handle_ready<'a>(&mut self, message: &'a Json) -> (action: Action<'a, M, S>)
        requires
            old(self).wf(),
        ensures
            final(self).wf(),
            (final(self)@, action@) == old(self)@.on_ready(*message),
    {
        let listed = match message.get("subs") {
            Some(subs) => subs.as_array(),
            None => None,
        };
        match listed {
            Some(items) => {
                let mut ids: Vec<&str> = Vec::new();
                let mut i: usize = 0;
                while i < items.len()
                    invariant
                        i <= items.len(),
                        texts(ids@) == strings_among(items@.take(i as int)),
                    decreases items.len() - i,
                {
                    proof {
                        let upto = items@.take(i + 1);
                        assert(upto.drop_last() =~= items@.take(i as int));
                        assert(upto.last() == items@[i as int]);
                    }
                    let ghost before = ids@;
                    match items[i].as_str() {
                        Some(id) => {
                            ids.push(id);
                            assert(texts(ids@) =~= texts(before).push(id@));
                        },
                        None => {},
                    }
                    i = i + 1;
                }
                proof {
                    assert(items@.take(i as int) =~= items@);
                }
                let handlers = self.subs.notify(Ok(ids));
                Action::Ready { handlers: handlers, answer: Ok(()) }
            },
            None => Action::Idle,
        }
    }

    /// Routes a `nosub` to the subscription that failed.
    pub fn handle_nosub<'a>(&mut self, message: &'a Json) -> (action: Action<'a, M, S>)
        requires
            old(self).wf(),
        ensures
            final(self).wf(),
            (final(self)@, action@) == old(self)@.on_nosub(*message),
    {
        let id = message.str_at("id");
        let error = message.get("error");
        match (error, id) {
            (Some(error), Some(id)) => {
                proof {
                    lemma_single_notice(self.subs@, id@);
                }
                let handlers = self.subs.notify(Err((id, error)));
                Action::Ready { handlers: handlers, answer: Err(error) }
            },
            _ => Action::Idle,
        }
    }

    /// The place of the collection that a frame names.
    pub fn collection(&self, message: &Json) -> (at: Option<usize>)
        requires
            self.wf(),
        ensures
            at is Some == self@.collection_of(*message) is Some,
            at is Some ==> at->0 == self@.collection_of(*message)->0 && at->0 < self@.mongos.len(),
    {
        match message.str_at("collection") {
            Some(name) => self.find(name),
            None => None,
        }
    }

    /// The place of the collection `name`.
    pub fn find(&self, name: &str) -> (at: Option<usize>)
        requires
            self.wf(),
        ensures
            at is Some == index_of_name(self@.mongos, name@) is Some,
            at is Some ==> at->0 == index_of_name(self@.mongos, name@)->0 && at->0
                < self@.mongos.len(),
    {
        let mut i: usize = 0;
        while i < self.mongos.len()
            invariant
                i <= self.mongos@.len(),
                self.wf(),
                forall|k: int| 0 <= k < i ==> (#[trigger] self@.mongos[k]).name != name@,
            decreases self.mongos@.len() - i,
        {
            if same_text(self.mongos[i].name(), name) {
                proof {
                    assert(self@.mongos[i as int].name == name@);
                    assert forall|k: int| i < k < self@.mongos.len() implies (
                    #[trigger] self@.mongos[k]).name != name@ by {
                        assert(self@.mongos[i as int].name != self@.mongos[k].name);
                    }
                    lemma_name_found(self@.mongos, name@, i as int);
                }
                return Some(i);
            }
            i = i + 1;
        }
        proof {
            lemma_name_absent(self@.mongos, name@);
        }
        None
    }

    /// Calls the server method `method`: `callback` waits under the call's
    /// fresh id, and the call's frame joins the queue.
    pub fn call(&mut self, method: &str, params: Option<&Vec<&Json>>, callback: M) -> (id: String)
        requires
            old(self).wf(),
        ensures
            final(self).wf(),
            is_id(id@),
            final(self)@ == old(self)@.called(id@, method@, params_view(params), callback),
    {
        self.methods.send(&mut self.transfer, method, params, callback)
    }

    /// The place of the collection `collection` in the registry. A name
    /// that is asked for the first time gets a collection of its own; the
    /// same name gives the same place ever after.
    pub fn mongo(&mut self, collection: String) -> (at: usize)
        requires
            old(self).wf(),
        ensures
            final(self).wf(),
            (final(self)@, at as int) == old(self)@.with_collection(collection@),
            at < final(self)@.mongos.len(),
            final(self)@.mongos[at as int].name == collection@,
    {
        proof {
            lemma_index_of_name(self@.mongos, collection@);
        }
        match self.find(collection.as_str()) {
            Some(at) => at,
            None => {
                let at: usize = self.mongos.len();
                let ghost name = collection@;
                let fresh = Collection::new(collection);
                proof {
                    fresh.lemma_wf();
                }
                self.mongos.push(fresh);
                proof {
                    assert(self@.mongos =~= old(self)@.mongos.push(CollectionView::fresh(name)));
                    assert forall|i: int, j: int| 0 <= i < j < self@.mongos.len() implies (
                    #[trigger] self@.mongos[i]).name != (#[trigger] self@.mongos[j]).name by {
                        assert(self@.mongos[i] == old(self)@.mongos[i]);
                        if j < old(self)@.mongos.len() {
                            assert(self@.mongos[j] == old(self)@.mongos[j]);
                        }
                    }
                    assert forall|i: int| 0 <= i < self@.mongos.len() implies (
                    #[trigger] self@.mongos[i]).wf() by {
                        if i < old(self)@.mongos.len() {
                            assert(self@.mongos[i] == old(self)@.mongos[i]);
                        }
                    }
                }
                at
            },
        }
    }

    /// How many collections the registry holds.
    pub fn collections(&self) -> (n: usize)
        ensures
            n == self@.mongos.len(),
    {
        self.mongos.len()
    }

    /// The collection at `at`.
    pub fn collection_at<'a>(&'a self, at: usize) -> (collection: &'a Collection<A, C, R>)
        requires
            self.wf(),
            at < self@.mongos.len(),
        ensures
            collection.wf(),
            collection@ == self@.mongos[at as int],
    {
        &self.mongos[at]
    }

    /// After a change to one collection that keeps its name, the engine is
    /// in order and its registry differs from what it was in that
    /// collection only.
    proof fn lemma_changed_at(&self, before: &Self, at: int)
        requires
            before.wf(),
            0 <= at < before.mongos@.len(),
            self.methods.wf(),
            self.subs.wf(),
            self.mongos@ == before.mongos@.update(at, self.mongos@[at]),
            self.mongos@[at].wf(),
            self.mongos@[at]@.name == before.mongos@[at]@.name,
        ensures
            self.wf(),
            self@.mongos == before@.mongos.update(at, self.mongos@[at]@),
    {
        self.mongos@[at].lemma_wf();
        assert(self@.mongos =~= before@.mongos.update(at, self.mongos@[at]@));
        assert forall|i: int| 0 <= i < self@.mongos.len() implies (#[trigger] self@.mongos[i]).wf() by {
            if i != at {
                assert(self@.mongos[i] == before@.mongos[i]);
            }
        }
        assert forall|i: int, j: int| 0 <= i < j < self@.mongos.len() implies (
        #[trigger] self@.mongos[i]).name != (#[trigger] self@.mongos[j]).name by {
            assert(self@.mongos[i].name == before@.mongos[i].name);
            assert(self@.mongos[j].name == before@.mongos[j].name);
        }
    }

    /// Registers `f` for the `added` events of the collection at `at`.
    pub fn on_add(&mut self, at: usize, f: A) -> (id: ListenerId)
        requires
            old(self).wf(),
            at < old(self)@.mongos.len(),
            old(self)@.mongos[at as int].has_room(),
        ensures
            final(self).wf(),
            id == ListenerId(Listener::Inserted, old(self)@.mongos[at as int].next_key()),
            final(self)@ == old(self)@.with_mongo(at as int, old(self)@.mongos[at as int].adding(f)),
    {
        let id = self.mongos[at].on_add(f);
        proof {
            self.lemma_changed_at(old(self), at as int);
        }
        id
    }

    /// Registers `f` for the `changed` events of the collection at `at`.
    pub fn on_change(&mut self, at: usize, f: C) -> (id: ListenerId)
        requires
            old(self).wf(),
            at < old(self)@.mongos.len(),
            old(self)@.mongos[at as int].has_room(),
        ensures
            final(self).wf(),
            id == ListenerId(Listener::Changed, old(self)@.mongos[at as int].next_key()),
            final(self)@ == old(self)@.with_mongo(
                at as int,
                old(self)@.mongos[at as int].changing(f),
            ),
    {
        let id = self.mongos[at].on_change(f);
        proof {
            self.lemma_changed_at(old(self), at as int);
        }
        id
    }

    /// Registers `f` for the `removed` events of the collection at `at`.
    pub fn on_remove(&mut self, at: usize, f: R) -> (id: ListenerId)
        requires
            old(self).wf(),
            at < old(self)@.mongos.len(),
            old(self)@.mongos[at as int].has_room(),
        ensures
            final(self).wf(),
            id == ListenerId(Listener::Removed, old(self)@.mongos[at as int].next_key()),
            final(self)@ == old(self)@.with_mongo(
                at as int,
                old(self)@.mongos[at as int].removing(f),
            ),
    {
        let id = self.mongos[at].on_remove(f);
        proof {
            self.lemma_changed_at(old(self), at as int);
        }
        id
    }

    /// Deregisters the listener `id` of the collection at `at`.
    pub fn clear_listener(&mut self, at: usize, id: ListenerId)
        requires
            old(self).wf(),
            at < old(self)@.mongos.len(),
        ensures
            final(self).wf(),
            final(self)@ == old(self)@.with_mongo(
                at as int,
                old(self)@.mongos[at as int].cleared(id),
            ),
    {
        self.mongos[at].clear_listener(id);
        proof {
            self.lemma_changed_at(old(self), at as int);
        }
    }

    /// Lets `f` wait to hear whether the subscription of the collection at
    /// `at` is ready. A collection without a subscription id is given a
    /// fresh one.
    pub fn on_ready(&mut self, at: usize, f: S)
        requires
            old(self).wf(),
            at < old(self)@.mongos.len(),
        ensures
            final(self).wf(),
            final(self)@.mongos.len() == old(self)@.mongos.len(),
            final(self)@.mongos[at as int].sub_id is Some,
            old(self)@.mongos[at as int].sub_id is None ==> is_id(
                final(self)@.mongos[at as int].sub_id->0,
            ),
            final(self)@ == old(self)@.awaiting(
                at as int,
                f,
                final(self)@.mongos[at as int].sub_id->0,
            ),
    {
        self.mongos[at].on_ready(&mut self.subs, f);
        proof {
            self.lemma_changed_at(old(self), at as int);
            if old(self)@.mongos[at as int].sub_id is Some {
                assert(self@.mongos =~= old(self)@.mongos);
            }
        }
    }

    /// Subscribes the collection at `at` to the publication of its name. A
    /// collection without a subscription id is given a fresh one.
    pub fn subscribe(&mut self, at: usize)
        requires
            old(self).wf(),
            at < old(self)@.mongos.len(),
        ensures
            final(self).wf(),
            final(self)@.mongos.len() == old(self)@.mongos.len(),
            final(self)@.mongos[at as int].sub_id is Some,
            old(self)@.mongos[at as int].sub_id is None ==> is_id(
                final(self)@.mongos[at as int].sub_id->0,
            ),
            final(self)@ == old(self)@.subscribed(
                at as int,
                final(self)@.mongos[at as int].sub_id->0,
            ),
    {
        self.mongos[at].subscribe(&mut self.subs, &mut self.transfer);
        proof {
            self.lemma_changed_at(old(self), at as int);
            if old(self)@.mongos[at as int].sub_id is Some {
                assert(self@.mongos =~= old(self)@.mongos);
            }
        }
    }

    /// Ends the subscription of the collection at `at`. Where it has none,
    /// nothing is sent.
    pub fn unsubscribe(&mut self, at: usize)
        requires
            old(self).wf(),
            at < old(self)@.mongos.len(),
        ensures
            final(self).wf(),
            final(self)@ == old(self)@.unsubscribed(at as int),
    {
        self.mongos[at].unsubscribe(&self.subs, &mut self.transfer);
        proof {
            self.lemma_changed_at(old(self), at as int);
        }
    }

    /// Calls the server method that inserts `record` into the collection at
    /// `at`.
    pub fn insert(&mut self, at: usize, record: &Json, callback: M) -> (id: String)
        requires
            old(self).wf(),
            at < old(self)@.mongos.len(),
        ensures
            final(self).wf(),
            is_id(id@),
            final(self)@ == old(self)@.called(
                id@,
                op_name(old(self)@.mongos[at as int].name, "/insert"@),
                Some(seq![*record]),
                callback,
            ),
    {
        self.mongos[at].insert(&mut self.methods, &mut self.transfer, record, callback)
    }

    /// Calls the server method that applies `modifier` to the records of
    /// the collection at `at` that `selector` picks.
    pub fn update(&mut self, at: usize, selector: &Json, modifier: &Json, callback: M) -> (id:
        String)
        requires
            old(self).wf(),
            at < old(self)@.mongos.len(),
        ensures
            final(self).wf(),
            is_id(id@),
            final(self)@ == old(self)@.called(
                id@,
                op_name(old(self)@.mongos[at as int].name, "/update"@),
                Some(seq![*selector, *modifier]),
                callback,
            ),
    {
        self.mongos[at].update(&mut self.methods, &mut self.transfer, selector, modifier, callback)
    }

    /// Calls the server method that applies `modifier` to the records of
    /// the collection at `at` that `selector` picks, or inserts one.
    pub fn upsert(&mut self, at: usize, selector: &Json, modifier: &Json, callback: M) -> (id:
        String)
        requires
            old(self).wf(),
            at < old(self)@.mongos.len(),
        ensures
            final(self).wf(),
            is_id(id@),
            final(self)@ == old(self)@.called(
                id@,
                op_name(old(self)@.mongos[at as int].name, "/upsert"@),
                Some(seq![*selector, *modifier]),
                callback,
            ),
    {
        self.mongos[at].upsert(&mut self.methods, &mut self.transfer, selector, modifier, callback)
    }

    /// Calls the server method that removes the records of the collection
    /// at `at` that `selector` picks.
    pub fn remove(&mut self, at: usize, selector: &Json, callback: M) -> (id: String)
        requires
            old(self).wf(),
            at < old(self)@.mongos.len(),
        ensures
            final(self).wf(),
            is_id(id@),
            final(self)@ == old(self)@.called(
                id@,
                op_name(old(self)@.mongos[at as int].name, "/remove"@),
                Some(seq![*selector]),
                callback,
            ),
    {
        self.mongos[at].remove(&mut self.methods, &mut self.transfer, selector, callback)
    }

    /// Takes the oldest frame that waits to be written.
    pub fn next_frame(&mut self) -> (frame: Option<String>)
        requires
            old(self).wf(),
        ensures
            final(self).wf(),
            old(self)@.transfer.len() == 0 ==> frame is None && final(self)@ == old(self)@,
            old(self)@.transfer.len() > 0 ==> frame is Some && frame->0@ == old(self)@.transfer[0]
                && final(self)@ == (CoreView {
                transfer: old(self)@.transfer.skip(1),
                ..old(self)@
            }),
    {
        self.transfer.recv()
    }

    /// Routes a frame by its `msg`.
    pub fn dispatch<'a>(&mut self, data: &'a Json) -> (action: Action<'a, M, S>)
        requires
            old(self).wf(),
        ensures
            final(self).wf(),
            (final(self)@, action@) == old(self)@.step(*data),
    {
        match data.str_at("msg") {
            Some(msg) => {
                if same_text(msg, "ping") {
                    self.handle_ping(data);
                    Action::Idle
                } else if same_text(msg, "result") {
                    self.handle_result(data)
                } else if same_text(msg, "added") {
                    self.handle_added(data)
                } else if same_text(msg, "changed") {
                    self.handle_changed(data)
                } else if same_text(msg, "removed") {
                    self.handle_removed(data)
                } else if same_text(msg, "ready") {
                    self.handle_ready(data)
                } else if same_text(msg, "nosub") {
                    self.handle_nosub(data)
                } else {
                    Action::Idle
                }
            },
            None => Action::Idle,
        }
    }
}

} // verus!
