//! The method calls that wait for their result.

use vstd::prelude::*;
use crate::json::Json;
use crate::messages::{method_text, params_view, Method};
use crate::queue::OutboundQueue;
use crate::random::{is_id, Random};
use crate::table::Table;

verus! {

/// The calls that have been sent and not yet answered, each with the
/// completion handler that waits for the answer. A handler leaves the table
/// when its call is answered, so it can be fired at most once.
pub struct Methods<H> {
    rng: Random,
    pending_methods: Table<H>,
}

impl<H> View for Methods<H> {
    type V = Map<Seq<char>, H>;

    /// The waiting handler of each call, by the call's id.
    closed spec fn view(&self) -> Map<Seq<char>, H> {
        self.pending_methods@
    }
}

impl<H> Methods<H> {
    /// The table of calls holds no id twice.
    pub closed spec fn wf(&self) -> bool {
        self.pending_methods.wf()
    }

    /// No call waits yet.
    pub fn new(rng: Random) -> (methods: Methods<H>)
        ensures
            methods.wf(),
            methods@ == Map::<Seq<char>, H>::empty(),
    {
        Methods { rng: rng, pending_methods: Table::new() }
    }

    /// Calls `method` under a fresh random id: `callback` waits under that
    /// id, and the call's frame joins the queue. The handler is in the table
    /// before the frame can leave, so no answer can come too early for it.
    pub fn send(
        &mut self,
        outgoing: &mut OutboundQueue,
        method: &str,
        params: Option<&Vec<&Json>>,
        callback: H,
    ) -> (id: String)
        requires
            old(self).wf(),
        ensures
            final(self).wf(),
            is_id(id@),
            final(self)@ == old(self)@.insert(id@, callback),
            final(outgoing)@ == old(outgoing)@.push(
                method_text(id@, method@, params_view(params)),
            ),
    {
        let id = self.rng.id();
        self.send_as(outgoing, id.clone(), method, params, callback);
        id
    }

    /// Calls `method` under the given id. A handler that waited under the
    /// same id is dropped without being fired.
    pub fn send_as(
        &mut self,
        outgoing: &mut OutboundQueue,
        id: String,
        method: &str,
        params: Option<&Vec<&Json>>,
        callback: H,
    )
        requires
            old(self).wf(),
        ensures
            final(self).wf(),
            final(self)@ == old(self)@.insert(id@, callback),
            final(outgoing)@ == old(outgoing)@.push(
                method_text(id@, method@, params_view(params)),
            ),
    {
        let frame = Method::text(id.as_str(), method, params);
        self.pending_methods.insert(id, callback);
        outgoing.send(frame);
    }

    /// Takes the handler of the call `id` out of the table, for the caller
    /// to fire with the call's outcome. `None` when no such call waits: an
    /// answer that comes twice or too late finds nothing.
    pub fn apply(&mut self, id: &str) -> (completion: Option<H>)
        requires
            old(self).wf(),
        ensures
            final(self).wf(),
            completion == old(self)@.get(id@),
            final(self)@ == old(self)@.remove(id@),
    {
        self.pending_methods.remove(id)
    }

    /// Whether a call waits under `id`.
    pub fn is_pending(&self, id: &str) -> (waiting: bool)
        requires
            self.wf(),
        ensures
            waiting == self@.dom().contains(id@),
    {
        self.pending_methods.contains_key(id)
    }
}

} // verus!
