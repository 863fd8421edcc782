//! What the engine asks its caller to do after a frame has arrived.

use vstd::prelude::*;
use crate::json::Json;

verus! {

/// What is to be done after a frame has arrived. The engine has already
/// changed its tables; firing handlers is left to the caller, who does it
/// once per handler named here, after letting go of the engine.
pub enum Action<'a, M, S> {
    /// Nothing.
    Idle,
    /// A method call is answered: fire `handler` with `outcome`. The handler
    /// has left the table of pending calls.
    Complete { handler: M, outcome: Result<&'a Json, &'a Json> },
    /// Subscriptions are answered: fire each of `handlers`, in this order,
    /// with `answer`. The handlers have left the table of subscriptions.
    Ready { handlers: Vec<S>, answer: Result<(), &'a Json> },
    /// A document was added: fire the `added` listeners of the collection
    /// at `collection` that stand under `listeners`, in this order.
    Added { collection: usize, listeners: Vec<u32>, id: &'a str, fields: Option<&'a Json> },
    /// A document was changed: fire the `changed` listeners of the
    /// collection at `collection` that stand under `listeners`, in this
    /// order.
    Changed {
        collection: usize,
        listeners: Vec<u32>,
        id: &'a str,
        fields: Option<&'a Json>,
        cleared: Option<&'a Json>,
    },
    /// A document was removed: fire the `removed` listeners of the
    /// collection at `collection` that stand under `listeners`, in this
    /// order.
    Removed { collection: usize, listeners: Vec<u32>, id: &'a str },
}

/// An action as a value: what `Action` holds, without the borrows.
pub enum Deed<M, S> {
    Idle,
    Complete { handler: M, outcome: Result<Json, Json> },
    Ready { handlers: Seq<S>, answer: Result<(), Json> },
    Added { collection: int, listeners: Seq<u32>, id: Seq<char>, fields: Option<Json> },
    Changed {
        collection: int,
        listeners: Seq<u32>,
        id: Seq<char>,
        fields: Option<Json>,
        cleared: Option<Json>,
    },
    Removed { collection: int, listeners: Seq<u32>, id: Seq<char> },
}

/// The value behind an optional borrowed payload.
pub open spec fn payload(value: Option<&Json>) -> Option<Json> {
    match value {
        Some(v) => Some(*v),
        None => None,
    }
}

impl<'a, M, S> View for Action<'a, M, S> {
    type V = Deed<M, S>;

    open spec fn view(&self) -> Deed<M, S> {
        match *self {
            Action::Idle => Deed::Idle,
            Action::Complete { handler, outcome } => Deed::Complete {
                handler: handler,
                outcome: match outcome {
                    Ok(value) => Ok(*value),
                    Err(error) => Err(*error),
                },
            },
            Action::Ready { handlers, answer } => Deed::Ready {
                handlers: handlers@,
                answer: match answer {
                    Ok(_) => Ok(()),
                    Err(error) => Err(*error),
                },
            },
            Action::Added { collection, listeners, id, fields } => Deed::Added {
                collection: collection as int,
                listeners: listeners@,
                id: id@,
                fields: payload(fields),
            },
            Action::Changed { collection, listeners, id, fields, cleared } => Deed::Changed {
                collection: collection as int,
                listeners: listeners@,
                id: id@,
                fields: payload(fields),
                cleared: payload(cleared),
            },
            Action::Removed { collection, listeners, id } => Deed::Removed {
                collection: collection as int,
                listeners: listeners@,
                id: id@,
            },
        }
    }
}

} // verus!
