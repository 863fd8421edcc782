//! What holds of the engine whatever it is fed: the laws that tie calls to
//! completions, events to listeners and subscriptions to their handlers.

use vstd::prelude::*;
use crate::action::Deed;
use crate::collection::{CollectionView, Listener, ListenerId};
use crate::dispatcher::{index_of_name, lemma_index_of_name, lemma_name_found, result_outcome};
use crate::dispatcher::{ready_ids, CoreView};
use crate::json::Json;
use crate::listeners::{keys_ascend, keys_of, keys_within, listener_at, without};
use crate::listeners::{lemma_listener_at, lemma_push_keeps, lemma_without_absent};
use crate::listeners::lemma_without_keeps;
use crate::messages::pong_text;
use crate::quoting::{lemma_escaped_plain, lemma_quoted_injective, needs_escape, quoted};
use crate::random::{is_unmistakable, unmistakable_chars};
use crate::subscriptions::{after_ready, fired, ready_handlers};

verus! {

/// The seven kinds of frame that the engine knows are seven different
/// words.
pub proof fn lemma_kinds_differ()
    ensures
        "ping"@ != "result"@,
        "ping"@ != "added"@,
        "ping"@ != "changed"@,
        "ping"@ != "removed"@,
        "ping"@ != "ready"@,
        "ping"@ != "nosub"@,
        "result"@ != "added"@,
        "result"@ != "changed"@,
        "result"@ != "removed"@,
        "result"@ != "ready"@,
        "result"@ != "nosub"@,
        "added"@ != "changed"@,
        "added"@ != "removed"@,
        "added"@ != "ready"@,
        "added"@ != "nosub"@,
        "changed"@ != "removed"@,
        "changed"@ != "ready"@,
        "changed"@ != "nosub"@,
        "removed"@ != "ready"@,
        "removed"@ != "nosub"@,
        "ready"@ != "nosub"@,
{
    reveal_strlit("ping");
    reveal_strlit("result");
    reveal_strlit("added");
    reveal_strlit("changed");
    reveal_strlit("removed");
    reveal_strlit("ready");
    reveal_strlit("nosub");
    assert("ping"@.len() == 4);
    assert("result"@.len() == 6);
    assert("added"@.len() == 5 && "added"@[0] == 'a');
    assert("changed"@.len() == 7 && "changed"@[0] == 'c');
    assert("removed"@.len() == 7 && "removed"@[0] == 'r');
    assert("ready"@.len() == 5 && "ready"@[0] == 'r' && "ready"@[1] == 'e');
    assert("nosub"@.len() == 5 && "nosub"@[0] == 'n');
}

/// Whether `message` is a `result` frame that answers the call `id` with an
/// outcome.
pub open spec fn answers(message: Json, id: Seq<char>) -> bool {
    &&& message.string_at("msg"@) == Some("result"@)
    &&& message.string_at("id"@) == Some(id)
    &&& result_outcome(message) is Some
}

/// A call that has been sent waits under its id with its handler.
pub proof fn law_call_is_pending<M, S, A, C, R>(
    core: CoreView<M, S, A, C, R>,
    id: Seq<char>,
    method: Seq<char>,
    params: Option<Seq<Json>>,
    callback: M,
)
    ensures
        core.called(id, method, params, callback).methods.get(id) == Some(callback),
{
}

/// The result of a pending call completes it once: the frame yields the
/// call's handler with the frame's outcome, and the handler leaves the
/// table, so that no later frame can yield it again. The other calls go on
/// waiting.
pub proof fn law_result_completes_once<M, S, A, C, R>(
    core: CoreView<M, S, A, C, R>,
    message: Json,
    id: Seq<char>,
)
    requires
        core.methods.contains_key(id),
        answers(message, id),
    ensures
        core.step(message).1 == (Deed::<M, S>::Complete {
            handler: core.methods[id],
            outcome: result_outcome(message)->0,
        }),
        !core.step(message).0.methods.contains_key(id),
        core.step(message).0.methods == core.methods.remove(id),
        core.step(message).0.step(message).1 is Idle,
{
    lemma_kinds_differ();
}

/// Nothing but its result completes a call: a frame that yields a handler
/// is a `result` frame with an outcome, and the handler is the one that
/// waited under the frame's id. A call that no such frame answers goes on
/// waiting, and its handler is not yielded.
pub proof fn law_only_results_complete<M, S, A, C, R>(core: CoreView<M, S, A, C, R>, message: Json)
    ensures
        core.step(message).1 is Complete ==> {
            &&& message.string_at("id"@) is Some
            &&& answers(message, message.string_at("id"@)->0)
            &&& core.methods.get(message.string_at("id"@)->0) == Some(
                core.step(message).1->handler,
            )
        },
        forall|id: Seq<char>|
            core.methods.contains_key(id) && !answers(message, id) ==> core.step(
                message,
            ).0.methods.get(id) == #[trigger] core.methods.get(id),
{
    lemma_kinds_differ();
}

/// The engine after the frames have arrived in turn.
pub open spec fn after_frames<M, S, A, C, R>(core: CoreView<M, S, A, C, R>, frames: Seq<Json>)
    -> CoreView<M, S, A, C, R>
    decreases frames.len(),
{
    if frames.len() == 0 {
        core
    } else {
        after_frames(core, frames.drop_last()).step(frames.last()).0
    }
}

/// How many of the frames, arriving in turn, complete the call `id`.
pub open spec fn completions<M, S, A, C, R>(
    core: CoreView<M, S, A, C, R>,
    frames: Seq<Json>,
    id: Seq<char>,
) -> nat
    decreases frames.len(),
{
    if frames.len() == 0 {
        0
    } else {
        let before = after_frames(core, frames.drop_last());
        let here: nat = if answers(frames.last(), id) && before.step(frames.last()).1 is Complete {
            1
        } else {
            0
        };
        completions(core, frames.drop_last(), id) + here
    }
}

/// Whether one of the frames answers the call `id`.
pub open spec fn is_answered(frames: Seq<Json>, id: Seq<char>) -> bool {
    exists|k: int| 0 <= k < frames.len() && answers(#[trigger] frames[k], id)
}

/// No frame lets a call wait that did not wait before.
proof fn lemma_frames_add_no_call<M, S, A, C, R>(
    core: CoreView<M, S, A, C, R>,
    message: Json,
    id: Seq<char>,
)
    requires
        !core.methods.contains_key(id),
    ensures
        !core.step(message).0.methods.contains_key(id),
{
}

/// Whatever frames arrive, in whatever order, a pending call is completed
/// exactly once if one of them answers it, and then waits no more; it is
/// not completed, and goes on waiting with its handler, if none does.
pub proof fn law_one_completion_per_call<M, S, A, C, R>(
    core: CoreView<M, S, A, C, R>,
    frames: Seq<Json>,
    id: Seq<char>,
)
    requires
        core.methods.contains_key(id),
    ensures
        is_answered(frames, id) ==> completions(core, frames, id) == 1 && !after_frames(
            core,
            frames,
        ).methods.contains_key(id),
        !is_answered(frames, id) ==> completions(core, frames, id) == 0 && after_frames(
            core,
            frames,
        ).methods.get(id) == core.methods.get(id),
    decreases frames.len(),
{
    if frames.len() > 0 {
        let front = frames.drop_last();
        let last = frames.last();
        let before = after_frames(core, front);
        law_one_completion_per_call(core, front, id);
        law_only_results_complete(before, last);
        if is_answered(front, id) {
            let k = choose|k: int| 0 <= k < front.len() && answers(#[trigger] front[k], id);
            assert(answers(frames[k], id));
            lemma_frames_add_no_call(before, last, id);
        } else if answers(last, id) {
            assert(answers(frames[frames.len() - 1], id));
            law_result_completes_once(before, last, id);
        } else {
            if is_answered(frames, id) {
                let k = choose|k: int| 0 <= k < frames.len() && answers(#[trigger] frames[k], id);
                if k < front.len() {
                    assert(answers(front[k], id));
                }
            }
        }
    }
}

/// The first frame that answers a pending call yields the handler that
/// waited for it, with that frame's outcome.
pub proof fn law_first_answer_completes<M, S, A, C, R>(
    core: CoreView<M, S, A, C, R>,
    frames: Seq<Json>,
    id: Seq<char>,
    first: int,
)
    requires
        core.methods.contains_key(id),
        0 <= first < frames.len(),
        answers(frames[first], id),
        forall|k: int| 0 <= k < first ==> !answers(#[trigger] frames[k], id),
    ensures
        after_frames(core, frames.take(first)).step(frames[first]).1 == (Deed::<
            M,
            S,
        >::Complete { handler: core.methods[id], outcome: result_outcome(frames[first])->0 }),
{
    let front = frames.take(first);
    assert(!is_answered(front, id)) by {
        if is_answered(front, id) {
            let k = choose|k: int| 0 <= k < front.len() && answers(#[trigger] front[k], id);
            assert(front[k] == frames[k]);
        }
    }
    law_one_completion_per_call(core, front, id);
    law_result_completes_once(after_frames(core, front), frames[first], id);
}

/// Frames leave the collections and their listeners as they are: only
/// registering and clearing change who listens.
pub proof fn law_frames_keep_listeners<M, S, A, C, R>(
    core: CoreView<M, S, A, C, R>,
    frames: Seq<Json>,
)
    ensures
        after_frames(core, frames).mongos == core.mongos,
    decreases frames.len(),
{
    if frames.len() > 0 {
        law_frames_keep_listeners(core, frames.drop_last());
    }
}

/// The frame that answers a ping tells what id the ping had, and whether it
/// had one: two pings are answered alike only if they had the same id or
/// none both.
pub proof fn law_pong_echoes_id(a: Option<Seq<char>>, b: Option<Seq<char>>)
    requires
        pong_text(a) == pong_text(b),
    ensures
        a == b,
{
    reveal_strlit("{\"msg\":\"pong\",\"id\":");
    reveal_strlit("}");
    reveal_strlit("{\"msg\":\"pong\"}");
    let head = "{\"msg\":\"pong\",\"id\":"@;
    let tail = "}"@;
    assert(head.len() == 19);
    assert(tail.len() == 1);
    assert("{\"msg\":\"pong\"}"@.len() == 14);
    match (a, b) {
        (Some(x), Some(y)) => {
            let qx = quoted(x);
            let qy = quoted(y);
            assert((head + qx + tail).len() == 20 + qx.len());
            assert((head + qy + tail).len() == 20 + qy.len());
            assert((head + qx + tail).subrange(19, 19 + qx.len() as int) =~= qx);
            assert((head + qy + tail).subrange(19, 19 + qy.len() as int) =~= qy);
            lemma_quoted_injective(x, y);
        },
        (Some(x), None) => {
            assert((head + quoted(x) + tail).len() == 20 + quoted(x).len());
        },
        (None, Some(y)) => {
            assert((head + quoted(y) + tail).len() == 20 + quoted(y).len());
        },
        (None, None) => {},
    }
}

/// The ids that the engine draws hold no character that needs an escape,
/// so a frame shows them as they are, between double quotes.
pub proof fn law_ids_stand_as_drawn(id: Seq<char>)
    requires
        is_unmistakable(id),
    ensures
        quoted(id) == seq!['"'] + id + seq!['"'],
{
    reveal_strlit("23456789ABCDEFGHJKLMNPQRSTWXYZabcdefghijkmnopqrstuvwxyz");
    let alphabet = unmistakable_chars();
    assert(alphabet.len() == 55);
    assert forall|j: int| 0 <= j < 55 implies !needs_escape(#[trigger] alphabet[j]) by {
        assert('2' <= alphabet[j] <= 'z' && alphabet[j] != '\\') by {
            if j < 8 {
                assert('2' <= alphabet[j] <= '9');
            } else if j < 30 {
                assert('A' <= alphabet[j] <= 'Z');
            } else {
                assert('a' <= alphabet[j] <= 'z');
            }
        }
    }
    assert forall|i: int| 0 <= i < id.len() implies !needs_escape(#[trigger] id[i]) by {
        assert(alphabet.contains(id[i]));
        let j = choose|j: int| 0 <= j < alphabet.len() && alphabet[j] == id[i];
        assert(!needs_escape(alphabet[j]));
    }
    lemma_escaped_plain(id);
}

/// A ping puts exactly one frame into the queue, the pong with the ping's
/// id, and asks nothing of the caller.
pub proof fn law_ping_is_answered<M, S, A, C, R>(core: CoreView<M, S, A, C, R>, message: Json)
    requires
        message.string_at("msg"@) == Some("ping"@),
    ensures
        core.step(message).0.transfer == core.transfer.push(
            pong_text(message.string_at("id"@)),
        ),
        core.step(message).1 is Idle,
{
}

/// Whether `key` stands exactly once among `keys`.
pub open spec fn occurs_once(keys: Seq<u32>, key: u32) -> bool {
    exists|i: int|
        0 <= i < keys.len() && #[trigger] keys[i] == key && forall|j: int|
            0 <= j < keys.len() && j != i ==> keys[j] != key
}

/// A listener that is registered stands exactly once among the listeners
/// that an event fires.
pub proof fn law_registered_fires_once<H>(entries: Seq<(u32, H)>, key: u32)
    requires
        keys_ascend(entries),
        listener_at(entries, key) is Some,
    ensures
        occurs_once(keys_of(entries), key),
{
    if forall|i: int| 0 <= i < entries.len() ==> (#[trigger] entries[i]).0 != key {
        lemma_without_absent(entries, key);
    }
    let i = choose|i: int| 0 <= i < entries.len() && (#[trigger] entries[i]).0 == key;
    lemma_listener_at(entries, i);
    let keys = keys_of(entries);
    assert(keys[i] == key);
    assert forall|j: int| 0 <= j < keys.len() && j != i implies keys[j] != key by {
        assert(entries[j].0 != entries[i].0);
    }
}

/// A listener that has just been registered is registered, under the key
/// that the registration returned, and the listeners that were there still
/// are.
pub proof fn law_registration_registers<A, C, R>(v: CollectionView<A, C, R>, f: A, g: C, h: R)
    requires
        v.wf(),
        v.has_room(),
    ensures
        v.adding(f).wf() && listener_at(v.adding(f).added, v.next_key()) == Some(f),
        v.changing(g).wf() && listener_at(v.changing(g).changed, v.next_key()) == Some(g),
        v.removing(h).wf() && listener_at(v.removing(h).removed, v.next_key()) == Some(h),
        keys_of(v.adding(f).added) == keys_of(v.added).push(v.next_key()),
        keys_of(v.changing(g).changed) == keys_of(v.changed).push(v.next_key()),
        keys_of(v.removing(h).removed) == keys_of(v.removed).push(v.next_key()),
        forall|key: u32|
            key != v.next_key() ==> {
                &&& listener_at(v.adding(f).added, key) == listener_at(v.added, key)
                &&& listener_at(v.changing(g).changed, key) == listener_at(v.changed, key)
                &&& listener_at(v.removing(h).removed, key) == listener_at(v.removed, key)
            },
        v.adding(f).changed == v.changed && v.adding(f).removed == v.removed,
        v.changing(g).added == v.added && v.changing(g).removed == v.removed,
        v.removing(h).added == v.added && v.removing(h).changed == v.changed,
{
    lemma_push_keeps(v.added, v.next_key(), f);
    lemma_push_keeps(v.changed, v.next_key(), g);
    lemma_push_keeps(v.removed, v.next_key(), h);
    lemma_grows(v.added, v.count, v.count + 1);
    lemma_grows(v.changed, v.count, v.count + 1);
    lemma_grows(v.removed, v.count, v.count + 1);
}

/// Keys within a limit are within every higher limit.
proof fn lemma_grows<H>(entries: Seq<(u32, H)>, limit: int, higher: int)
    requires
        keys_within(entries, limit),
        limit <= higher,
    ensures
        keys_within(entries, higher),
{
    assert forall|i: int| 0 <= i < entries.len() implies (#[trigger] entries[i]).0 <= higher by {
        assert(entries[i].0 <= limit);
    }
}

/// Whether `message` is a frame of the kind `kind` about the document `id`
/// of the collection `name`.
pub open spec fn is_event(message: Json, kind: Seq<char>, name: Seq<char>, id: Seq<char>) -> bool {
    &&& message.string_at("msg"@) == Some(kind)
    &&& message.string_at("collection"@) == Some(name)
    &&& message.string_at("id"@) == Some(id)
}

/// In a registry in order a collection is found under its name.
pub proof fn law_collection_is_found<M, S, A, C, R>(core: CoreView<M, S, A, C, R>, at: int)
    requires
        core.wf(),
        0 <= at < core.mongos.len(),
    ensures
        index_of_name(core.mongos, core.mongos[at].name) == Some(at),
{
    assert forall|i: int| at < i < core.mongos.len() implies (#[trigger] core.mongos[i]).name
        != core.mongos[at].name by {
        assert(core.mongos[at].name != core.mongos[i].name);
    }
    lemma_name_found(core.mongos, core.mongos[at].name, at);
}

/// Every `added` frame for a collection fires each of the collection's
/// registered `added` listeners exactly once, with the frame's document and
/// fields, and changes nothing in the engine.
pub proof fn law_added_reaches_listeners<M, S, A, C, R>(
    core: CoreView<M, S, A, C, R>,
    message: Json,
    at: int,
    id: Seq<char>,
    key: u32,
)
    requires
        core.wf(),
        0 <= at < core.mongos.len(),
        is_event(message, "added"@, core.mongos[at].name, id),
        listener_at(core.mongos[at].added, key) is Some,
    ensures
        core.step(message).0 == core,
        core.step(message).1 == (Deed::<M, S>::Added {
            collection: at,
            listeners: keys_of(core.mongos[at].added),
            id: id,
            fields: message.member("fields"@),
        }),
        occurs_once(keys_of(core.mongos[at].added), key),
{
    lemma_kinds_differ();
    law_collection_is_found(core, at);
    law_registered_fires_once(core.mongos[at].added, key);
}

/// Every `changed` frame for a collection fires each of the collection's
/// registered `changed` listeners exactly once, with the frame's document,
/// fields and cleared fields, and changes nothing in the engine.
pub proof fn law_changed_reaches_listeners<M, S, A, C, R>(
    core: CoreView<M, S, A, C, R>,
    message: Json,
    at: int,
    id: Seq<char>,
    key: u32,
)
    requires
        core.wf(),
        0 <= at < core.mongos.len(),
        is_event(message, "changed"@, core.mongos[at].name, id),
        listener_at(core.mongos[at].changed, key) is Some,
    ensures
        core.step(message).0 == core,
        core.step(message).1 == (Deed::<M, S>::Changed {
            collection: at,
            listeners: keys_of(core.mongos[at].changed),
            id: id,
            fields: message.member("fields"@),
            cleared: message.member("cleared"@),
        }),
        occurs_once(keys_of(core.mongos[at].changed), key),
{
    lemma_kinds_differ();
    law_collection_is_found(core, at);
    law_registered_fires_once(core.mongos[at].changed, key);
}

/// Every `removed` frame for a collection fires each of the collection's
/// registered `removed` listeners exactly once, with the frame's document,
/// and changes nothing in the engine.
pub proof fn law_removed_reaches_listeners<M, S, A, C, R>(
    core: CoreView<M, S, A, C, R>,
    message: Json,
    at: int,
    id: Seq<char>,
    key: u32,
)
    requires
        core.wf(),
        0 <= at < core.mongos.len(),
        is_event(message, "removed"@, core.mongos[at].name, id),
        listener_at(core.mongos[at].removed, key) is Some,
    ensures
        core.step(message).0 == core,
        core.step(message).1 == (Deed::<M, S>::Removed {
            collection: at,
            listeners: keys_of(core.mongos[at].removed),
            id: id,
        }),
        occurs_once(keys_of(core.mongos[at].removed), key),
{
    lemma_kinds_differ();
    law_collection_is_found(core, at);
    law_registered_fires_once(core.mongos[at].removed, key);
}

/// The table of the kind `kind` holds no listener under `key`.
pub open spec fn is_silent<A, C, R>(v: CollectionView<A, C, R>, kind: Listener, key: u32) -> bool {
    match kind {
        Listener::Inserted => !keys_of(v.added).contains(key),
        Listener::Changed => !keys_of(v.changed).contains(key),
        Listener::Removed => !keys_of(v.removed).contains(key),
    }
}

/// A listener that has been cleared is fired by no event: its key is gone
/// from the table of its kind, while every other listener of the collection
/// stays where it was.
pub proof fn law_cleared_is_silent<A, C, R>(v: CollectionView<A, C, R>, id: ListenerId)
    requires
        v.wf(),
    ensures
        v.cleared(id).wf(),
        is_silent(v.cleared(id), id.0, id.1),
        v.cleared(id).count == v.count,
        forall|other: u32|
            other != id.1 ==> {
                &&& listener_at(v.cleared(id).added, other) == listener_at(v.added, other)
                &&& listener_at(v.cleared(id).changed, other) == listener_at(v.changed, other)
                &&& listener_at(v.cleared(id).removed, other) == listener_at(v.removed, other)
            },
        id.0 != Listener::Inserted ==> v.cleared(id).added == v.added,
        id.0 != Listener::Changed ==> v.cleared(id).changed == v.changed,
        id.0 != Listener::Removed ==> v.cleared(id).removed == v.removed,
{
    lemma_without_keeps(v.added, id.1);
    lemma_without_keeps(v.changed, id.1);
    lemma_without_keeps(v.removed, id.1);
}

/// A key that is silent stays silent: no later registration hands it out
/// again, and no deregistration brings it back.
pub proof fn law_silence_lasts<A, C, R>(
    v: CollectionView<A, C, R>,
    kind: Listener,
    key: u32,
    f: A,
    g: C,
    h: R,
    other: ListenerId,
)
    requires
        v.wf(),
        key <= v.count,
        is_silent(v, kind, key),
    ensures
        v.has_room() ==> is_silent(v.adding(f), kind, key) && key <= v.adding(f).count,
        v.has_room() ==> is_silent(v.changing(g), kind, key) && key <= v.changing(g).count,
        v.has_room() ==> is_silent(v.removing(h), kind, key) && key <= v.removing(h).count,
        is_silent(v.cleared(other), kind, key) && key <= v.cleared(other).count,
{
    if v.has_room() {
        lemma_push_keeps(v.added, v.next_key(), f);
        lemma_push_keeps(v.changed, v.next_key(), g);
        lemma_push_keeps(v.removed, v.next_key(), h);
        lemma_silent_push(keys_of(v.added), v.next_key(), key);
        lemma_silent_push(keys_of(v.changed), v.next_key(), key);
        lemma_silent_push(keys_of(v.removed), v.next_key(), key);
    }
    lemma_silent_without(v.added, other.1, key);
    lemma_silent_without(v.changed, other.1, key);
    lemma_silent_without(v.removed, other.1, key);
}

/// A key that is not among some keys is not among them and another key.
proof fn lemma_silent_push(keys: Seq<u32>, new: u32, key: u32)
    requires
        new != key,
    ensures
        !keys.contains(key) ==> !keys.push(new).contains(key),
{
    if !keys.contains(key) && keys.push(new).contains(key) {
        let i = choose|i: int| 0 <= i < keys.push(new).len() && keys.push(new)[i] == key;
        if i < keys.len() {
            assert(keys[i] == key);
        }
    }
}

/// Taking a key out of a table brings no other key in.
proof fn lemma_silent_without<H>(entries: Seq<(u32, H)>, gone: u32, key: u32)
    ensures
        !keys_of(entries).contains(key) ==> !keys_of(without(entries, gone)).contains(key),
    decreases entries.len(),
{
    if entries.len() > 0 && !keys_of(entries).contains(key) {
        let front = entries.drop_last();
        lemma_silent_without(front, gone, key);
        if keys_of(front).contains(key) {
            let i = choose|i: int| 0 <= i < keys_of(front).len() && keys_of(front)[i] == key;
            assert(keys_of(entries)[i] == key);
        }
        let rest = without(front, gone);
        if entries.last().0 != gone {
            assert(entries.last() == entries[entries.len() - 1]);
            assert(keys_of(entries)[entries.len() - 1] == entries.last().0);
            assert(keys_of(rest.push(entries.last())) =~= keys_of(rest).push(entries.last().0));
            lemma_silent_push(keys_of(rest), entries.last().0, key);
        }
    }
}

/// The first time the server answers for a subscription, whether in a
/// `ready` list or by a `nosub`, every handler that waits for it is fired,
/// each once: the handlers fired are those that were registered, in
/// reverse. After that nobody waits under the id, and a second answer of
/// either kind fires nothing for it.
pub proof fn law_answer_fires_once<S>(
    subs: Map<Seq<char>, Seq<S>>,
    ids: Seq<Seq<char>>,
    at: int,
    waiting: Seq<S>,
)
    requires
        0 <= at < ids.len(),
        subs.get(ids[at]) == Some(waiting),
        forall|j: int| 0 <= j < at ==> ids[j] != ids[at],
    ensures
        fired(after_ready(subs, ids.take(at)), ids[at]) == waiting.reverse(),
        waiting.reverse().len() == waiting.len(),
        forall|k: int|
            0 <= k < waiting.len() ==> waiting.reverse()[k] == waiting[waiting.len() - 1 - k],
        ready_handlers(subs, ids.take(at + 1)) == ready_handlers(subs, ids.take(at))
            + waiting.reverse(),
        !after_ready(subs, ids.take(at + 1)).contains_key(ids[at]),
        !after_ready(subs, ids).contains_key(ids[at]),
        fired(after_ready(subs, ids), ids[at]).len() == 0,
        fired(subs.remove(ids[at]), ids[at]).len() == 0,
{
    lemma_others_keep(subs, ids.take(at), ids[at]);
    let upto = ids.take(at + 1);
    assert(upto.drop_last() =~= ids.take(at));
    assert(upto.last() == ids[at]);
    lemma_answered_is_gone(subs, ids, at);
}

/// Answers for other subscriptions leave the handlers of `id` waiting.
proof fn lemma_others_keep<S>(subs: Map<Seq<char>, Seq<S>>, ids: Seq<Seq<char>>, id: Seq<char>)
    requires
        forall|j: int| 0 <= j < ids.len() ==> ids[j] != id,
    ensures
        after_ready(subs, ids).get(id) == subs.get(id),
    decreases ids.len(),
{
    if ids.len() > 0 {
        lemma_others_keep(subs, ids.drop_last(), id);
        assert(ids.last() == ids[ids.len() - 1]);
    }
}

/// Once the server has answered for an id nobody waits under it, however
/// many answers follow.
proof fn lemma_answered_is_gone<S>(subs: Map<Seq<char>, Seq<S>>, ids: Seq<Seq<char>>, at: int)
    requires
        0 <= at < ids.len(),
    ensures
        !after_ready(subs, ids).contains_key(ids[at]),
    decreases ids.len(),
{
    if at < ids.len() - 1 {
        lemma_answered_is_gone(subs, ids.drop_last(), at);
    } else {
        assert(ids.last() == ids[at]);
    }
}

/// A `ready` frame fires the handlers of the subscriptions it lists and a
/// `nosub` frame those of the one that failed; either forgets what it
/// fired.
pub proof fn law_readiness_frames<M, S, A, C, R>(core: CoreView<M, S, A, C, R>, message: Json)
    ensures
        message.string_at("msg"@) == Some("ready"@) && ready_ids(message) is Some ==> {
            &&& core.step(message).1 == (Deed::<M, S>::Ready {
                handlers: ready_handlers(core.subs, ready_ids(message)->0),
                answer: Ok(()),
            })
            &&& core.step(message).0.subs == after_ready(core.subs, ready_ids(message)->0)
        },
        message.string_at("msg"@) == Some("nosub"@) && message.member("error"@) is Some
            && message.string_at("id"@) is Some ==> {
            &&& core.step(message).1 == (Deed::<M, S>::Ready {
                handlers: fired(core.subs, message.string_at("id"@)->0),
                answer: Err(message.member("error"@)->0),
            })
            &&& core.step(message).0.subs == core.subs.remove(message.string_at("id"@)->0)
        },
{
    lemma_kinds_differ();
}

/// Whether `message` is the server's answer for the subscription `id`: a
/// `ready` frame that lists it, or a `nosub` frame for it with an error.
pub open spec fn answers_sub(message: Json, id: Seq<char>) -> bool {
    ||| message.string_at("msg"@) == Some("ready"@) && ready_ids(message) is Some && ready_ids(
        message,
    )->0.contains(id)
    ||| message.string_at("msg"@) == Some("nosub"@) && message.member("error"@) is Some
        && message.string_at("id"@) == Some(id)
}

/// Whether one of the frames is the server's answer for the subscription
/// `id`.
pub open spec fn is_sub_answered(frames: Seq<Json>, id: Seq<char>) -> bool {
    exists|k: int| 0 <= k < frames.len() && answers_sub(#[trigger] frames[k], id)
}

/// Answers put nobody into the table of subscriptions.
proof fn lemma_answers_add_nobody<S>(subs: Map<Seq<char>, Seq<S>>, ids: Seq<Seq<char>>, id: Seq<char>)
    requires
        !subs.contains_key(id),
    ensures
        !after_ready(subs, ids).contains_key(id),
    decreases ids.len(),
{
    if ids.len() > 0 {
        lemma_answers_add_nobody(subs, ids.drop_last(), id);
    }
}

/// What one frame does to the handlers that wait for the subscription
/// `id`: the server's answer for it lets nobody wait on, any other frame
/// leaves them waiting, and no frame lets somebody wait where nobody did.
pub proof fn law_frame_and_subscription<M, S, A, C, R>(
    core: CoreView<M, S, A, C, R>,
    message: Json,
    id: Seq<char>,
)
    ensures
        answers_sub(message, id) ==> !core.step(message).0.subs.contains_key(id),
        !answers_sub(message, id) ==> core.step(message).0.subs.get(id) == core.subs.get(id),
        !core.subs.contains_key(id) ==> !core.step(message).0.subs.contains_key(id),
{
    lemma_kinds_differ();
    if message.string_at("msg"@) == Some("ready"@) && ready_ids(message) is Some {
        let ids = ready_ids(message)->0;
        if ids.contains(id) {
            let at = choose|at: int| 0 <= at < ids.len() && ids[at] == id;
            lemma_answered_is_gone(core.subs, ids, at);
        } else {
            lemma_others_keep(core.subs, ids, id);
        }
        if !core.subs.contains_key(id) {
            lemma_answers_add_nobody(core.subs, ids, id);
        }
    }
}

/// Whatever frames arrive, in whatever order, the handlers of a
/// subscription wait until the server's first answer for it, and after
/// that answer nobody waits for it again: a second answer, of either kind,
/// finds nothing to fire.
pub proof fn law_one_answer_per_subscription<M, S, A, C, R>(
    core: CoreView<M, S, A, C, R>,
    frames: Seq<Json>,
    id: Seq<char>,
)
    ensures
        is_sub_answered(frames, id) ==> !after_frames(core, frames).subs.contains_key(id),
        is_sub_answered(frames, id) ==> fired(after_frames(core, frames).subs, id).len() == 0,
        !is_sub_answered(frames, id) ==> after_frames(core, frames).subs.get(id) == core.subs.get(
            id,
        ),
    decreases frames.len(),
{
    if frames.len() > 0 {
        let front = frames.drop_last();
        let last = frames.last();
        let before = after_frames(core, front);
        law_one_answer_per_subscription(core, front, id);
        law_frame_and_subscription(before, last, id);
        if is_sub_answered(front, id) {
            let k = choose|k: int| 0 <= k < front.len() && answers_sub(#[trigger] front[k], id);
            assert(answers_sub(frames[k], id));
        } else if answers_sub(last, id) {
            assert(answers_sub(frames[frames.len() - 1], id));
        } else {
            if is_sub_answered(frames, id) {
                let k = choose|k: int|
                    0 <= k < frames.len() && answers_sub(#[trigger] frames[k], id);
                if k < front.len() {
                    assert(answers_sub(front[k], id));
                }
            }
        }
    }
}

/// The first answer for a subscription, when it comes as a `nosub`, fires
/// every handler that was registered for it, each once, with the frame's
/// error.
pub proof fn law_first_nosub_fires_all<M, S, A, C, R>(
    core: CoreView<M, S, A, C, R>,
    frames: Seq<Json>,
    id: Seq<char>,
    first: int,
)
    requires
        core.subs.contains_key(id),
        0 <= first < frames.len(),
        frames[first].string_at("msg"@) == Some("nosub"@),
        frames[first].member("error"@) is Some,
        frames[first].string_at("id"@) == Some(id),
        forall|k: int| 0 <= k < first ==> !answers_sub(#[trigger] frames[k], id),
    ensures
        after_frames(core, frames.take(first)).step(frames[first]).1 == (Deed::<M, S>::Ready {
            handlers: core.subs[id].reverse(),
            answer: Err(frames[first].member("error"@)->0),
        }),
{
    let front = frames.take(first);
    assert(!is_sub_answered(front, id)) by {
        if is_sub_answered(front, id) {
            let k = choose|k: int| 0 <= k < front.len() && answers_sub(#[trigger] front[k], id);
            assert(front[k] == frames[k]);
        }
    }
    law_one_answer_per_subscription(core, front, id);
    law_readiness_frames(after_frames(core, front), frames[first]);
}

/// The first answer for a subscription, when it comes in a `ready` frame,
/// fires every handler that was registered for it, each once: where the
/// frame's list first names the subscription, the handlers fired are those
/// that were registered, in reverse.
pub proof fn law_first_ready_fires_all<M, S, A, C, R>(
    core: CoreView<M, S, A, C, R>,
    frames: Seq<Json>,
    id: Seq<char>,
    first: int,
    at: int,
)
    requires
        core.subs.contains_key(id),
        0 <= first < frames.len(),
        frames[first].string_at("msg"@) == Some("ready"@),
        ready_ids(frames[first]) is Some,
        0 <= at < ready_ids(frames[first])->0.len(),
        ready_ids(frames[first])->0[at] == id,
        forall|j: int| 0 <= j < at ==> ready_ids(frames[first])->0[j] != id,
        forall|k: int| 0 <= k < first ==> !answers_sub(#[trigger] frames[k], id),
    ensures
        ({
            let before = after_frames(core, frames.take(first));
            let ids = ready_ids(frames[first])->0;
            &&& before.step(frames[first]).1 == (Deed::<M, S>::Ready {
                handlers: ready_handlers(before.subs, ids),
                answer: Ok(()),
            })
            &&& ready_handlers(before.subs, ids.take(at + 1)) == ready_handlers(
                before.subs,
                ids.take(at),
            ) + core.subs[id].reverse()
            &&& fired(after_ready(before.subs, ids.take(at + 1)), id).len() == 0
        }),
{
    let front = frames.take(first);
    assert(!is_sub_answered(front, id)) by {
        if is_sub_answered(front, id) {
            let k = choose|k: int| 0 <= k < front.len() && answers_sub(#[trigger] front[k], id);
            assert(front[k] == frames[k]);
        }
    }
    law_one_answer_per_subscription(core, front, id);
    let before = after_frames(core, front);
    let ids = ready_ids(frames[first])->0;
    law_readiness_frames(before, frames[first]);
    law_answer_fires_once(before.subs, ids, at, core.subs[id]);
}

/// One step of a queue's life.
pub enum QueueOp {
    /// A frame joins the queue.
    Send(Seq<char>),
    /// The writer takes a frame, if one waits.
    Recv,
}

/// The frames that `ops` put into an empty queue, in the order in which
/// they joined.
pub open spec fn frames_sent(ops: Seq<QueueOp>) -> Seq<Seq<char>>
    decreases ops.len(),
{
    if ops.len() == 0 {
        Seq::empty()
    } else {
        match ops.last() {
            QueueOp::Send(frame) => frames_sent(ops.drop_last()).push(frame),
            QueueOp::Recv => frames_sent(ops.drop_last()),
        }
    }
}

/// The frames that wait in the queue after `ops`, oldest first.
pub open spec fn frames_waiting(ops: Seq<QueueOp>) -> Seq<Seq<char>>
    decreases ops.len(),
{
    if ops.len() == 0 {
        Seq::empty()
    } else {
        let before = frames_waiting(ops.drop_last());
        match ops.last() {
            QueueOp::Send(frame) => before.push(frame),
            QueueOp::Recv => if before.len() > 0 {
                before.skip(1)
            } else {
                before
            },
        }
    }
}

/// The frames that the writer has taken during `ops`, in the order in which
/// it took them.
pub open spec fn frames_written(ops: Seq<QueueOp>) -> Seq<Seq<char>>
    decreases ops.len(),
{
    if ops.len() == 0 {
        Seq::empty()
    } else {
        let before = frames_waiting(ops.drop_last());
        match ops.last() {
            QueueOp::Send(_) => frames_written(ops.drop_last()),
            QueueOp::Recv => if before.len() > 0 {
                frames_written(ops.drop_last()).push(before[0])
            } else {
                frames_written(ops.drop_last())
            },
        }
    }
}

/// Frames reach the wire in the order in which they joined the queue: at
/// every moment what has been written, followed by what waits, is what has
/// been sent.
pub proof fn law_queue_keeps_order(ops: Seq<QueueOp>)
    ensures
        frames_written(ops) + frames_waiting(ops) == frames_sent(ops),
    decreases ops.len(),
{
    if ops.len() > 0 {
        law_queue_keeps_order(ops.drop_last());
        let written = frames_written(ops.drop_last());
        let waiting = frames_waiting(ops.drop_last());
        match ops.last() {
            QueueOp::Send(frame) => {
                assert(written + waiting.push(frame) =~= (written + waiting).push(frame));
            },
            QueueOp::Recv => {
                if waiting.len() > 0 {
                    assert(written.push(waiting[0]) + waiting.skip(1) =~= written + waiting);
                }
            },
        }
    } else {
        assert(frames_written(ops) + frames_waiting(ops) =~= frames_sent(ops));
    }
}

/// Asking for a collection twice gives the same place both times, and the
/// second time changes nothing; what is at that place has the name that was
/// asked for, so a method call through either answer names the same
/// collection.
pub proof fn law_same_name_same_place<M, S, A, C, R>(core: CoreView<M, S, A, C, R>, name: Seq<char>)
    ensures
        core.with_collection(name).0.with_collection(name) == core.with_collection(name),
        0 <= core.with_collection(name).1 < core.with_collection(name).0.mongos.len(),
        core.with_collection(name).0.mongos[core.with_collection(name).1].name == name,
{
    lemma_index_of_name(core.mongos, name);
    if index_of_name(core.mongos, name) is None {
        let grown = core.mongos.push(CollectionView::fresh(name));
        assert(grown.last().name == name);
    }
}

/// Ending a subscription that does not exist does nothing. After a
/// subscription has been ended the collection has no id, so that
/// subscribing again proceeds under the id that is drawn then, with no
/// handler waiting yet, and sends that id.
pub proof fn law_unsubscribe_then_subscribe<M, S, A, C, R>(
    core: CoreView<M, S, A, C, R>,
    at: int,
    fresh: Seq<char>,
)
    requires
        0 <= at < core.mongos.len(),
    ensures
        core.mongos[at].sub_id is None ==> core.unsubscribed(at) == core,
        core.unsubscribed(at).mongos[at].sub_id is None,
        core.unsubscribed(at).subscribed(at, fresh).mongos[at].sub_id == Some(fresh),
        core.unsubscribed(at).subscribed(at, fresh).subs == core.subs.insert(fresh, Seq::empty()),
        core.unsubscribed(at).subscribed(at, fresh).transfer == core.unsubscribed(
            at,
        ).transfer.push(crate::messages::subscribe_text(fresh, core.mongos[at].name, None)),
{
    if core.mongos[at].sub_id is None {
        assert(core.mongos.update(at, core.mongos[at].with_sub(None)) =~= core.mongos);
    }
}

} // verus!
