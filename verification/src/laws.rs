use vstd::prelude::*;

use crate::broadcast::{neighbors_of, relays, replies, step, NodeView, RequestView,
    ResponseView};
use crate::envelope::MessageView;

verus! {

/// The node state after a whole run: the envelopes applied one at a
/// time, in arrival order.
pub open spec fn run(s: NodeView, ms: Seq<MessageView<RequestView>>) -> NodeView
    decreases ms.len(),
{
    if ms.len() == 0 {
        s
    } else {
        run(step(s, ms[0]), ms.skip(1))
    }
}

/// Whether this envelope delivers the broadcast value `v`.
pub open spec fn delivers_value(m: MessageView<RequestView>, v: i64) -> bool {
    m.body matches RequestView::Broadcast { message, .. } && message == v
}

/// The set of values that a sequence of envelopes broadcasts.
pub open spec fn broadcast_values(ms: Seq<MessageView<RequestView>>) -> Set<i64> {
    Set::new(|v: i64| exists|i: int| 0 <= i < ms.len() && delivers_value(ms[i], v))
}

/// The id every reply or relayed copy of this batch is stamped with.
pub open spec fn reply_msg_id(b: ResponseView) -> int {
    match b {
        ResponseView::InitOk { msg_id, .. } => msg_id,
        ResponseView::TopologyOk { msg_id, .. } => msg_id,
        ResponseView::BroadcastOk { msg_id, .. } => msg_id,
        ResponseView::ReadOk { msg_id, .. } => msg_id,
        ResponseView::Broadcast { msg_id, .. } => msg_id,
    }
}

/// The inbound id a response acknowledges, if it is a reply at all;
/// a relayed broadcast copy references nothing.
pub open spec fn reply_reference(b: ResponseView) -> Option<int> {
    match b {
        ResponseView::InitOk { in_reply_to, .. } => Some(in_reply_to),
        ResponseView::TopologyOk { in_reply_to, .. } => Some(in_reply_to),
        ResponseView::BroadcastOk { in_reply_to, .. } => Some(in_reply_to),
        ResponseView::ReadOk { in_reply_to, .. } => Some(in_reply_to),
        ResponseView::Broadcast { .. } => None,
    }
}

/// The id the inbound envelope carries.
pub open spec fn request_msg_id(b: RequestView) -> int {
    match b {
        RequestView::Init { msg_id, .. } => msg_id,
        RequestView::Topology { msg_id, .. } => msg_id,
        RequestView::Broadcast { msg_id, .. } => msg_id,
        RequestView::Read { msg_id, .. } => msg_id,
        RequestView::BroadcastOk { msg_id, .. } => msg_id,
    }
}

/// A duplicate-free list enumerates each member of its set once.
proof fn lemma_unique_count(s: Seq<i64>, v: i64)
    requires
        s.no_duplicates(),
        s.contains(v),
    ensures
        s.to_multiset().count(v) == 1,
{
    s.to_multiset_ensures();
    s.lemma_multiset_has_no_duplicates();
}

/// One accepted envelope keeps the node well-formed.
pub proof fn lemma_step_preserves_wf(s: NodeView, m: MessageView<RequestView>)
    requires
        s.wf(),
    ensures
        step(s, m).wf(),
{
    match m.body {
        RequestView::Broadcast { message, .. } => {
            if s.seen.contains(message) {
                assert(s.seen.insert(message) =~= s.seen);
            } else {
                s.delivered.lemma_push_to_set_commute(message);
                assert(!s.delivered.contains(message));
                assert(step(s, m).delivered.no_duplicates());
                assert(step(s, m).delivered.to_set() =~= step(s, m).seen);
            }
        },
        _ => {},
    }
}

/// A whole run keeps the node well-formed.
pub proof fn lemma_run_preserves_wf(s: NodeView, ms: Seq<MessageView<RequestView>>)
    requires
        s.wf(),
    ensures
        run(s, ms).wf(),
    decreases ms.len(),
{
    if ms.len() > 0 {
        lemma_step_preserves_wf(s, ms[0]);
        lemma_run_preserves_wf(step(s, ms[0]), ms.skip(1));
    }
}

/// Law: delivering a value never removes anything already delivered,
/// and after a run the delivered-value set is exactly the starting set
/// joined with every value the run broadcast. In particular a `Read`
/// returns precisely the distinct values broadcast so far, never more,
/// never fewer.
pub proof fn lemma_run_seen_exact(s: NodeView, ms: Seq<MessageView<RequestView>>)
    ensures
        run(s, ms).seen == s.seen + broadcast_values(ms),
    decreases ms.len(),
{
    if ms.len() == 0 {
        assert(broadcast_values(ms) =~= Set::<i64>::empty());
        assert(run(s, ms).seen =~= s.seen + broadcast_values(ms));
    } else {
        let head = ms[0];
        let tail = ms.skip(1);
        lemma_run_seen_exact(step(s, head), tail);
        assert forall|v: i64| run(s, ms).seen.contains(v) implies (s.seen
            + broadcast_values(ms)).contains(v) by {
            if !s.seen.contains(v) && !step(s, head).seen.contains(v) {
                let i = choose|i: int| 0 <= i < tail.len() && delivers_value(tail[i], v);
                assert(delivers_value(ms[i + 1], v));
            } else if !s.seen.contains(v) {
                assert(delivers_value(ms[0], v));
            }
        }
        assert forall|v: i64| (s.seen + broadcast_values(ms)).contains(v) implies run(
            s,
            ms,
        ).seen.contains(v) by {
            if broadcast_values(ms).contains(v) {
                let i = choose|i: int| 0 <= i < ms.len() && delivers_value(ms[i], v);
                if i == 0 {
                    assert(step(s, head).seen.contains(v));
                } else {
                    assert(delivers_value(tail[i - 1], v));
                    assert(broadcast_values(tail).contains(v));
                }
            } else {
                assert(step(s, head).seen.contains(v) || s.seen.contains(v));
                if !step(s, head).seen.contains(v) {
                    assert(s.seen.contains(v));
                }
            }
        }
        assert(run(s, ms).seen =~= s.seen + broadcast_values(ms));
    }
}

/// Law: however many times the same value is delivered to the node,
/// the delivered-value list holds it exactly once afterwards.
pub proof fn lemma_broadcast_idempotent(s: NodeView, ms: Seq<MessageView<RequestView>>, v: i64)
    requires
        s.wf(),
        ms.len() > 0,
        forall|i: int| 0 <= i < ms.len() ==> delivers_value(ms[i], v),
    ensures
        run(s, ms).wf(),
        run(s, ms).seen.contains(v),
        run(s, ms).delivered.to_multiset().count(v) == 1,
{
    lemma_run_preserves_wf(s, ms);
    lemma_run_seen_exact(s, ms);
    assert(delivers_value(ms[0], v));
    assert(broadcast_values(ms).contains(v));
    assert(run(s, ms).delivered.to_set().contains(v));
    assert(run(s, ms).delivered.contains(v));
    lemma_unique_count(run(s, ms).delivered, v);
}

/// Law: a read after any run from a fresh node returns precisely the
/// set of distinct values broadcast so far, never more, never fewer:
/// the single reply lists each such value exactly once.
pub proof fn lemma_read_returns_exactly_what_was_broadcast(
    ms: Seq<MessageView<RequestView>>,
    m: MessageView<RequestView>,
)
    requires
        m.body is Read,
    ensures
        ({
            let s = run(NodeView::fresh(), ms);
            &&& replies(s, m).len() == 1
            &&& (replies(s, m)[0].body matches ResponseView::ReadOk { messages, .. }
                && messages.no_duplicates() && messages.to_set() == broadcast_values(ms))
        }),
{
    let fresh = NodeView::fresh();
    assert(fresh.delivered.to_set() =~= fresh.seen);
    lemma_run_preserves_wf(fresh, ms);
    lemma_run_seen_exact(fresh, ms);
    assert(fresh.seen + broadcast_values(ms) =~= broadcast_values(ms));
}

/// Every element of a flood batch is a relayed broadcast copy that is
/// stamped with `stamp`, originates at `label`, and is addressed to a
/// neighbor other than the direct sender.
proof fn lemma_relays_shape(
    neighbors: Seq<Seq<char>>,
    sender: Seq<char>,
    label: Seq<char>,
    stamp: int,
    value: i64,
)
    ensures
        forall|i: int| #![trigger relays(neighbors, sender, label, stamp, value)[i]]
            0 <= i < relays(neighbors, sender, label, stamp, value).len() ==> {
                let out = relays(neighbors, sender, label, stamp, value)[i];
                &&& out.body is Broadcast
                &&& out.dest != sender
                &&& out.src == label
                &&& reply_msg_id(out.body) == stamp
            },
    decreases neighbors.len(),
{
    if neighbors.len() > 0 {
        lemma_relays_shape(neighbors.skip(1), sender, label, stamp, value);
    }
}

/// Law: flooding never sends a broadcast copy back to the neighbor it
/// came from in the same relay step.
pub proof fn lemma_no_reflection(s: NodeView, m: MessageView<RequestView>)
    ensures
        forall|i: int| #![trigger replies(s, m)[i]]
            0 <= i < replies(s, m).len() && replies(s, m)[i].body is Broadcast ==> replies(
                s,
                m,
            )[i].dest != m.src,
{
    match m.body {
        RequestView::Broadcast { message, .. } => {
            lemma_relays_shape(neighbors_of(s.topology, s.label), m.src, s.label,
                s.id_counter + 1, message);
        },
        _ => {},
    }
}

/// Law: every reply's `in_reply_to` equals the `msg_id` of the
/// envelope it answers.
pub proof fn lemma_replies_reference_request(s: NodeView, m: MessageView<RequestView>)
    ensures
        forall|i: int| #![trigger replies(s, m)[i]]
            0 <= i < replies(s, m).len() && reply_reference(replies(s, m)[i].body) is Some
                ==> reply_reference(replies(s, m)[i].body) == Some(request_msg_id(m.body)),
{
    match m.body {
        RequestView::Broadcast { message, .. } => {
            lemma_relays_shape(neighbors_of(s.topology, s.label), m.src, s.label,
                s.id_counter + 1, message);
        },
        _ => {},
    }
}

/// Every outbound envelope of one batch is stamped with the counter
/// value bumped for that envelope.
pub proof fn lemma_replies_stamp(s: NodeView, m: MessageView<RequestView>)
    ensures
        forall|i: int| #![trigger replies(s, m)[i]]
            0 <= i < replies(s, m).len() ==> reply_msg_id(replies(s, m)[i].body) == s.id_counter
                + 1,
{
    match m.body {
        RequestView::Broadcast { message, .. } => {
            lemma_relays_shape(neighbors_of(s.topology, s.label), m.src, s.label,
                s.id_counter + 1, message);
        },
        _ => {},
    }
}

/// The counter advances by exactly one per envelope of the run.
pub proof fn lemma_run_counter(s: NodeView, ms: Seq<MessageView<RequestView>>)
    ensures
        run(s, ms).id_counter == s.id_counter + ms.len(),
    decreases ms.len(),
{
    if ms.len() > 0 {
        lemma_run_counter(step(s, ms[0]), ms.skip(1));
    }
}

/// The id stamped on everything the `k`-th envelope of a run produces.
pub open spec fn stamp_at(s: NodeView, ms: Seq<MessageView<RequestView>>, k: int) -> int {
    run(s, ms.take(k)).id_counter + 1
}

/// Law: outbound message ids strictly increase across the node's whole
/// run, and a fresh node stamps its very first batch with id 1.
pub proof fn lemma_ids_strictly_increase(
    s: NodeView,
    ms: Seq<MessageView<RequestView>>,
    j: int,
    k: int,
)
    requires
        0 <= j < k < ms.len(),
    ensures
        stamp_at(s, ms, j) < stamp_at(s, ms, k),
        stamp_at(s, ms, j) == s.id_counter + j + 1,
        forall|i: int| #![trigger replies(run(s, ms.take(j)), ms[j])[i]]
            0 <= i < replies(run(s, ms.take(j)), ms[j]).len() ==> reply_msg_id(
                replies(run(s, ms.take(j)), ms[j])[i].body,
            ) == stamp_at(s, ms, j),
        s == NodeView::fresh() ==> stamp_at(s, ms, 0) == 1,
{
    lemma_run_counter(s, ms.take(j));
    lemma_run_counter(s, ms.take(k));
    lemma_run_counter(s, ms.take(0));
    lemma_replies_stamp(run(s, ms.take(j)), ms[j]);
}

} // verus!
