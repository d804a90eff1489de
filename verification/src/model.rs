use vstd::multiset::Multiset;
use vstd::prelude::*;
use vstd::seq_lib::lemma_multiset_commutative;

verus! {

/// One queue operation of a serialized history.
///
/// Concurrent handlers serialize their queue access, so every execution
/// of the server orders its operations into one such history: the order
/// of arrival at the exclusion point. `Publish` carries the message it
/// appends; `Retrieve` takes the oldest message, if any.
pub enum QueueOp {
    Publish(Seq<char>),
    Retrieve,
}

/// The queue contents after `op` acts on `q`: exactly what the
/// contracts of `MessageQueue::enqueue` and `MessageQueue::dequeue`
/// ensure of one call.
pub open spec fn step_queue(q: Seq<Seq<char>>, op: QueueOp) -> Seq<Seq<char>> {
    match op {
        QueueOp::Publish(m) => q.push(m),
        QueueOp::Retrieve => if q.len() == 0 {
            q
        } else {
            q.drop_first()
        },
    }
}

/// What `op` returns when acting on `q`: a publish returns nothing, a
/// retrieve returns the oldest message or nothing when `q` is empty.
pub open spec fn step_output(q: Seq<Seq<char>>, op: QueueOp) -> Option<Seq<char>> {
    match op {
        QueueOp::Publish(_) => None,
        QueueOp::Retrieve => if q.len() == 0 {
            None
        } else {
            Some(q[0])
        },
    }
}

/// The queue contents after the whole history `ops` acts on `q`, in
/// order.
pub open spec fn run_queue(q: Seq<Seq<char>>, ops: Seq<QueueOp>) -> Seq<Seq<char>>
    decreases ops.len(),
{
    if ops.len() == 0 {
        q
    } else {
        run_queue(step_queue(q, ops[0]), ops.drop_first())
    }
}

/// The messages the retrieves of the history `ops` deliver when the
/// history acts on `q`, in delivery order.
pub open spec fn delivered(q: Seq<Seq<char>>, ops: Seq<QueueOp>) -> Seq<Seq<char>>
    decreases ops.len(),
{
    if ops.len() == 0 {
        Seq::<Seq<char>>::empty()
    } else {
        let rest = delivered(step_queue(q, ops[0]), ops.drop_first());
        match step_output(q, ops[0]) {
            Some(m) => seq![m] + rest,
            None => rest,
        }
    }
}

/// The messages the history `ops` publishes, in order.
pub open spec fn published(ops: Seq<QueueOp>) -> Seq<Seq<char>>
    decreases ops.len(),
{
    if ops.len() == 0 {
        Seq::<Seq<char>>::empty()
    } else {
        match ops[0] {
            QueueOp::Publish(m) => seq![m] + published(ops.drop_first()),
            QueueOp::Retrieve => published(ops.drop_first()),
        }
    }
}

/// The history that publishes `msgs` one by one, in order.
pub open spec fn publishes(msgs: Seq<Seq<char>>) -> Seq<QueueOp> {
    msgs.map_values(|m: Seq<char>| QueueOp::Publish(m))
}

/// The history of `k` retrieves.
pub open spec fn retrieves(k: nat) -> Seq<QueueOp> {
    Seq::new(k, |i: int| QueueOp::Retrieve)
}

/// The history in which `arrivals` are all published, in that arrival
/// order, before any retrieve, and then retrieved as often as messages
/// were published.
pub open spec fn publish_then_retrieve(arrivals: Seq<Seq<char>>) -> Seq<QueueOp> {
    publishes(arrivals) + retrieves(arrivals.len())
}

proof fn lemma_run_publishes(q: Seq<Seq<char>>, msgs: Seq<Seq<char>>, tail: Seq<QueueOp>)
    ensures
        run_queue(q, publishes(msgs) + tail) == run_queue(q + msgs, tail),
        delivered(q, publishes(msgs) + tail) == delivered(q + msgs, tail),
        published(publishes(msgs) + tail) == msgs + published(tail),
    decreases msgs.len(),
{
    if msgs.len() == 0 {
        assert(publishes(msgs) + tail =~= tail);
        assert(q + msgs =~= q);
        assert(msgs + published(tail) =~= published(tail));
    } else {
        let ops = publishes(msgs) + tail;
        assert(ops[0] == QueueOp::Publish(msgs[0]));
        assert(ops.drop_first() =~= publishes(msgs.drop_first()) + tail);
        lemma_run_publishes(q.push(msgs[0]), msgs.drop_first(), tail);
        assert(q.push(msgs[0]) + msgs.drop_first() =~= q + msgs);
        assert(seq![msgs[0]] + (msgs.drop_first() + published(tail)) =~= msgs + published(
            tail,
        ));
    }
}

proof fn lemma_run_retrieves(q: Seq<Seq<char>>)
    ensures
        run_queue(q, retrieves(q.len())).len() == 0,
        delivered(q, retrieves(q.len())) == q,
        published(retrieves(q.len())).len() == 0,
    decreases q.len(),
{
    if q.len() == 0 {
        assert(retrieves(0) =~= Seq::<QueueOp>::empty());
    } else {
        let ops = retrieves(q.len());
        assert(ops[0] == QueueOp::Retrieve);
        assert(ops.drop_first() =~= retrieves(q.drop_first().len()));
        lemma_run_retrieves(q.drop_first());
        assert(seq![q[0]] + q.drop_first() =~= q);
    }
}

/// FIFO law: when the messages `msgs` are all published, in that order,
/// before any retrieve, the first `msgs.len()` retrieves deliver
/// exactly `msgs`, in that order, and drain the queue.
pub proof fn lemma_fifo(msgs: Seq<Seq<char>>)
    ensures
        delivered(Seq::<Seq<char>>::empty(), publish_then_retrieve(msgs)) == msgs,
        run_queue(Seq::<Seq<char>>::empty(), publish_then_retrieve(msgs)).len() == 0,
{
    lemma_run_publishes(Seq::<Seq<char>>::empty(), msgs, retrieves(msgs.len()));
    assert(Seq::<Seq<char>>::empty() + msgs =~= msgs);
    lemma_run_retrieves(msgs);
}

/// Exactly-once delivery: however the concurrent publishes of the
/// messages `arrivals` were serialized (their arrival order is the
/// order of `arrivals` itself), as many retrieves as publishes deliver
/// exactly one message per publish — the multiset delivered equals the
/// multiset published: no message is lost and none is duplicated, and
/// no delivered message is anything but one of the published ones.
pub proof fn lemma_exactly_once(arrivals: Seq<Seq<char>>)
    ensures
        published(publish_then_retrieve(arrivals)) == arrivals,
        delivered(Seq::<Seq<char>>::empty(), publish_then_retrieve(arrivals)).len()
            == arrivals.len(),
        delivered(Seq::<Seq<char>>::empty(), publish_then_retrieve(arrivals)).to_multiset()
            == published(publish_then_retrieve(arrivals)).to_multiset(),
{
    lemma_run_publishes(Seq::<Seq<char>>::empty(), arrivals, retrieves(arrivals.len()));
    lemma_run_retrieves(arrivals);
    lemma_fifo(arrivals);
    assert(arrivals + published(retrieves(arrivals.len())) =~= arrivals);
}

/// Conservation law, for every serialized history `ops` acting on a
/// queue holding `q`, however publishes and retrieves interleave:
/// counting multiplicity, the messages initially queued together with
/// the messages published are exactly the messages delivered together
/// with the messages still queued at the end. No message is lost, none
/// is duplicated, and nothing is ever delivered that was not published
/// or initially queued.
pub proof fn lemma_conservation(q: Seq<Seq<char>>, ops: Seq<QueueOp>)
    ensures
        q.to_multiset().add(published(ops).to_multiset()) == run_queue(q, ops).to_multiset().add(
            delivered(q, ops).to_multiset(),
        ),
    decreases ops.len(),
{
    broadcast use vstd::seq_lib::group_to_multiset_ensures;
    broadcast use vstd::multiset::group_multiset_axioms;

    if ops.len() == 0 {
        assert(published(ops).to_multiset() =~= Multiset::<Seq<char>>::empty());
        assert(delivered(q, ops).to_multiset() =~= Multiset::<Seq<char>>::empty());
        assert(q.to_multiset().add(published(ops).to_multiset()) =~= run_queue(
            q,
            ops,
        ).to_multiset().add(delivered(q, ops).to_multiset()));
    } else {
        let rest = ops.drop_first();
        let q1 = step_queue(q, ops[0]);
        lemma_conservation(q1, rest);
        match ops[0] {
            QueueOp::Publish(m) => {
                assert(seq![m] =~= Seq::<Seq<char>>::empty().push(m));
                assert(Seq::<Seq<char>>::empty().to_multiset() =~= Multiset::<Seq<char>>::empty());
                lemma_multiset_commutative(seq![m], published(rest));
                assert(q.to_multiset().add(published(ops).to_multiset()) =~= run_queue(
                    q,
                    ops,
                ).to_multiset().add(delivered(q, ops).to_multiset()));
            },
            QueueOp::Retrieve => {
                if q.len() == 0 {
                } else {
                    assert(q =~= seq![q[0]] + q.drop_first());
                    lemma_multiset_commutative(seq![q[0]], q.drop_first());
                    assert(seq![q[0]] =~= Seq::<Seq<char>>::empty().push(q[0]));
                    assert(Seq::<Seq<char>>::empty().to_multiset() =~= Multiset::<
                        Seq<char>,
                    >::empty());
                    assert(delivered(q, ops) == seq![q[0]] + delivered(q1, rest));
                    lemma_multiset_commutative(seq![q[0]], delivered(q1, rest));
                    assert(q.to_multiset() == seq![q[0]].to_multiset().add(
                        q.drop_first().to_multiset(),
                    ));
                    assert(delivered(q, ops).to_multiset() == seq![q[0]].to_multiset().add(
                        delivered(q1, rest).to_multiset(),
                    ));
                    assert(published(ops) == published(rest));
                    assert(run_queue(q, ops) == run_queue(q1, rest));
                    assert forall|x: Seq<char>|
                        q.to_multiset().add(published(ops).to_multiset()).count(x) == run_queue(
                            q,
                            ops,
                        ).to_multiset().add(delivered(q, ops).to_multiset()).count(x) by {
                        assert(q1.to_multiset().add(published(rest).to_multiset()).count(x)
                            == run_queue(q1, rest).to_multiset().add(
                            delivered(q1, rest).to_multiset(),
                        ).count(x));
                        assert(q.to_multiset().count(x) == seq![q[0]].to_multiset().count(x)
                            + q.drop_first().to_multiset().count(x));
                        assert(delivered(q, ops).to_multiset().count(x)
                            == seq![q[0]].to_multiset().count(x) + delivered(
                            q1,
                            rest,
                        ).to_multiset().count(x));
                    }
                    assert(q.to_multiset().add(published(ops).to_multiset()) =~= run_queue(
                        q,
                        ops,
                    ).to_multiset().add(delivered(q, ops).to_multiset()));
                }
            },
        }
    }
}

/// A retrieve on an empty queue delivers nothing and leaves the queue
/// unchanged (empty): the empty-queue outcome mutates no state.
pub proof fn lemma_retrieve_on_empty(q: Seq<Seq<char>>)
    requires
        q.len() == 0,
    ensures
        step_queue(q, QueueOp::Retrieve) == q,
        step_output(q, QueueOp::Retrieve) is None,
{
}

/// The queue operation a parsed command performs.
pub open spec fn command_op(c: crate::parser::CommandView) -> QueueOp {
    match c {
        crate::parser::CommandView::Publish(m) => QueueOp::Publish(m),
        crate::parser::CommandView::Retrieve => QueueOp::Retrieve,
    }
}

/// Handling one request advances the queue by exactly one step of the
/// history model: a request that parses acts as its command's
/// operation, and a request that does not parse is no operation at all.
pub proof fn lemma_request_steps_model(q: Seq<Seq<char>>, request: Seq<char>)
    ensures
        crate::handler::next_queue(q, request) == (match crate::parser::spec_parse(request) {
            Ok(c) => step_queue(q, command_op(c)),
            Err(_) => q,
        }),
{
}

} // verus!
