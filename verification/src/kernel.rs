//! A model of the kernel's side of the protocol, used to close the ring:
//! consuming published submissions in order, posting one completion per
//! consumed entry, spilling completions into an overflow queue when the
//! completion ring is full, and draining that queue on a get-events
//! transition.  The model performs no I/O: it completes every operation
//! with a zero result, as the live kernel does for a no-op.

use vstd::prelude::*;

verus! {

use crate::cq::CqView;
use crate::cqe::CQE;
use crate::sq::SqView;
use crate::sys::RawCQE;

/// Completions the kernel still holds because the ring was full, oldest
/// first, plus the count of entries dropped (always zero here: the model
/// kernel never drops).
pub struct Kernel {
    pub(crate) kflags: u32,
    pub(crate) dropped: u32,
    pub(crate) overflow: Vec<CQE>,
}

/// The completion posted for the submission at cursor `c`: the user data of
/// the entry the indirection table names there, a zero result, no flags.
pub open spec fn completion_of(sq: SqView, c: nat) -> CQE {
    CQE {
        cqe: RawCQE {
            user_data: sq.sqes[sq.slot_value(c) as int].raw.user_data,
            res: 0,
            flags: 0,
        },
    }
}

/// The completions for `n` submissions consumed from `sq.khead` on.
pub open spec fn completions_of(sq: SqView, n: nat) -> Seq<CQE> {
    Seq::new(n, |i: int| completion_of(sq, (sq.khead + i) as nat))
}

/// Delivery of one completion: into the ring while the ring has room and
/// nothing is queued ahead of it, else onto the overflow queue.
pub open spec fn deliver1(cq: CqView, ovf: Seq<CQE>, e: CQE) -> (CqView, Seq<CQE>) {
    if ovf.len() == 0 && cq.ready() < cq.entries {
        (cq.fill1(e), ovf)
    } else {
        (cq, ovf.push(e))
    }
}

/// Delivery of a batch, in order.
pub open spec fn deliver_seq(cq: CqView, ovf: Seq<CQE>, inc: Seq<CQE>) -> (CqView, Seq<CQE>)
    decreases inc.len(),
{
    if inc.len() == 0 {
        (cq, ovf)
    } else {
        let step = deliver1(cq, ovf, inc[0]);
        deliver_seq(step.0, step.1, inc.drop_first())
    }
}

/// The get-events drain: overflow moves into the ring, oldest first, until
/// the queue empties or the ring fills.
pub open spec fn drain(cq: CqView, ovf: Seq<CQE>) -> (CqView, Seq<CQE>)
    decreases ovf.len(),
{
    if ovf.len() > 0 && cq.ready() < cq.entries {
        drain(cq.fill1(ovf[0]), ovf.drop_first())
    } else {
        (cq, ovf)
    }
}

/// Delivering one more completion after a batch is one more delivery.
pub proof fn lemma_deliver_seq_snoc(cq: CqView, ovf: Seq<CQE>, s: Seq<CQE>, e: CQE)
    ensures
        deliver_seq(cq, ovf, s.push(e)) == {
            let mid = deliver_seq(cq, ovf, s);
            deliver1(mid.0, mid.1, e)
        },
    decreases s.len(),
{
    let first = deliver1(cq, ovf, s.push(e)[0]);
    assert(deliver_seq(cq, ovf, s.push(e)) == deliver_seq(first.0, first.1, s.push(e).drop_first()));
    if s.len() == 0 {
        assert(s.push(e).drop_first() =~= s);
        assert(s.push(e)[0] == e);
        assert(deliver_seq(first.0, first.1, s) == (first.0, first.1));
        assert(deliver_seq(cq, ovf, s) == (cq, ovf));
    } else {
        assert(s.push(e).drop_first() =~= s.drop_first().push(e));
        assert(s.push(e)[0] == s[0]);
        let step = deliver1(cq, ovf, s[0]);
        lemma_deliver_seq_snoc(step.0, step.1, s.drop_first(), e);
        assert(deliver_seq(cq, ovf, s) == deliver_seq(step.0, step.1, s.drop_first()));
    }
}

/// Delivery preserves well-formedness and conserves completions: what is
/// ready plus what is queued grows by exactly the batch.
pub proof fn lemma_deliver_seq_props(cq: CqView, ovf: Seq<CQE>, inc: Seq<CQE>)
    requires
        cq.wf(),
    ensures
        deliver_seq(cq, ovf, inc).0.wf(),
        deliver_seq(cq, ovf, inc).0.khead == cq.khead,
        deliver_seq(cq, ovf, inc).0.entries == cq.entries,
        deliver_seq(cq, ovf, inc).0.k == cq.k,
        deliver_seq(cq, ovf, inc).0.ready() + deliver_seq(cq, ovf, inc).1.len() == cq.ready()
            + ovf.len() + inc.len(),
        deliver_seq(cq, ovf, inc).0.ready() >= cq.ready(),
    decreases inc.len(),
{
    if inc.len() > 0 {
        let step = deliver1(cq, ovf, inc[0]);
        if ovf.len() == 0 && cq.ready() < cq.entries {
            assert(step.0.wf());
        }
        lemma_deliver_seq_props(step.0, step.1, inc.drop_first());
    }
}

/// Draining preserves well-formedness and conserves completions; it stops
/// only when the queue is empty or the ring is full, so what ends up ready
/// is everything there was, capped by the ring size.
pub proof fn lemma_drain_props(cq: CqView, ovf: Seq<CQE>)
    requires
        cq.wf(),
    ensures
        drain(cq, ovf).0.wf(),
        drain(cq, ovf).0.khead == cq.khead,
        drain(cq, ovf).0.entries == cq.entries,
        drain(cq, ovf).0.k == cq.k,
        drain(cq, ovf).0.ready() + drain(cq, ovf).1.len() == cq.ready() + ovf.len(),
        drain(cq, ovf).1.len() > 0 ==> drain(cq, ovf).0.ready() == cq.entries,
        cq.ready() + ovf.len() <= cq.entries ==> drain(cq, ovf).1.len() == 0,
        drain(cq, ovf).0.ready() >= cq.ready(),
    decreases ovf.len(),
{
    if ovf.len() > 0 && cq.ready() < cq.entries {
        assert(cq.fill1(ovf[0]).wf());
        lemma_drain_props(cq.fill1(ovf[0]), ovf.drop_first());
    }
}

/// A drain that ends with a non-empty queue has filled the ring; draining
/// again moves nothing: the flush transition is idempotent.
pub proof fn lemma_drain_idempotent(cq: CqView, ovf: Seq<CQE>)
    requires
        cq.wf(),
    ensures
        drain(drain(cq, ovf).0, drain(cq, ovf).1) == drain(cq, ovf),
{
    lemma_drain_props(cq, ovf);
    let c = drain(cq, ovf).0;
    let o = drain(cq, ovf).1;
    if o.len() > 0 {
        assert(c.ready() == cq.entries);
        assert(drain(c, o) == (c, o));
    } else {
        assert(drain(c, o) == (c, o));
    }
}

} // verus!
