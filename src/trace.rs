use vstd::prelude::*;

use crate::error::DeviceError;
use crate::operation::OpKind;
use crate::protocol::{failure, first_error, issue, outcome, Call, Response, Stage, Step, Transaction};

verus! {

/// Drives a transaction from step `s`, answering its calls with the responses
/// `rs` in turn: the calls it makes, and its result once it has one.
pub open spec fn run<SE, CE>(
    s: Step<SE, CE>,
    kinds: Seq<OpKind>,
    rs: Seq<Response<SE, CE>>,
) -> (Seq<Call>, Option<Result<(), DeviceError<SE, CE>>>)
    decreases rs.len(),
{
    match s {
        Step::Complete(r) => (Seq::empty(), Some(r)),
        Step::Issue(t, c) => if rs.len() == 0 {
            (seq![c], None)
        } else {
            let rest = run(t.next(kinds, rs[0]), kinds, rs.drop_first());
            (seq![c] + rest.0, rest.1)
        },
    }
}

/// The calls that a whole transaction over operations of the given kinds
/// makes, when its calls receive the responses `rs` in turn.
pub open spec fn calls<SE, CE>(kinds: Seq<OpKind>, rs: Seq<Response<SE, CE>>) -> Seq<Call> {
    run(Step::Issue(Transaction::initial(), Call::SetCsLow), kinds, rs).0
}

/// The result of that transaction, once it has returned.
pub open spec fn result<SE, CE>(
    kinds: Seq<OpKind>,
    rs: Seq<Response<SE, CE>>,
) -> Option<Result<(), DeviceError<SE, CE>>> {
    run(Step::Issue(Transaction::initial(), Call::SetCsLow), kinds, rs).1
}

/// The calls that carry out the operation of kind `k` at index `i`.
pub open spec fn calls_for(i: int, k: OpKind) -> Seq<Call> {
    match k {
        OpKind::Read => seq![Call::Read(i as usize)],
        OpKind::Write => seq![Call::Write(i as usize)],
        OpKind::Transfer => seq![Call::Transfer(i as usize)],
        OpKind::TransferInPlace => seq![Call::TransferInPlace(i as usize)],
        OpKind::DelayUs(us) => seq![Call::Flush, Call::DelayUs(us)],
    }
}

/// The calls that carry out the operations from index `i` on, in order.
pub open spec fn planned_from(kinds: Seq<OpKind>, i: int) -> Seq<Call>
    decreases kinds.len() - i,
{
    if 0 <= i < kinds.len() {
        calls_for(i, kinds[i]) + planned_from(kinds, i + 1)
    } else {
        Seq::empty()
    }
}

/// The calls that carry out all operations, in order.
pub open spec fn planned(kinds: Seq<OpKind>) -> Seq<Call> {
    planned_from(kinds, 0)
}

/// Whether response `r` to call `c` ends the operations: any error but on a
/// delay, which cannot fail.
pub open spec fn stops<SE, CE>(c: Call, r: Response<SE, CE>) -> bool {
    !(c is DelayUs) && failure(r) is Some
}

/// How many of the calls `q` are made when call `j` receives `rs[j]`: all of
/// them, or up to and including the first that stops.
pub open spec fn executed<SE, CE>(q: Seq<Call>, rs: Seq<Response<SE, CE>>) -> nat
    decreases q.len(),
{
    if q.len() == 0 {
        0
    } else if stops(q[0], rs[0]) {
        1
    } else {
        1 + executed(q.drop_first(), rs.drop_first())
    }
}

/// The error of the call among `q` that stopped the operations, if one did.
spec fn halt_error<SE, CE>(
    q: Seq<Call>,
    rs: Seq<Response<SE, CE>>,
) -> Option<DeviceError<SE, CE>>
    decreases q.len(),
{
    if q.len() == 0 {
        None
    } else if stops(q[0], rs[0]) {
        failure(rs[0])
    } else {
        halt_error(q.drop_first(), rs.drop_first())
    }
}

proof fn lemma_executed<SE, CE>(q: Seq<Call>, rs: Seq<Response<SE, CE>>)
    requires
        rs.len() >= q.len(),
    ensures
        executed(q, rs) <= q.len(),
        forall|j: int| 0 <= j < executed(q, rs) - 1 ==> !stops(#[trigger] q[j], rs[j]),
        executed(q, rs) < q.len() ==> executed(q, rs) >= 1 && stops(
            q[executed(q, rs) - 1],
            rs[executed(q, rs) - 1],
        ),
        halt_error(q, rs) == (if executed(q, rs) >= 1 && stops(
            q[executed(q, rs) - 1],
            rs[executed(q, rs) - 1],
        ) {
            failure(rs[executed(q, rs) - 1])
        } else {
            None
        }),
    decreases q.len(),
{
    if q.len() > 0 && !stops(q[0], rs[0]) {
        let q1 = q.drop_first();
        let rs1 = rs.drop_first();
        lemma_executed(q1, rs1);
        assert forall|j: int| 0 <= j < executed(q, rs) - 1 implies !stops(#[trigger] q[j], rs[j]) by {
            if j > 0 {
                assert(q[j] == q1[j - 1]);
                assert(rs[j] == rs1[j - 1]);
            }
        }
    }
}

proof fn lemma_planned_from_shape(kinds: Seq<OpKind>, i: int)
    requires
        0 <= i <= kinds.len(),
    ensures
        forall|j: int|
            0 <= j < planned_from(kinds, i).len() ==> !(#[trigger] planned_from(kinds, i)[j] is SetCsLow)
                && !(planned_from(kinds, i)[j] is SetCsHigh),
        forall|j: int|
            0 <= j < planned_from(kinds, i).len() && (#[trigger] planned_from(kinds, i)[j] is DelayUs)
                ==> j >= 1 && planned_from(kinds, i)[j - 1] == Call::Flush,
    decreases kinds.len() - i,
{
    if i < kinds.len() {
        lemma_planned_from_shape(kinds, i + 1);
        let head = calls_for(i, kinds[i]);
        let rest = planned_from(kinds, i + 1);
        let q = planned_from(kinds, i);
        assert(q == head + rest);
        assert forall|j: int| 0 <= j < q.len() && (#[trigger] q[j] is DelayUs) implies j >= 1 && q[j
            - 1] == Call::Flush by {
            if j >= head.len() {
                assert(q[j] == rest[j - head.len()]);
                if j - head.len() >= 1 {
                    assert(q[j - 1] == rest[j - head.len() - 1]);
                }
            }
        }
        assert forall|j: int| 0 <= j < q.len() implies !(#[trigger] q[j] is SetCsLow) && !(
        q[j] is SetCsHigh) by {
            if j >= head.len() {
                assert(q[j] == rest[j - head.len()]);
            }
        }
    }
}

/// The final flush and the deassertion, with `pending` the error so far.
proof fn lemma_close<SE, CE>(
    kinds: Seq<OpKind>,
    pending: Option<DeviceError<SE, CE>>,
    rs: Seq<Response<SE, CE>>,
)
    requires
        rs.len() >= 2,
    ensures
        run(Step::Issue(Transaction { stage: Stage::FinalFlush, pending }, Call::Flush), kinds, rs)
            == (
            seq![Call::Flush, Call::SetCsHigh],
            Some(outcome(first_error(pending, first_error(failure(rs[0]), failure(rs[1]))))),
        ),
{
    let rs1 = rs.drop_first();
    let t1 = Transaction::<SE, CE> {
        stage: Stage::Release,
        pending: first_error(pending, failure(rs[0])),
    };
    let s1 = Step::Issue(t1, Call::SetCsHigh);
    assert(t1.next(kinds, rs1[0]) == Step::<SE, CE>::Complete(
        outcome(first_error(pending, first_error(failure(rs[0]), failure(rs[1])))),
    ));
    let done = Step::<SE, CE>::Complete(
        outcome(first_error(pending, first_error(failure(rs[0]), failure(rs[1])))),
    );
    assert(run(done, kinds, rs1.drop_first()) == (
        Seq::<Call>::empty(),
        Some(outcome(first_error(pending, first_error(failure(rs[0]), failure(rs[1]))))),
    ));
    assert(run(s1, kinds, rs1) == (
        seq![Call::SetCsHigh] + Seq::<Call>::empty(),
        Some(outcome(first_error(pending, first_error(failure(rs[0]), failure(rs[1]))))),
    ));
    assert(seq![Call::Flush] + (seq![Call::SetCsHigh] + Seq::<Call>::empty()) =~= seq![
        Call::Flush,
        Call::SetCsHigh,
    ]);
}

/// Runs from the start of the operation at index `i`, with no error so far.
#[verifier::rlimit(40)]
proof fn lemma_run_from<SE, CE>(kinds: Seq<OpKind>, i: int, rs: Seq<Response<SE, CE>>)
    requires
        kinds.len() <= usize::MAX,
        0 <= i <= kinds.len(),
        rs.len() >= planned_from(kinds, i).len() + 2,
    ensures
        ({
            let q = planned_from(kinds, i);
            let k = executed(q, rs) as int;
            &&& k <= q.len()
            &&& run(issue(kinds, i, None), kinds, rs) == (
                q.take(k) + seq![Call::Flush, Call::SetCsHigh],
                Some(
                    outcome(
                        first_error(
                            halt_error(q, rs),
                            first_error(failure(rs[k]), failure(rs[k + 1])),
                        ),
                    ),
                ),
            )
        }),
    decreases kinds.len() - i,
{
    let q = planned_from(kinds, i);
    lemma_executed(q, rs);
    let rs1 = rs.drop_first();
    if i == kinds.len() {
        lemma_close(kinds, None, rs);
        assert(q.take(0) + seq![Call::Flush, Call::SetCsHigh] =~= seq![Call::Flush, Call::SetCsHigh]);
    } else {
        let head = calls_for(i, kinds[i]);
        let rest = planned_from(kinds, i + 1);
        assert(q == head + rest);
        let s0 = issue(kinds, i, None::<DeviceError<SE, CE>>);
        let t0 = s0->Issue_0;
        let c0 = s0->Issue_1;
        assert(c0 == head[0]);
        let s1 = t0.next(kinds, rs[0]);
        assert(run(s0, kinds, rs) == (seq![c0] + run(s1, kinds, rs1).0, run(s1, kinds, rs1).1));
        if failure(rs[0]) is Some {
            assert(stops(q[0], rs[0]));
            assert(executed(q, rs) == 1);
            assert(s1 == Step::Issue(
                Transaction::<SE, CE> { stage: Stage::FinalFlush, pending: failure(rs[0]) },
                Call::Flush,
            ));
            lemma_close(kinds, failure(rs[0]), rs1);
            assert(q.take(1) + seq![Call::Flush, Call::SetCsHigh] =~= seq![c0] + seq![
                Call::Flush,
                Call::SetCsHigh,
            ]);
        } else if kinds[i] is DelayUs {
            lemma_run_after_delay(kinds, i, rs);
        } else {
            assert(head.len() == 1);
            assert(s1 == issue(kinds, i + 1, None::<DeviceError<SE, CE>>));
            lemma_run_from(kinds, i + 1, rs1);
            let k1 = executed(rest, rs1) as int;
            assert(q.drop_first() =~= rest);
            assert(executed(q, rs) == 1 + k1);
            assert(halt_error(q, rs) == halt_error(rest, rs1));
            assert(rs[1 + k1] == rs1[k1]);
            assert(rs[2 + k1] == rs1[k1 + 1]);
            assert(q.take(1 + k1) + seq![Call::Flush, Call::SetCsHigh] =~= seq![c0] + (rest.take(k1)
                + seq![Call::Flush, Call::SetCsHigh]));
        }
    }
}

/// The step of `lemma_run_from` over a delay whose flush succeeds.
proof fn lemma_run_after_delay<SE, CE>(kinds: Seq<OpKind>, i: int, rs: Seq<Response<SE, CE>>)
    requires
        kinds.len() <= usize::MAX,
        0 <= i < kinds.len(),
        kinds[i] is DelayUs,
        failure(rs[0]) is None,
        rs.len() >= planned_from(kinds, i).len() + 2,
    ensures
        ({
            let q = planned_from(kinds, i);
            let k = executed(q, rs) as int;
            &&& k <= q.len()
            &&& run(issue(kinds, i, None), kinds, rs) == (
                q.take(k) + seq![Call::Flush, Call::SetCsHigh],
                Some(
                    outcome(
                        first_error(
                            halt_error(q, rs),
                            first_error(failure(rs[k]), failure(rs[k + 1])),
                        ),
                    ),
                ),
            )
        }),
    decreases kinds.len() - i, 0int,
{
    let q = planned_from(kinds, i);
    lemma_executed(q, rs);
    let us = kinds[i]->DelayUs_0;
    let rest = planned_from(kinds, i + 1);
    let dq = seq![Call::DelayUs(us)] + rest;
    assert(q =~= seq![Call::Flush] + dq);
    let rs1 = rs.drop_first();
    let rs2 = rs1.drop_first();
    let s0 = issue(kinds, i, None::<DeviceError<SE, CE>>);
    let t1 = Transaction::<SE, CE> { stage: Stage::Delay(i as usize), pending: None };
    let s1 = Step::Issue(t1, Call::DelayUs(us));
    assert(s0->Issue_0.next(kinds, rs[0]) == s1);
    assert(t1.next(kinds, rs1[0]) == issue(kinds, i + 1, None::<DeviceError<SE, CE>>));
    lemma_run_from(kinds, i + 1, rs2);
    let after = run(issue(kinds, i + 1, None::<DeviceError<SE, CE>>), kinds, rs2);
    assert(run(s1, kinds, rs1) == (seq![Call::DelayUs(us)] + after.0, after.1));
    assert(run(s0, kinds, rs) == (seq![Call::Flush] + run(s1, kinds, rs1).0, after.1));
    let k2 = executed(rest, rs2) as int;
    assert(q.drop_first() =~= dq);
    assert(dq.drop_first() =~= rest);
    assert(executed(dq, rs1) == 1 + k2);
    assert(executed(q, rs) == 2 + k2);
    assert(halt_error(q, rs) == halt_error(dq, rs1));
    assert(halt_error(dq, rs1) == halt_error(rest, rs2));
    assert(rs[2 + k2] == rs2[k2]);
    assert(rs[3 + k2] == rs2[k2 + 1]);
    assert(q.take(2 + k2) + seq![Call::Flush, Call::SetCsHigh] =~= seq![Call::Flush] + (seq![
        Call::DelayUs(us),
    ] + (rest.take(k2) + seq![Call::Flush, Call::SetCsHigh])));
}

/// The error that stopped the operations, if one did: the response to the
/// last of the `k` calls made, when that call stops.
pub open spec fn stop_error<SE, CE>(
    q: Seq<Call>,
    rs: Seq<Response<SE, CE>>,
    k: int,
) -> Option<DeviceError<SE, CE>> {
    if k >= 1 && stops(q[k - 1], rs[k - 1]) {
        failure(rs[k - 1])
    } else {
        None
    }
}

/// What a whole transaction does. It first asserts chip select; if that
/// fails, it makes no other call and reports that error. Otherwise it makes
/// the calls of its operations in order (a flush before each delay), all of
/// them or up to and including the first that fails, and then flushes and
/// deasserts chip select. It reports the first error among the failed
/// operation, the final flush and the deassertion, and succeeds when there is
/// none. Given a response for each call, it always returns.
pub proof fn lemma_transaction<SE, CE>(kinds: Seq<OpKind>, rs: Seq<Response<SE, CE>>)
    requires
        kinds.len() <= usize::MAX,
        rs.len() >= planned(kinds).len() + 3,
    ensures
        failure(rs[0]) is Some ==> calls(kinds, rs) == seq![Call::SetCsLow] && result(kinds, rs)
            == Some(outcome(failure(rs[0]))),
        failure(rs[0]) is None ==> ({
            let body = rs.drop_first();
            let q = planned(kinds);
            let k = executed(q, body) as int;
            &&& k <= q.len()
            &&& forall|j: int| 0 <= j < k - 1 ==> !stops(#[trigger] q[j], body[j])
            &&& k < q.len() ==> k >= 1 && stops(q[k - 1], body[k - 1])
            &&& calls(kinds, rs) == seq![Call::SetCsLow] + q.take(k) + seq![
                Call::Flush,
                Call::SetCsHigh,
            ]
            &&& result(kinds, rs) == Some(
                outcome(
                    first_error(
                        stop_error(q, body, k),
                        first_error(failure(body[k]), failure(body[k + 1])),
                    ),
                ),
            )
        }),
{
    let start = Step::Issue(Transaction::<SE, CE>::initial(), Call::SetCsLow);
    let body = rs.drop_first();
    let s1 = Transaction::<SE, CE>::initial().next(kinds, rs[0]);
    assert(run(start, kinds, rs) == (seq![Call::SetCsLow] + run(s1, kinds, body).0, run(
        s1,
        kinds,
        body,
    ).1));
    if failure(rs[0]) is Some {
        assert(run(s1, kinds, body) == (Seq::<Call>::empty(), Some(outcome(failure(rs[0])))));
        assert(seq![Call::SetCsLow] + Seq::<Call>::empty() =~= seq![Call::SetCsLow]);
    } else {
        let q = planned(kinds);
        lemma_executed(q, body);
        lemma_run_from(kinds, 0, body);
        let k = executed(q, body) as int;
        assert(seq![Call::SetCsLow] + (q.take(k) + seq![Call::Flush, Call::SetCsHigh])
            =~= seq![Call::SetCsLow] + q.take(k) + seq![Call::Flush, Call::SetCsHigh]);
    }
}

/// Chip select is asserted exactly once, by the first call. Once that
/// succeeds, it is deasserted exactly once, by the last call; when it fails,
/// no other call is made and that error is reported.
pub proof fn lemma_cs_bracketing<SE, CE>(kinds: Seq<OpKind>, rs: Seq<Response<SE, CE>>)
    requires
        kinds.len() <= usize::MAX,
        rs.len() >= planned(kinds).len() + 3,
    ensures
        ({
            let t = calls(kinds, rs);
            &&& result(kinds, rs) is Some
            &&& t.len() >= 1
            &&& t[0] == Call::SetCsLow
            &&& forall|j: int| 1 <= j < t.len() ==> #[trigger] t[j] != Call::SetCsLow
            &&& failure(rs[0]) is Some ==> t.len() == 1 && result(kinds, rs) == Some(
                outcome(failure(rs[0])),
            )
            &&& failure(rs[0]) is None ==> t.last() == Call::SetCsHigh && forall|j: int|
                0 <= j < t.len() - 1 ==> #[trigger] t[j] != Call::SetCsHigh
        }),
{
    lemma_transaction(kinds, rs);
    lemma_planned_from_shape(kinds, 0);
    let t = calls(kinds, rs);
    if failure(rs[0]) is None {
        let q = planned(kinds);
        let k = executed(q, rs.drop_first()) as int;
        assert forall|j: int| 1 <= j < t.len() implies #[trigger] t[j] != Call::SetCsLow by {
            if j <= k {
                assert(t[j] == q[j - 1]);
            }
        }
        assert forall|j: int| 0 <= j < t.len() - 1 implies #[trigger] t[j] != Call::SetCsHigh by {
            if 1 <= j <= k {
                assert(t[j] == q[j - 1]);
            }
        }
    }
}

/// Every delay comes right after a flush of the bus.
pub proof fn lemma_flush_before_delay<SE, CE>(kinds: Seq<OpKind>, rs: Seq<Response<SE, CE>>)
    requires
        kinds.len() <= usize::MAX,
        rs.len() >= planned(kinds).len() + 3,
    ensures
        forall|p: int|
            0 <= p < calls(kinds, rs).len() && (#[trigger] calls(kinds, rs)[p] is DelayUs) ==> p
                >= 1 && calls(kinds, rs)[p - 1] == Call::Flush,
{
    lemma_transaction(kinds, rs);
    lemma_planned_from_shape(kinds, 0);
    let t = calls(kinds, rs);
    if failure(rs[0]) is None {
        let q = planned(kinds);
        let k = executed(q, rs.drop_first()) as int;
        assert forall|p: int| 0 <= p < t.len() && (#[trigger] t[p] is DelayUs) implies p >= 1 && t[p
            - 1] == Call::Flush by {
            assert(1 <= p <= k);
            assert(t[p] == q[p - 1]);
            if p >= 2 {
                assert(t[p - 1] == q[p - 2]);
            }
        }
    }
}

/// When an operation fails, its error is the one reported, whatever the
/// final flush and the deassertion of chip select return.
pub proof fn lemma_error_priority<SE, CE>(kinds: Seq<OpKind>, rs: Seq<Response<SE, CE>>)
    requires
        kinds.len() <= usize::MAX,
        rs.len() >= planned(kinds).len() + 3,
        failure(rs[0]) is None,
        exists|j: int| 0 <= j < planned(kinds).len() && stops(planned(kinds)[j], #[trigger] rs[j + 1]),
    ensures
        exists|j: int|
            0 <= j < planned(kinds).len() && stops(planned(kinds)[j], #[trigger] rs[j + 1]) && (forall|
                m: int,
            | 0 <= m < j ==> !stops(planned(kinds)[m], #[trigger] rs[m + 1])) && result(kinds, rs)
                == Some(outcome(failure(rs[j + 1]))),
{
    lemma_transaction(kinds, rs);
    let q = planned(kinds);
    let body = rs.drop_first();
    let k = executed(q, body) as int;
    let j0 = choose|j: int| 0 <= j < q.len() && stops(q[j], #[trigger] rs[j + 1]);
    assert(body[j0] == rs[j0 + 1]);
    if !(k >= 1 && stops(q[k - 1], body[k - 1])) {
        assert(!stops(q[j0], body[j0]));
    }
    assert(body[k - 1] == rs[k]);
    assert forall|m: int| 0 <= m < k - 1 implies !stops(q[m], #[trigger] rs[m + 1]) by {
        assert(body[m] == rs[m + 1]);
        assert(!stops(q[m], body[m]));
    }
    assert(rs[(k - 1) + 1] == rs[k]);
}

/// A transaction with no operations asserts chip select, flushes, and
/// deasserts chip select; it succeeds when those three calls do.
pub proof fn lemma_empty_transaction<SE, CE>(rs: Seq<Response<SE, CE>>)
    requires
        rs.len() >= 3,
    ensures
        failure(rs[0]) is None ==> calls(Seq::<OpKind>::empty(), rs) == seq![
            Call::SetCsLow,
            Call::Flush,
            Call::SetCsHigh,
        ],
        failure(rs[0]) is None && failure(rs[1]) is None && failure(rs[2]) is None ==> result(
            Seq::<OpKind>::empty(),
            rs,
        ) == Some(Ok::<(), DeviceError<SE, CE>>(())),
{
    let kinds = Seq::<OpKind>::empty();
    assert(planned(kinds) == Seq::<Call>::empty());
    lemma_transaction(kinds, rs);
    let body = rs.drop_first();
    assert(executed(planned(kinds), body) == 0);
    assert(body[0] == rs[1]);
    assert(body[1] == rs[2]);
    assert(seq![Call::SetCsLow] + planned(kinds).take(0) + seq![Call::Flush, Call::SetCsHigh]
        =~= seq![Call::SetCsLow, Call::Flush, Call::SetCsHigh]);
}

} // verus!
