use crate::connectors::traits::Connector;
use crate::global::enums::DriverError;
use vstd::prelude::*;

verus! {

/// One register write addressed to one device of the chain.
#[derive(Debug, Clone, Copy, PartialEq, Eq, Structural)]
pub struct RegisterWrite {
    /// Position of the device in the chain, 0 being the first.
    pub device: usize,
    /// The register address byte.
    pub register: u8,
    /// The data byte.
    pub data: u8,
}

/// A register write that was handed to a connector, with what the connector answered.
#[derive(Debug, Clone, Copy, PartialEq, Eq)]
pub struct Exchange {
    pub write: RegisterWrite,
    pub outcome: Result<(), DriverError>,
}

/// Every write of `plan` goes to a device of a chain of `devices` devices.
pub open spec fn within_chain(plan: Seq<RegisterWrite>, devices: usize) -> bool {
    forall|i: int| 0 <= i < plan.len() ==> (#[trigger] plan[i]).device < devices
}

/// The writes of a trace, without their outcomes.
pub open spec fn writes_of(trace: Seq<Exchange>) -> Seq<RegisterWrite> {
    Seq::new(trace.len(), |i: int| trace[i].write)
}

/// What a run of exchanges returns: the answer to the last of them, and success if there
/// was none.
pub open spec fn result_of(done: Seq<Exchange>) -> Result<(), DriverError> {
    if done.len() == 0 {
        Ok(())
    } else {
        done.last().outcome
    }
}

/// `done` is what carrying out `plan` in order, one write at a time and stopping at the first
/// failure, leaves behind when it returns `r`:
/// the writes of `done` are the first writes of `plan`, every exchange before the last
/// succeeded, `r` is the answer to the last one, and `r` is a success only when the whole plan
/// was carried out.
pub open spec fn ran(done: Seq<Exchange>, plan: Seq<RegisterWrite>, r: Result<(), DriverError>) -> bool {
    &&& done.len() <= plan.len()
    &&& forall|i: int| 0 <= i < done.len() ==> (#[trigger] done[i]).write == plan[i]
    &&& forall|i: int| 0 <= i < done.len() - 1 ==> (#[trigger] done[i]).outcome is Ok
    &&& r == result_of(done)
    &&& r is Ok ==> done.len() == plan.len()
}

/// Between the traces `before` and `after`, `plan` was carried out with result `r` and
/// nothing else happened: `after` is `before` followed by a run of `plan` that returns `r`.
pub open spec fn carried_out(
    before: Seq<Exchange>,
    after: Seq<Exchange>,
    plan: Seq<RegisterWrite>,
    r: Result<(), DriverError>,
) -> bool {
    &&& before.len() <= after.len()
    &&& after.take(before.len() as int) == before
    &&& ran(after.skip(before.len() as int), plan, r)
}

/// Where the exchanges of a carried-out plan stand in the trace: the exchange for the
/// write of index `i` of the plan, if the run got that far, stands `i` places after the end
/// of the trace as it was before; it succeeded unless it is the last of the trace.
pub proof fn lemma_exchange_at(
    before: Seq<Exchange>,
    after: Seq<Exchange>,
    plan: Seq<RegisterWrite>,
    r: Result<(), DriverError>,
    i: int,
)
    requires
        carried_out(before, after, plan, r),
        0 <= i < after.len() - before.len(),
    ensures
        i < plan.len(),
        after[before.len() + i].write == plan[i],
        before.len() + i < after.len() - 1 ==> after[before.len() + i].outcome is Ok,
        before.len() + i == after.len() - 1 ==> after[before.len() + i].outcome == r,
        r is Ok ==> after.len() == before.len() + plan.len(),
{
    let done = after.skip(before.len() as int);
    assert(done[i] == after[before.len() + i]);
}

/// A trace that never left the chain does not leave it by carrying out a plan that stays
/// within the chain.
pub proof fn lemma_trace_stays_within_chain(
    before: Seq<Exchange>,
    after: Seq<Exchange>,
    plan: Seq<RegisterWrite>,
    r: Result<(), DriverError>,
    devices: usize,
)
    requires
        carried_out(before, after, plan, r),
        within_chain(writes_of(before), devices),
        within_chain(plan, devices),
    ensures
        within_chain(writes_of(after), devices),
{
    let b = before.len() as int;
    assert forall|i: int| 0 <= i < after.len() implies (#[trigger] writes_of(after)[i]).device
        < devices by {
        if i < b {
            assert(after[i] == after.take(b)[i]);
            assert(writes_of(before)[i].device < devices);
        } else {
            assert(after[i] == after.skip(b)[i - b]);
            assert(plan[i - b].device < devices);
        }
    }
}

/// There is one success: an outcome that is no failure is `Ok(())`.
pub proof fn lemma_one_success(r: Result<(), DriverError>)
    requires
        r is Ok,
    ensures
        r == Ok::<(), DriverError>(()),
{
    match r {
        Ok(u) => {
            assert(u == ());
        },
        Err(_) => {},
    }
}

/// Carrying out the empty plan leaves the trace as it is and succeeds.
pub proof fn lemma_empty_plan(trace: Seq<Exchange>)
    ensures
        carried_out(trace, trace, Seq::empty(), Ok(())),
{
    assert(trace.take(trace.len() as int) =~= trace);
}

/// One exchange appended to the trace carries out the plan made of its write alone.
pub proof fn lemma_single_write(before: Seq<Exchange>, x: Exchange)
    ensures
        carried_out(before, before.push(x), seq![x.write], x.outcome),
{
    let after = before.push(x);
    assert(after.take(before.len() as int) =~= before);
    assert(after.skip(before.len() as int) =~= seq![x]);
}

/// A plan carried out with success, followed by a second plan carried out with result `r`,
/// is the two plans carried out one after the other with result `r`.
pub proof fn lemma_plans_compose(
    before: Seq<Exchange>,
    mid: Seq<Exchange>,
    after: Seq<Exchange>,
    first: Seq<RegisterWrite>,
    second: Seq<RegisterWrite>,
    r: Result<(), DriverError>,
)
    requires
        carried_out(before, mid, first, Ok(())),
        carried_out(mid, after, second, r),
    ensures
        carried_out(before, after, first + second, r),
{
    let b = before.len() as int;
    let m = mid.len() as int;
    let head = mid.skip(b);
    let tail = after.skip(m);
    let done = after.skip(b);
    assert(after.take(b) =~= before) by {
        assert(after.take(m).take(b) =~= after.take(b));
    }
    assert(done =~= head + tail) by {
        assert forall|i: int| 0 <= i < done.len() implies done[i] == (head + tail)[i] by {
            if i < head.len() {
                assert(after.take(m)[b + i] == mid[b + i]);
            }
        }
    }
    assert(head.len() == first.len());
    if tail.len() == 0 {
        if head.len() > 0 {
            assert(done.last() == head.last());
        }
    } else {
        assert(done.last() == tail.last());
    }
    assert forall|i: int| 0 <= i < done.len() - 1 implies (#[trigger] done[i]).outcome is Ok by {
        if i < head.len() {
            if i == head.len() - 1 {
                assert(head.last().outcome is Ok);
            }
        } else {
            assert(done[i] == tail[i - head.len()]);
        }
    }
    assert forall|i: int| 0 <= i < done.len() implies (#[trigger] done[i]).write == (first
        + second)[i] by {
        if i >= head.len() {
            assert(done[i] == tail[i - head.len()]);
        }
    }
}

/// A plan that failed on the way has failed in the same way as the beginning of any longer
/// plan: nothing after the failure is attempted.
pub proof fn lemma_failure_ends_plan(
    before: Seq<Exchange>,
    after: Seq<Exchange>,
    first: Seq<RegisterWrite>,
    rest: Seq<RegisterWrite>,
    e: DriverError,
)
    requires
        carried_out(before, after, first, Err(e)),
    ensures
        carried_out(before, after, first + rest, Err(e)),
{
}

/// One more part of a plan. After the first `k` writes of `plan` succeeded, carrying out
/// `part`, the writes of `plan` that come next, brings the run that far along `plan`; and
/// if `part` failed, the whole plan has failed in the same way.
pub proof fn lemma_next_part(
    before: Seq<Exchange>,
    mid: Seq<Exchange>,
    after: Seq<Exchange>,
    plan: Seq<RegisterWrite>,
    k: int,
    part: Seq<RegisterWrite>,
    r: Result<(), DriverError>,
)
    requires
        0 <= k,
        k + part.len() <= plan.len(),
        plan.subrange(k, k + part.len()) == part,
        carried_out(before, mid, plan.take(k), Ok(())),
        carried_out(mid, after, part, r),
    ensures
        carried_out(before, after, plan.take(k + part.len()), r),
        r is Ok ==> carried_out(before, after, plan.take(k + part.len()), Ok(())),
        r is Err ==> carried_out(before, after, plan, r),
        k + part.len() == plan.len() ==> carried_out(before, after, plan, r),
{
    let n = k + part.len();
    lemma_plans_compose(before, mid, after, plan.take(k), part, r);
    assert(plan.take(k) + part =~= plan.take(n));
    assert(plan.take(n) + plan.skip(n) =~= plan);
    if let Err(e) = r {
        lemma_failure_ends_plan(before, after, plan.take(n), plan.skip(n), e);
    }
    if n == plan.len() {
        assert(plan.take(n) =~= plan);
    }
    if r is Ok {
        lemma_one_success(r);
    }
}

/// The call of `write_raw` that `link` stands for was asked for the write of `x` and gave
/// the outcome of `x`. The connector before the call is `*link`, the connector after it
/// `*final(link)`.
#[verifier::inline]
pub open spec fn asked<C: Connector>(link: &mut C, x: Exchange) -> bool {
    call_ensures(C::write_raw, (link, x.write.device, x.write.register, x.write.data), x.outcome)
}

/// Nothing handed to a connector leaves it as it is.
pub proof fn lemma_no_call<C: Connector>(connector: C, trace: Seq<Exchange>)
    ensures
        exists|states: Seq<C>|
            #![trigger states.len()]
            states.len() == trace.len() - trace.len() + 1
                && states[0] == connector
                && states.last() == connector
                && forall|i: int|
                    #![trigger trace.skip(trace.len() as int)[i]]
                    0 <= i < states.len() - 1 ==> exists|link: &mut C|
                        *link == states[i] && *final(link) == states[i + 1]
                            && #[trigger] asked(
                                link,
                                trace.skip(trace.len() as int)[i],
                            ),
{
    let states = seq![connector];
    assert(states.len() == 1 && states[0] == connector);
}

/// Calls that took a connector from `first` to `mid`, followed by calls that took it from
/// `mid` to `last`, are calls that took it from `first` to `last`.
pub proof fn lemma_calls_compose<C: Connector>(
    first: C,
    mid: C,
    last: C,
    before: Seq<Exchange>,
    between: Seq<Exchange>,
    after: Seq<Exchange>,
)
    requires
        before.len() <= between.len() <= after.len(),
        after.take(between.len() as int) == between,
        exists|states: Seq<C>|
            #![trigger states.len()]
            states.len() == between.len() - before.len() + 1
                && states[0] == first
                && states.last() == mid
                && forall|i: int|
                    #![trigger between.skip(before.len() as int)[i]]
                    0 <= i < states.len() - 1 ==> exists|link: &mut C|
                        *link == states[i] && *final(link) == states[i + 1]
                            && #[trigger] asked(
                                link,
                                between.skip(before.len() as int)[i],
                            ),
        exists|states: Seq<C>|
            #![trigger states.len()]
            states.len() == after.len() - between.len() + 1
                && states[0] == mid
                && states.last() == last
                && forall|i: int|
                    #![trigger after.skip(between.len() as int)[i]]
                    0 <= i < states.len() - 1 ==> exists|link: &mut C|
                        *link == states[i] && *final(link) == states[i + 1]
                            && #[trigger] asked(
                                link,
                                after.skip(between.len() as int)[i],
                            ),
    ensures
        exists|states: Seq<C>|
            #![trigger states.len()]
            states.len() == after.len() - before.len() + 1
                && states[0] == first
                && states.last() == last
                && forall|i: int|
                    #![trigger after.skip(before.len() as int)[i]]
                    0 <= i < states.len() - 1 ==> exists|link: &mut C|
                        *link == states[i] && *final(link) == states[i + 1]
                            && #[trigger] asked(
                                link,
                                after.skip(before.len() as int)[i],
                            ),
{
    let head =
        choose|states: Seq<C>|
            #![trigger states.len()]
            states.len() == between.len() - before.len() + 1
                && states[0] == first
                && states.last() == mid
                && forall|i: int|
                    #![trigger between.skip(before.len() as int)[i]]
                    0 <= i < states.len() - 1 ==> exists|link: &mut C|
                        *link == states[i] && *final(link) == states[i + 1]
                            && #[trigger] asked(
                                link,
                                between.skip(before.len() as int)[i],
                            );
    let tail =
        choose|states: Seq<C>|
            #![trigger states.len()]
            states.len() == after.len() - between.len() + 1
                && states[0] == mid
                && states.last() == last
                && forall|i: int|
                    #![trigger after.skip(between.len() as int)[i]]
                    0 <= i < states.len() - 1 ==> exists|link: &mut C|
                        *link == states[i] && *final(link) == states[i + 1]
                            && #[trigger] asked(
                                link,
                                after.skip(between.len() as int)[i],
                            );
    let states = head + tail.skip(1);
    let h = head.len() - 1;
    assert(states.len() == after.len() - before.len() + 1);
    assert(states[0] == first);
    assert(states.last() == last);
    assert forall|i: int|
        #![trigger after.skip(before.len() as int)[i]]
        0 <= i < states.len() - 1 implies exists|link: &mut C|
        *link == states[i] && *final(link) == states[i + 1] && #[trigger] asked(
            link,
            after.skip(before.len() as int)[i],
        ) by {
        if i < h {
            assert(states[i] == head[i]);
            assert(states[i + 1] == head[i + 1]);
            assert(after.skip(before.len() as int)[i] == between.skip(before.len() as int)[i]) by {
                assert(after.take(between.len() as int)[before.len() + i] == after[before.len()
                    + i]);
            }
        } else {
            assert(states[i] == tail[i - h]);
            assert(states[i + 1] == tail[i - h + 1]);
            assert(after.skip(before.len() as int)[i] == after.skip(between.len() as int)[i - h]);
        }
    }
}

/// On a connector whose `write_raw` never fails, no operation fails: a plan that was
/// carried out by calls of `write_raw` was carried out to its end, and with success.
pub proof fn lemma_succeeds_where_every_call_does<C: Connector>(
    first: C,
    last: C,
    before: Seq<Exchange>,
    after: Seq<Exchange>,
    plan: Seq<RegisterWrite>,
    r: Result<(), DriverError>,
)
    requires
        forall|link: &mut C, device: usize, register: u8, data: u8, outcome: Result<(), DriverError>|
            #[trigger] call_ensures(C::write_raw, (link, device, register, data), outcome)
                ==> outcome is Ok,
        carried_out(before, after, plan, r),
        exists|states: Seq<C>|
            #![trigger states.len()]
            states.len() == after.len() - before.len() + 1
                && states[0] == first
                && states.last() == last
                && forall|i: int|
                    #![trigger after.skip(before.len() as int)[i]]
                    0 <= i < states.len() - 1 ==> exists|link: &mut C|
                        *link == states[i] && *final(link) == states[i + 1]
                            && #[trigger] asked(
                                link,
                                after.skip(before.len() as int)[i],
                            ),
    ensures
        r is Ok,
        after.len() == before.len() + plan.len(),
{
    let done = after.skip(before.len() as int);
    if done.len() > 0 {
        assert(done[done.len() - 1] == done.last());
    }
}

} // verus!
