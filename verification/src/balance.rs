//! What holds of the jobs in flight, whatever the aggregator is told.

use crate::configuration::{ActionModel, JobModel};
use crate::orchestration::{
    after, after_all, dispatch_steps, handed_over, registered, submitted, AggregatorMessage,
    StepModel, Task,
};
use vstd::prelude::*;

verus! {

/// How many of the messages register a job.
pub open spec fn registrations(messages: Seq<AggregatorMessage>) -> nat
    decreases messages.len(),
{
    if messages.len() == 0 {
        0
    } else {
        registrations(messages.drop_last()) + if messages.last() is NewJobSet {
            1nat
        } else {
            0nat
        }
    }
}

/// How many of the messages register a job that is not in flight when the
/// message arrives, the jobs in `start` being in flight at first.
pub open spec fn fresh_registrations(start: Set<u128>, messages: Seq<AggregatorMessage>) -> nat
    decreases messages.len(),
{
    if messages.len() == 0 {
        0
    } else {
        let before = after_all(start, messages.drop_last());
        fresh_registrations(start, messages.drop_last()) + match messages.last() {
            AggregatorMessage::NewJobSet(id) => if before.contains(id) {
                0nat
            } else {
                1nat
            },
            _ => 0nat,
        }
    }
}

/// How many of the messages complete a job that is in flight when the
/// message arrives, the jobs in `start` being in flight at first.
pub open spec fn completions(start: Set<u128>, messages: Seq<AggregatorMessage>) -> nat
    decreases messages.len(),
{
    if messages.len() == 0 {
        0
    } else {
        let before = after_all(start, messages.drop_last());
        completions(start, messages.drop_last()) + match messages.last() {
            AggregatorMessage::CompletedJob(id) => if before.contains(id) {
                1nat
            } else {
                0nat
            },
            _ => 0nat,
        }
    }
}

/// No message registers a job that is in flight when the message arrives.
pub open spec fn registers_once(start: Set<u128>, messages: Seq<AggregatorMessage>) -> bool
    decreases messages.len(),
{
    if messages.len() == 0 {
        true
    } else {
        &&& registers_once(start, messages.drop_last())
        &&& match messages.last() {
            AggregatorMessage::NewJobSet(id) => !after_all(start, messages.drop_last()).contains(
                id,
            ),
            _ => true,
        }
    }
}

/// The messages that register the jobs `ids`, in their order.
pub open spec fn registering(ids: Seq<u128>) -> Seq<AggregatorMessage> {
    ids.map_values(|id: u128| AggregatorMessage::NewJobSet(id))
}

/// The messages that complete the jobs `ids`, in their order.
pub open spec fn completing(ids: Seq<u128>) -> Seq<AggregatorMessage> {
    ids.map_values(|id: u128| AggregatorMessage::CompletedJob(id))
}

/// Finitely many jobs stay finitely many.
pub proof fn lemma_finite(start: Set<u128>, messages: Seq<AggregatorMessage>)
    requires
        start.finite(),
    ensures
        after_all(start, messages).finite(),
    decreases messages.len(),
{
    if messages.len() > 0 {
        lemma_finite(start, messages.drop_last());
    }
}

/// The number of jobs in flight is the number at first, plus the
/// registrations of jobs that were not in flight, less the completions of
/// jobs that were. It is never negative.
pub proof fn lemma_balance(start: Set<u128>, messages: Seq<AggregatorMessage>)
    requires
        start.finite(),
    ensures
        after_all(start, messages).len() == start.len() + fresh_registrations(start, messages)
            - completions(start, messages),
        after_all(start, messages).len() >= 0,
    decreases messages.len(),
{
    if messages.len() > 0 {
        lemma_balance(start, messages.drop_last());
        lemma_finite(start, messages.drop_last());
    }
}

/// Where no job is registered while it is in flight, every registration
/// counts.
pub proof fn lemma_registers_once(start: Set<u128>, messages: Seq<AggregatorMessage>)
    requires
        registers_once(start, messages),
    ensures
        fresh_registrations(start, messages) == registrations(messages),
    decreases messages.len(),
{
    if messages.len() > 0 {
        lemma_registers_once(start, messages.drop_last());
    }
}

/// Starting without jobs, and with no job registered while it is in flight,
/// the number of jobs in flight is the number of registrations less the
/// number of completions of jobs that were in flight.
pub proof fn lemma_balance_from_empty(messages: Seq<AggregatorMessage>)
    requires
        registers_once(Set::empty(), messages),
    ensures
        after_all(Set::empty(), messages).len() == registrations(messages) - completions(
            Set::empty(),
            messages,
        ),
        after_all(Set::empty(), messages).len() >= 0,
{
    lemma_balance(Set::empty(), messages);
    lemma_registers_once(Set::empty(), messages);
}

/// A job that is registered twice is in flight once.
pub proof fn lemma_register_twice(outstanding: Set<u128>, id: u128)
    ensures
        after(
            after(outstanding, AggregatorMessage::NewJobSet(id)),
            AggregatorMessage::NewJobSet(id),
        ) == after(outstanding, AggregatorMessage::NewJobSet(id)),
        after(outstanding, AggregatorMessage::NewJobSet(id)).contains(id),
        outstanding.finite() && !outstanding.contains(id) ==> after(
            after(outstanding, AggregatorMessage::NewJobSet(id)),
            AggregatorMessage::NewJobSet(id),
        ).len() == outstanding.len() + 1,
{
    assert(outstanding.insert(id).insert(id) =~= outstanding.insert(id));
}

/// The completion of a job that is not in flight changes nothing.
pub proof fn lemma_complete_absent(outstanding: Set<u128>, id: u128)
    requires
        !outstanding.contains(id),
    ensures
        after(outstanding, AggregatorMessage::CompletedJob(id)) == outstanding,
{
    assert(outstanding.remove(id) =~= outstanding);
}

/// A request for progress changes nothing.
pub proof fn lemma_progress(outstanding: Set<u128>)
    ensures
        after(outstanding, AggregatorMessage::ProgressReport) == outstanding,
{
}

/// After the registration of the jobs `ids` these are in flight beside those
/// that were.
pub proof fn lemma_registered(start: Set<u128>, ids: Seq<u128>)
    ensures
        after_all(start, registering(ids)) == start.union(ids.to_set()),
    decreases ids.len(),
{
    let messages = registering(ids);
    if ids.len() == 0 {
        assert(start.union(ids.to_set()) =~= start);
    } else {
        lemma_registered(start, ids.drop_last());
        assert(messages.drop_last() =~= registering(ids.drop_last()));
        assert(messages.last() == AggregatorMessage::NewJobSet(ids.last()));
        assert(start.union(ids.drop_last().to_set()).insert(ids.last()) =~= start.union(
            ids.to_set(),
        )) by {
            assert forall|id: u128| ids.to_set().contains(id) <==> (ids.drop_last().to_set().contains(
                id,
            ) || id == ids.last()) by {
                if ids.to_set().contains(id) {
                    let k = choose|k: int| 0 <= k < ids.len() && ids[k] == id;
                    if k < ids.len() - 1 {
                        assert(ids.drop_last()[k] == id);
                    }
                }
                if ids.drop_last().to_set().contains(id) {
                    let k = choose|k: int| 0 <= k < ids.drop_last().len() && ids.drop_last()[k] == id;
                    assert(ids[k] == id);
                }
                if id == ids.last() {
                    assert(ids[ids.len() - 1] == id);
                }
            }
        }
    }
}

/// After the completion of the jobs `ids` none of them is in flight, and
/// the others are as they were.
pub proof fn lemma_completed(start: Set<u128>, ids: Seq<u128>)
    ensures
        after_all(start, completing(ids)) == start.difference(ids.to_set()),
    decreases ids.len(),
{
    let messages = completing(ids);
    if ids.len() == 0 {
        assert(start.difference(ids.to_set()) =~= start);
    } else {
        lemma_completed(start, ids.drop_last());
        assert(messages.drop_last() =~= completing(ids.drop_last()));
        assert(messages.last() == AggregatorMessage::CompletedJob(ids.last()));
        assert(start.difference(ids.drop_last().to_set()).remove(ids.last()) =~= start.difference(
            ids.to_set(),
        )) by {
            assert forall|id: u128| ids.to_set().contains(id) <==> (ids.drop_last().to_set().contains(
                id,
            ) || id == ids.last()) by {
                if ids.to_set().contains(id) {
                    let k = choose|k: int| 0 <= k < ids.len() && ids[k] == id;
                    if k < ids.len() - 1 {
                        assert(ids.drop_last()[k] == id);
                    }
                }
                if ids.drop_last().to_set().contains(id) {
                    let k = choose|k: int| 0 <= k < ids.drop_last().len() && ids.drop_last()[k] == id;
                    assert(ids[k] == id);
                }
                if id == ids.last() {
                    assert(ids[ids.len() - 1] == id);
                }
            }
        }
    }
}

/// When jobs that were not in flight are registered and each of them is then
/// completed, the jobs in flight are those that were in flight before.
pub proof fn lemma_drain(start: Set<u128>, ids: Seq<u128>)
    requires
        forall|i: int| 0 <= i < ids.len() ==> !start.contains(#[trigger] ids[i]),
    ensures
        after_all(after_all(start, registering(ids)), completing(ids)) == start,
{
    lemma_registered(start, ids);
    lemma_completed(start.union(ids.to_set()), ids);
    assert(start.union(ids.to_set()).difference(ids.to_set()) =~= start) by {
        assert forall|id: u128| start.contains(id) implies !ids.to_set().contains(id) by {
            if ids.to_set().contains(id) {
                let k = choose|k: int| 0 <= k < ids.len() && ids[k] == id;
                assert(!start.contains(ids[k]));
            }
        }
    }
}

/// What the workers tell the aggregator at the end of the jobs `tasks`, one
/// after the other: of each job that it is completed.
pub open spec fn reported(tasks: Seq<Task>) -> Seq<AggregatorMessage> {
    tasks.map_values(|task: Task| AggregatorMessage::CompletedJob(task.id))
}

/// In the steps for a job, what the aggregator is told is the registration
/// of the identifiers, and what the workers report of the jobs handed over
/// is the completion of the same identifiers, both in the order of the
/// actions.
pub proof fn lemma_dispatch_messages(actions: Seq<ActionModel>, ids: Seq<u128>)
    requires
        ids.len() == actions.len(),
    ensures
        registered(dispatch_steps(actions, ids)) == registering(ids),
        reported(handed_over(dispatch_steps(actions, ids))) == completing(ids),
    decreases actions.len(),
{
    let steps = dispatch_steps(actions, ids);
    if actions.len() == 0 {
        assert(registering(ids) =~= Seq::<AggregatorMessage>::empty());
        assert(completing(ids) =~= Seq::<AggregatorMessage>::empty());
        assert(reported(handed_over(steps)) =~= Seq::<AggregatorMessage>::empty());
    } else {
        let earlier = actions.drop_last();
        let fewer = ids.drop_last();
        let id = ids.last();
        lemma_same_steps(earlier, ids, fewer);
        lemma_dispatch_messages(earlier, fewer);
        let before = dispatch_steps(earlier, ids);
        let register = StepModel::Register(AggregatorMessage::NewJobSet(id));
        let hand_over = StepModel::HandOver(Task { id, action: actions.last() });
        let middle = before.push(register);
        assert(steps =~= middle.push(hand_over));
        assert(steps.drop_last() =~= middle);
        assert(steps.last() == hand_over);
        assert(middle.drop_last() =~= before);
        assert(middle.last() == register);
        assert(registered(middle) == registered(before).push(AggregatorMessage::NewJobSet(id)));
        assert(registered(steps) == registered(middle));
        assert(handed_over(middle) == handed_over(before));
        assert(handed_over(steps) == handed_over(middle).push(
            Task { id, action: actions.last() },
        ));
        assert(registering(ids) =~= registering(fewer).push(AggregatorMessage::NewJobSet(id)));
        assert(completing(ids) =~= completing(fewer).push(AggregatorMessage::CompletedJob(id)));
        assert(reported(handed_over(steps)) =~= reported(handed_over(before)).push(
            AggregatorMessage::CompletedJob(id),
        ));
    }
}

/// The steps for a job look only at the identifiers of its actions.
pub proof fn lemma_same_steps(actions: Seq<ActionModel>, ids: Seq<u128>, others: Seq<u128>)
    requires
        forall|i: int| 0 <= i < actions.len() ==> ids[i] == others[i],
    ensures
        dispatch_steps(actions, ids) == dispatch_steps(actions, others),
    decreases actions.len(),
{
    if actions.len() > 0 {
        lemma_same_steps(actions.drop_last(), ids, others);
    }
}

/// When the work of a job is dispatched under identifiers that are not in
/// flight, and the workers report the end of each of the jobs, the jobs in
/// flight are those that were in flight before: every job that was
/// registered was completed, and nothing else was touched.
pub proof fn lemma_dispatch_drains(start: Set<u128>, job: JobModel, set_id: u128, ids: Seq<u128>)
    requires
        ids.len() == job.actions.len(),
        forall|i: int| 0 <= i < ids.len() ==> !start.contains(#[trigger] ids[i]),
    ensures
        registered(submitted(job, set_id, ids).steps) == registering(ids),
        reported(handed_over(submitted(job, set_id, ids).steps)) == completing(ids),
        after_all(
            after_all(start, registered(submitted(job, set_id, ids).steps)),
            reported(handed_over(submitted(job, set_id, ids).steps)),
        ) == start,
{
    lemma_dispatch_messages(job.actions, ids);
    lemma_drain(start, ids);
}

/// The jobs that the messages register.
pub open spec fn registered_ids(messages: Seq<AggregatorMessage>) -> Set<u128> {
    Set::new(
        |id: u128|
            exists|i: int|
                0 <= i < messages.len() && #[trigger] messages[i] == AggregatorMessage::NewJobSet(
                    id,
                ),
    )
}

/// The jobs that the messages complete.
pub open spec fn completed_ids(messages: Seq<AggregatorMessage>) -> Set<u128> {
    Set::new(
        |id: u128|
            exists|i: int|
                0 <= i < messages.len() && #[trigger] messages[i]
                    == AggregatorMessage::CompletedJob(id),
    )
}

/// The messages arrive in good order: no job is registered that was in
/// flight at first, no job is registered twice, and the completion of a job
/// comes after its registration.
pub open spec fn in_order(start: Set<u128>, messages: Seq<AggregatorMessage>) -> bool {
    &&& forall|i: int|
        0 <= i < messages.len() && (#[trigger] messages[i]) is NewJobSet ==> !start.contains(
            messages[i]->NewJobSet_0,
        )
    &&& forall|i: int, j: int|
        0 <= i < j < messages.len() && (#[trigger] messages[i]) is NewJobSet ==> messages[i]
            != #[trigger] messages[j]
    &&& forall|j: int|
        0 <= j < messages.len() && (#[trigger] messages[j]) is CompletedJob ==> exists|i: int|
            0 <= i < j && #[trigger] messages[i] == AggregatorMessage::NewJobSet(
                messages[j]->CompletedJob_0,
            )
}

/// Where the messages arrive in good order, the jobs in flight are those
/// that were in flight at first and those that were registered and not yet
/// completed, however registrations and completions follow one another.
pub proof fn lemma_in_order(start: Set<u128>, messages: Seq<AggregatorMessage>)
    requires
        in_order(start, messages),
    ensures
        after_all(start, messages) == start.union(
            registered_ids(messages).difference(completed_ids(messages)),
        ),
    decreases messages.len(),
{
    let target = start.union(registered_ids(messages).difference(completed_ids(messages)));
    if messages.len() == 0 {
        assert(target =~= start);
    } else {
        let earlier = messages.drop_last();
        let n = messages.len() - 1;
        assert(in_order(start, earlier)) by {
            assert forall|i: int|
                0 <= i < earlier.len() && (#[trigger] earlier[i]) is NewJobSet implies !start.contains(
                earlier[i]->NewJobSet_0,
            ) by {
                assert(earlier[i] == messages[i]);
            }
            assert forall|i: int, j: int|
                0 <= i < j < earlier.len() && (#[trigger] earlier[i]) is NewJobSet implies earlier[i]
                    != #[trigger] earlier[j] by {
                assert(earlier[i] == messages[i]);
                assert(earlier[j] == messages[j]);
            }
            assert forall|j: int|
                0 <= j < earlier.len() && (#[trigger] earlier[j]) is CompletedJob implies exists|
                i: int,
            |
                0 <= i < j && #[trigger] earlier[i] == AggregatorMessage::NewJobSet(
                    earlier[j]->CompletedJob_0,
                ) by {
                assert(earlier[j] == messages[j]);
                let i = choose|i: int|
                    0 <= i < j && #[trigger] messages[i] == AggregatorMessage::NewJobSet(
                        messages[j]->CompletedJob_0,
                    );
                assert(earlier[i] == messages[i]);
            }
        }
        lemma_in_order(start, earlier);
        let before = after_all(start, earlier);
        // what the earlier messages register and complete, against all of them
        assert forall|id: u128|
            registered_ids(messages).contains(id) <==> (registered_ids(earlier).contains(id)
                || messages[n] == AggregatorMessage::NewJobSet(id)) by {
            if registered_ids(messages).contains(id) {
                let i = choose|i: int|
                    0 <= i < messages.len() && #[trigger] messages[i]
                        == AggregatorMessage::NewJobSet(id);
                if i < n {
                    assert(earlier[i] == messages[i]);
                }
            }
            if registered_ids(earlier).contains(id) {
                let i = choose|i: int|
                    0 <= i < earlier.len() && #[trigger] earlier[i] == AggregatorMessage::NewJobSet(
                        id,
                    );
                assert(messages[i] == earlier[i]);
            }
        }
        assert forall|id: u128|
            completed_ids(messages).contains(id) <==> (completed_ids(earlier).contains(id)
                || messages[n] == AggregatorMessage::CompletedJob(id)) by {
            if completed_ids(messages).contains(id) {
                let i = choose|i: int|
                    0 <= i < messages.len() && #[trigger] messages[i]
                        == AggregatorMessage::CompletedJob(id);
                if i < n {
                    assert(earlier[i] == messages[i]);
                }
            }
            if completed_ids(earlier).contains(id) {
                let i = choose|i: int|
                    0 <= i < earlier.len() && #[trigger] earlier[i]
                        == AggregatorMessage::CompletedJob(id);
                assert(messages[i] == earlier[i]);
            }
        }
        match messages[n] {
            AggregatorMessage::NewJobSet(id) => {
                // the job was not completed before, or it would have been registered twice
                assert(!completed_ids(earlier).contains(id)) by {
                    if completed_ids(earlier).contains(id) {
                        let j = choose|j: int|
                            0 <= j < earlier.len() && #[trigger] earlier[j]
                                == AggregatorMessage::CompletedJob(id);
                        assert(messages[j] == earlier[j]);
                        let i = choose|i: int|
                            0 <= i < j && #[trigger] messages[i] == AggregatorMessage::NewJobSet(
                                messages[j]->CompletedJob_0,
                            );
                        assert(messages[i] != messages[n]);
                    }
                }
                assert(before.insert(id) =~= target);
            },
            AggregatorMessage::ProgressReport => {
                assert(before =~= target);
            },
            AggregatorMessage::CompletedJob(id) => {
                // the job was registered, so it was not in flight at first
                let i = choose|i: int|
                    0 <= i < n && #[trigger] messages[i] == AggregatorMessage::NewJobSet(
                        messages[n]->CompletedJob_0,
                    );
                assert(!start.contains(messages[i]->NewJobSet_0));
                assert(before.remove(id) =~= target);
            },
        }
    }
}

/// Where the messages arrive in good order and every job that is registered
/// is also completed, the jobs in flight at the end are those that were in
/// flight at first.
pub proof fn lemma_in_order_drains(start: Set<u128>, messages: Seq<AggregatorMessage>)
    requires
        in_order(start, messages),
        registered_ids(messages).subset_of(completed_ids(messages)),
    ensures
        after_all(start, messages) == start,
{
    lemma_in_order(start, messages);
    assert(start.union(registered_ids(messages).difference(completed_ids(messages))) =~= start);
}

} // verus!
