//! What the operations of a GPU session leave bound, whatever the host answers.

use crate::gpu_passthrough;
use crate::gpu_passthrough::{GpuAction, GpuOperation, GpuStage, SessionModel, GPU_IRQ_COUNT};
use crate::pmthor::IrqIndex;
use vstd::prelude::*;

verus! {

/// What is bound for which interrupt.
#[verifier::ext_equal]
pub struct Bindings {
    /// The interrupts whose irqfd is registered with KVM.
    pub irqfds: Set<IrqIndex>,
    /// The interrupts with an eventfd that unmasks them.
    pub unmask: Set<IrqIndex>,
    /// The interrupts with an eventfd that they signal.
    pub trigger: Set<IrqIndex>,
}

impl Bindings {
    /// Nothing is bound.
    pub open spec fn none() -> Self {
        Bindings { irqfds: Set::empty(), unmask: Set::empty(), trigger: Set::empty() }
    }

    /// Everything is bound.
    pub open spec fn all() -> Self {
        Bindings { irqfds: Set::full(), unmask: Set::full(), trigger: Set::full() }
    }

    /// What is bound after an operation that succeeds.
    pub open spec fn after(self, operation: GpuOperation) -> Self {
        match operation {
            GpuOperation::CleanIrq => Bindings {
                unmask: Set::empty(),
                trigger: Set::empty(),
                ..self
            },
            GpuOperation::RegisterIrqfd(irq) => Bindings {
                irqfds: self.irqfds.insert(irq),
                ..self
            },
            GpuOperation::SetUnmaskEvent(irq) => Bindings {
                unmask: self.unmask.insert(irq),
                ..self
            },
            GpuOperation::SetTrigger(irq) => Bindings {
                trigger: self.trigger.insert(irq),
                ..self
            },
            GpuOperation::ClearUnmaskEvent(irq) => Bindings {
                unmask: self.unmask.remove(irq),
                ..self
            },
            GpuOperation::ClearTrigger(irq) => Bindings {
                trigger: self.trigger.remove(irq),
                ..self
            },
            GpuOperation::UnregisterIrqfd(irq) => Bindings {
                irqfds: self.irqfds.remove(irq),
                ..self
            },
        }
    }

    /// What is bound after operations that all succeed.
    pub open spec fn after_all(self, operations: Seq<GpuOperation>) -> Self
        decreases operations.len(),
    {
        if operations.len() == 0 {
            self
        } else {
            self.after_all(operations.drop_last()).after(operations.last())
        }
    }
}

/// Operations can be performed in two parts.
proof fn lemma_after_all_add(
    bindings: Bindings,
    first: Seq<GpuOperation>,
    second: Seq<GpuOperation>,
)
    ensures
        bindings.after_all(first + second) == bindings.after_all(first).after_all(second),
    decreases second.len(),
{
    if second.len() == 0 {
        assert(first + second =~= first);
    } else {
        lemma_after_all_add(bindings, first, second.drop_last());
        assert((first + second).drop_last() =~= first + second.drop_last());
    }
}

/// A list of up to three operations, one after the other.
proof fn lemma_after_few(bindings: Bindings, operations: Seq<GpuOperation>)
    requires
        operations.len() <= 3,
    ensures
        operations.len() == 0 ==> bindings.after_all(operations) == bindings,
        operations.len() == 1 ==> bindings.after_all(operations) == bindings.after(operations[0]),
        operations.len() == 2 ==> bindings.after_all(operations) == bindings.after(
            operations[0],
        ).after(operations[1]),
        operations.len() == 3 ==> bindings.after_all(operations) == bindings.after(
            operations[0],
        ).after(operations[1]).after(operations[2]),
{
    reveal_with_fuel(Bindings::after_all, 4);
}

/// Attaching the first `count` interrupts binds exactly those, and keeps the irqfds that were
/// registered before.
proof fn lemma_attach(bindings: Bindings, count: nat)
    requires
        count <= GPU_IRQ_COUNT,
    ensures
        ({
            let after = bindings.after_all(gpu_passthrough::attach_operations(count));
            forall|irq: IrqIndex| #![auto]
                {
                    &&& after.irqfds.contains(irq) == (bindings.irqfds.contains(irq)
                        || irq.number() < count)
                    &&& after.unmask.contains(irq) == (irq.number() < count)
                    &&& after.trigger.contains(irq) == (irq.number() < count)
                }
        }),
    decreases count,
{
    if count == 0 {
        lemma_after_few(bindings, gpu_passthrough::attach_operations(0));
    } else {
        let before = gpu_passthrough::attach_operations((count - 1) as nat);
        let irq = gpu_passthrough::gpu_irqs()[count - 1];
        let own = gpu_passthrough::attach_irq_operations(irq);
        lemma_attach(bindings, (count - 1) as nat);
        lemma_after_all_add(bindings, before, own);
        lemma_after_few(bindings.after_all(before), own);
        assert(irq.number() == count - 1);
    }
}

/// Detaching the first `count` interrupts unbinds exactly those.
proof fn lemma_detach(bindings: Bindings, count: nat)
    requires
        count <= GPU_IRQ_COUNT,
    ensures
        ({
            let after = bindings.after_all(gpu_passthrough::detach_operations(count));
            forall|irq: IrqIndex| #![auto]
                {
                    &&& after.irqfds.contains(irq) == (bindings.irqfds.contains(irq)
                        && irq.number() >= count)
                    &&& after.unmask.contains(irq) == (bindings.unmask.contains(irq)
                        && irq.number() >= count)
                    &&& after.trigger.contains(irq) == (bindings.trigger.contains(irq)
                        && irq.number() >= count)
                }
        }),
    decreases count,
{
    if count > 0 {
        let before = gpu_passthrough::detach_operations((count - 1) as nat);
        let irq = gpu_passthrough::gpu_irqs()[count - 1];
        let own = gpu_passthrough::detach_irq_operations(irq);
        lemma_detach(bindings, (count - 1) as nat);
        lemma_after_all_add(bindings, before, own);
        lemma_after_few(bindings.after_all(before), own);
        assert(irq.number() == count - 1);
    }
}

/// Attaching the GPU binds everything, whatever was bound before.
pub proof fn law_attach_binds_all(bindings: Bindings)
    ensures
        bindings.after_all(gpu_passthrough::attach_operations(GPU_IRQ_COUNT as nat))
            == Bindings::all(),
{
    lemma_attach(bindings, GPU_IRQ_COUNT as nat);
    assert(bindings.after_all(gpu_passthrough::attach_operations(GPU_IRQ_COUNT as nat))
        =~= Bindings::all());
}

/// Detaching the GPU leaves nothing bound, whatever was bound before.
pub proof fn law_detach_unbinds_all(bindings: Bindings)
    ensures
        bindings.after_all(gpu_passthrough::detach_all_operations()) == Bindings::none(),
{
    let detach = gpu_passthrough::detach_operations(GPU_IRQ_COUNT as nat);
    lemma_detach(bindings, GPU_IRQ_COUNT as nat);
    assert(gpu_passthrough::detach_all_operations().drop_last() =~= detach);
    assert(bindings.after_all(detach).irqfds =~= Set::empty());
    assert(bindings.after_all(gpu_passthrough::detach_all_operations()) =~= Bindings::none());
}

/// The operations of an attachment before operation `failed`, by interrupt.
proof fn lemma_attach_prefix(failed: int)
    requires
        0 < failed <= 3 * GPU_IRQ_COUNT,
    ensures
        ({
            let irq_idx = (failed - 1) / 3;
            gpu_passthrough::attach_operations(GPU_IRQ_COUNT as nat).take(failed)
                == gpu_passthrough::attach_operations(irq_idx as nat)
                + gpu_passthrough::attach_irq_operations(
                gpu_passthrough::gpu_irqs()[irq_idx],
            ).take((failed - 1) % 3)
        }),
{
    reveal_with_fuel(gpu_passthrough::attach_operations, 4);
    let irq_idx = (failed - 1) / 3;
    assert(gpu_passthrough::attach_operations(GPU_IRQ_COUNT as nat).take(failed)
        =~= gpu_passthrough::attach_operations(irq_idx as nat)
        + gpu_passthrough::attach_irq_operations(gpu_passthrough::gpu_irqs()[irq_idx]).take(
        (failed - 1) % 3,
    ));
}

/// An attachment that fails at any of its operations and is undone leaves nothing bound on the
/// host and no irqfd that it registered; if the very first operation fails, nothing changes.
pub proof fn law_failed_attach_leaves_nothing(bindings: Bindings, failed: int)
    requires
        0 <= failed <= 3 * GPU_IRQ_COUNT,
    ensures
        ({
            let attempted = gpu_passthrough::attach_operations(GPU_IRQ_COUNT as nat).take(failed);
            let after = bindings.after_all(attempted).after_all(
                gpu_passthrough::undo_operations(failed),
            );
            &&& failed == 0 ==> after == bindings
            &&& failed > 0 ==> after.unmask == Set::<IrqIndex>::empty() && after.trigger
                == Set::<IrqIndex>::empty()
            &&& forall|irq: IrqIndex|
                #![trigger after.irqfds.contains(irq)]
                after.irqfds.contains(irq) <==> bindings.irqfds.contains(irq)
                    && !attempted.contains(GpuOperation::RegisterIrqfd(irq))
        }),
{
    let attempted = gpu_passthrough::attach_operations(GPU_IRQ_COUNT as nat).take(failed);
    let undo = gpu_passthrough::undo_operations(failed);
    let after = bindings.after_all(attempted).after_all(undo);
    if failed == 0 {
        assert(attempted =~= Seq::empty());
    } else {
        let irq_idx = (failed - 1) / 3;
        let done = (failed - 1) % 3;
        let irq = gpu_passthrough::gpu_irqs()[irq_idx];
        let earlier = gpu_passthrough::attach_operations(irq_idx as nat);
        let own = gpu_passthrough::attach_irq_operations(irq).take(done);
        let undo_own = gpu_passthrough::undo_irq_operations(irq, done);
        let detach = gpu_passthrough::detach_operations(irq_idx as nat);
        lemma_attach_prefix(failed);
        lemma_attach(bindings, irq_idx as nat);
        lemma_after_all_add(bindings, earlier, own);
        lemma_after_few(bindings.after_all(earlier), own);
        lemma_after_all_add(bindings.after_all(attempted), undo_own, detach);
        lemma_after_few(bindings.after_all(attempted), undo_own);
        lemma_detach(bindings.after_all(attempted).after_all(undo_own), irq_idx as nat);
        assert(irq.number() == irq_idx);
        assert(after.unmask =~= Set::empty());
        assert(after.trigger =~= Set::empty());
        lemma_registered(failed);
    }
}

/// Which irqfds an attachment has registered before operation `failed`.
proof fn lemma_registered(failed: int)
    requires
        0 < failed <= 3 * GPU_IRQ_COUNT,
    ensures
        forall|irq: IrqIndex|
            gpu_passthrough::attach_operations(GPU_IRQ_COUNT as nat).take(failed).contains(
                GpuOperation::RegisterIrqfd(irq),
            ) <==> 3 * #[trigger] irq.number() + 1 < failed,
{
    reveal_with_fuel(gpu_passthrough::attach_operations, 4);
    let plan = gpu_passthrough::attach_operations(GPU_IRQ_COUNT as nat);
    assert forall|irq: IrqIndex|
        plan.take(failed).contains(GpuOperation::RegisterIrqfd(irq)) <==> 3
            * #[trigger] irq.number() + 1 < failed by {
        assert(plan[3 * irq.number() + 1] == GpuOperation::RegisterIrqfd(irq));
        if 3 * irq.number() + 1 < failed {
            assert(plan.take(failed)[3 * irq.number() + 1] == GpuOperation::RegisterIrqfd(irq));
        }
    }
}

/// A session together with what is bound.
pub struct GpuRun<E> {
    /// The session.
    pub model: SessionModel<E>,
    /// What it asked for last.
    pub action: GpuAction<E>,
    /// What is bound.
    pub bindings: Bindings,
}

/// The session that starts as `start` where `bindings` are bound, after `outcomes`. An operation
/// that fails binds and unbinds nothing.
pub open spec fn run<E>(
    start: SessionModel<E>,
    bindings: Bindings,
    outcomes: Seq<Result<(), E>>,
) -> GpuRun<E>
    decreases outcomes.len(),
{
    if outcomes.len() == 0 {
        GpuRun { model: start, action: GpuAction::Perform(start.operations[0]), bindings }
    } else {
        let before = run(start, bindings, outcomes.drop_last());
        let (model, action) = before.model.step(outcomes.last());
        GpuRun {
            model,
            action,
            bindings: match before.action {
                GpuAction::Perform(operation) if outcomes.last() is Ok => before.bindings.after(
                    operation,
                ),
                _ => before.bindings,
            },
        }
    }
}

/// Whether every outcome is a success.
pub open spec fn all_ok<E>(outcomes: Seq<Result<(), E>>) -> bool {
    forall|i: int| 0 <= i < outcomes.len() ==> #[trigger] outcomes[i] is Ok
}

/// As long as its operations succeed, a session goes through them in order.
proof fn lemma_run_in_order<E>(
    start: SessionModel<E>,
    bindings: Bindings,
    outcomes: Seq<Result<(), E>>,
)
    requires
        start.next == 0,
        start.stage is Attaching || start.stage is Detaching,
        outcomes.len() < start.operations.len(),
        all_ok(outcomes),
    ensures
        ({
            let at = outcomes.len() as int;
            let now = run(start, bindings, outcomes);
            &&& now.model == SessionModel::<E> { next: at, ..start }
            &&& now.action == GpuAction::<E>::Perform(start.operations[at])
            &&& now.bindings == bindings.after_all(start.operations.take(at))
        }),
    decreases outcomes.len(),
{
    let at = outcomes.len() as int;
    if at == 0 {
        assert(start.operations.take(0) =~= Seq::empty());
    } else {
        assert(all_ok(outcomes.drop_last())) by {
            assert forall|i: int| 0 <= i < at - 1 implies #[trigger] outcomes.drop_last()[i] is Ok by {
                assert(outcomes[i] is Ok);
            }
        }
        lemma_run_in_order(start, bindings, outcomes.drop_last());
        assert(outcomes[at - 1] is Ok);
        assert(start.operations.take(at).drop_last() =~= start.operations.take(at - 1));
    }
}

/// Whatever the outcomes, a session that detaches goes through its operations in order.
proof fn lemma_detach_in_order<E>(bindings: Bindings, outcomes: Seq<Result<(), E>>)
    requires
        outcomes.len() < gpu_passthrough::detach_all_operations().len(),
    ensures
        ({
            let at = outcomes.len() as int;
            let start = SessionModel::<E>::detaching();
            let now = run(start, bindings, outcomes);
            &&& now.model == SessionModel::<E> { next: at, ..start }
            &&& now.action == GpuAction::<E>::Perform(start.operations[at])
        }),
    decreases outcomes.len(),
{
    if outcomes.len() > 0 {
        lemma_detach_in_order(bindings, outcomes.drop_last());
    }
}

/// While it undoes a failed attachment, a session goes through the operations that undo it in
/// order, whatever their outcomes.
proof fn lemma_undo_in_order<E>(
    bindings: Bindings,
    succeeded: Seq<Result<(), E>>,
    error: E,
    later: Seq<Result<(), E>>,
)
    requires
        all_ok(succeeded),
        succeeded.len() <= 3 * GPU_IRQ_COUNT,
        later.len() < gpu_passthrough::undo_operations(succeeded.len() as int).len(),
    ensures
        ({
            let undo = gpu_passthrough::undo_operations(succeeded.len() as int);
            let now = run(
                SessionModel::<E>::attaching(),
                bindings,
                succeeded.push(Err(error)) + later,
            );
            let attempted = gpu_passthrough::attach_operations(GPU_IRQ_COUNT as nat).take(
                succeeded.len() as int,
            );
            &&& now.model == SessionModel {
                operations: undo,
                next: later.len() as int,
                stage: GpuStage::Undoing(error),
            }
            &&& now.action == GpuAction::<E>::Perform(undo[later.len() as int])
            &&& all_ok(later) ==> now.bindings == bindings.after_all(attempted).after_all(
                undo.take(later.len() as int),
            )
        }),
    decreases later.len(),
{
    let failed = succeeded.push(Err(error));
    let undo = gpu_passthrough::undo_operations(succeeded.len() as int);
    gpu_passthrough::lemma_operation_counts(GPU_IRQ_COUNT as nat);
    if later.len() == 0 {
        lemma_run_in_order(SessionModel::<E>::attaching(), bindings, succeeded);
        assert((failed + later).drop_last() =~= succeeded);
        assert((failed + later).last() == Err::<(), E>(error));
        assert(undo.take(0) =~= Seq::empty());
    } else {
        let at = later.len() as int;
        lemma_undo_in_order(bindings, succeeded, error, later.drop_last());
        assert((failed + later).drop_last() =~= failed + later.drop_last());
        if all_ok(later) {
            assert forall|i: int| 0 <= i < at - 1 implies #[trigger] later.drop_last()[i] is Ok by {
                assert(later[i] is Ok);
            }
            assert(later[at - 1] is Ok);
            assert(undo.take(at).drop_last() =~= undo.take(at - 1));
        }
    }
}

/// An attachment whose operations all succeed ends well and leaves everything bound.
pub proof fn law_attach_session_succeeds<E>(bindings: Bindings, outcomes: Seq<Result<(), E>>)
    requires
        all_ok(outcomes),
        outcomes.len() == 3 * GPU_IRQ_COUNT + 1,
    ensures
        run(SessionModel::<E>::attaching(), bindings, outcomes).action == GpuAction::<E>::Finished(
            Ok(()),
        ),
        run(SessionModel::<E>::attaching(), bindings, outcomes).bindings == Bindings::all(),
{
    let start = SessionModel::<E>::attaching();
    let before = outcomes.drop_last();
    let plan = gpu_passthrough::attach_operations(GPU_IRQ_COUNT as nat);
    gpu_passthrough::lemma_operation_counts(GPU_IRQ_COUNT as nat);
    assert forall|i: int| 0 <= i < before.len() implies #[trigger] before[i] is Ok by {
        assert(outcomes[i] is Ok);
    }
    lemma_run_in_order(start, bindings, before);
    assert(outcomes[outcomes.len() - 1] is Ok);
    assert(plan.take(before.len() as int) =~= plan.drop_last());
    law_attach_binds_all(bindings);
}

/// An attachment whose operation `succeeded.len()` fails ends with the error of that operation,
/// whatever comes of undoing it; and if undoing it succeeds, it leaves nothing bound on the host
/// and none of its irqfds registered.
pub proof fn law_attach_session_fails<E>(
    bindings: Bindings,
    succeeded: Seq<Result<(), E>>,
    error: E,
    later: Seq<Result<(), E>>,
)
    requires
        all_ok(succeeded),
        succeeded.len() <= 3 * GPU_IRQ_COUNT,
        later.len() == gpu_passthrough::undo_operations(succeeded.len() as int).len(),
    ensures
        ({
            let end = run(
                SessionModel::<E>::attaching(),
                bindings,
                succeeded.push(Err(error)) + later,
            );
            let attempted = gpu_passthrough::attach_operations(GPU_IRQ_COUNT as nat).take(
                succeeded.len() as int,
            );
            &&& end.action == GpuAction::<E>::Finished(Err(error))
            &&& all_ok(later) && succeeded.len() == 0 ==> end.bindings == bindings
            &&& all_ok(later) && succeeded.len() > 0 ==> end.bindings.unmask == Set::<
                IrqIndex,
            >::empty() && end.bindings.trigger == Set::<IrqIndex>::empty()
            &&& all_ok(later) ==> forall|irq: IrqIndex|
                #![trigger end.bindings.irqfds.contains(irq)]
                end.bindings.irqfds.contains(irq) <==> bindings.irqfds.contains(irq)
                    && !attempted.contains(GpuOperation::RegisterIrqfd(irq))
        }),
{
    let failed = succeeded.push(Err(error));
    let at = succeeded.len() as int;
    let undo = gpu_passthrough::undo_operations(at);
    let plan = gpu_passthrough::attach_operations(GPU_IRQ_COUNT as nat);
    let end = run(SessionModel::<E>::attaching(), bindings, failed + later);
    gpu_passthrough::lemma_operation_counts(GPU_IRQ_COUNT as nat);
    law_failed_attach_leaves_nothing(bindings, at);
    if later.len() == 0 {
        lemma_run_in_order(SessionModel::<E>::attaching(), bindings, succeeded);
        assert((failed + later).drop_last() =~= succeeded);
        assert((failed + later).last() == Err::<(), E>(error));
        assert(end.bindings == bindings.after_all(plan.take(at)).after_all(undo));
    } else {
        lemma_undo_in_order(bindings, succeeded, error, later.drop_last());
        assert((failed + later).drop_last() =~= failed + later.drop_last());
        if all_ok(later) {
            assert forall|i: int| 0 <= i < later.len() - 1 implies #[trigger] later.drop_last()[i]
                is Ok by {
                assert(later[i] is Ok);
            }
            assert(later[later.len() - 1] is Ok);
            assert(undo.take(later.len() - 1) =~= undo.drop_last());
            assert(end.bindings == bindings.after_all(plan.take(at)).after_all(undo));
        }
    }
}

/// A session that detaches returns what came of cleaning the device, whatever came of the rest.
/// If that succeeded, nothing is bound on the host; if everything did, nothing is bound at all.
pub proof fn law_detach_session<E>(bindings: Bindings, outcomes: Seq<Result<(), E>>)
    requires
        outcomes.len() == 3 * GPU_IRQ_COUNT + 1,
    ensures
        ({
            let end = run(SessionModel::<E>::detaching(), bindings, outcomes);
            &&& end.action == GpuAction::Finished(outcomes.last())
            &&& outcomes.last() is Ok ==> end.bindings.unmask == Set::<IrqIndex>::empty()
                && end.bindings.trigger == Set::<IrqIndex>::empty()
            &&& all_ok(outcomes) ==> end.bindings == Bindings::none()
        }),
{
    let start = SessionModel::<E>::detaching();
    let plan = gpu_passthrough::detach_all_operations();
    let before = outcomes.drop_last();
    gpu_passthrough::lemma_operation_counts(GPU_IRQ_COUNT as nat);
    lemma_detach_in_order(bindings, before);
    if all_ok(outcomes) {
        assert forall|i: int| 0 <= i < before.len() implies #[trigger] before[i] is Ok by {
            assert(outcomes[i] is Ok);
        }
        lemma_run_in_order(start, bindings, before);
        assert(outcomes[outcomes.len() - 1] is Ok);
        assert(plan.take(before.len() as int) =~= plan.drop_last());
        law_detach_unbinds_all(bindings);
    }
}

/// An attachment asks for its ten operations in order, each once the one before has succeeded.
pub proof fn law_attach_asks_in_order<E>(bindings: Bindings, outcomes: Seq<Result<(), E>>)
    requires
        all_ok(outcomes),
        outcomes.len() < 10,
    ensures
        run(SessionModel::<E>::attaching(), bindings, outcomes).action == GpuAction::<E>::Perform(
            gpu_passthrough::attach_operations(3)[outcomes.len() as int],
        ),
{
    gpu_passthrough::lemma_operation_counts(3);
    lemma_run_in_order(SessionModel::<E>::attaching(), bindings, outcomes);
}

/// A detachment asks for its ten operations in order, whatever comes of them.
pub proof fn law_detach_asks_in_order<E>(bindings: Bindings, outcomes: Seq<Result<(), E>>)
    requires
        outcomes.len() < 10,
    ensures
        run(SessionModel::<E>::detaching(), bindings, outcomes).action == GpuAction::<E>::Perform(
            gpu_passthrough::detach_all_operations()[outcomes.len() as int],
        ),
{
    gpu_passthrough::lemma_operation_counts(3);
    lemma_detach_in_order(bindings, outcomes);
}

/// After a failure, an attachment asks for the operations that undo it in order, whatever comes
/// of them.
pub proof fn law_undo_asks_in_order<E>(
    bindings: Bindings,
    succeeded: Seq<Result<(), E>>,
    error: E,
    later: Seq<Result<(), E>>,
)
    requires
        all_ok(succeeded),
        succeeded.len() < 10,
        later.len() < gpu_passthrough::undo_operations(succeeded.len() as int).len(),
    ensures
        run(
            SessionModel::<E>::attaching(),
            bindings,
            succeeded.push(Err(error)) + later,
        ).action == GpuAction::<E>::Perform(
            gpu_passthrough::undo_operations(succeeded.len() as int)[later.len() as int],
        ),
{
    lemma_undo_in_order(bindings, succeeded, error, later);
}

/// A session that is over asks for nothing and stays as it is.
pub proof fn law_finished_session_idle<E>(session: SessionModel<E>, outcome: Result<(), E>)
    requires
        session.stage is Finished,
    ensures
        session.step(outcome).0 == session,
        session.step(outcome).1 is Idle,
{
}

/// A session is over exactly when it says so.
pub proof fn law_session_says_when_over<E>(session: SessionModel<E>, outcome: Result<(), E>)
    requires
        !(session.stage is Finished),
    ensures
        session.step(outcome).0.stage is Finished <==> session.step(outcome).1 is Finished,
        !(session.step(outcome).1 is Idle),
{
}

} // verus!
