//! GPU passthrough IRQ wiring for the local pmthor host device.
//!
//! A [`GpuSession`] decides which operation comes next while the GPU interrupts are attached to
//! a virtual machine or detached from it; whoever holds the device and the KVM handle performs
//! the operation and reports how it went.

use crate::pmthor;
use crate::pmthor::{
    IrqIndex, IrqIoctl, IrqSetArgument, IrqSetPayload, PmThorDevice, VfioIrqSet,
};
use vstd::prelude::*;

verus! {

/// How many physical interrupts the GPU has.
pub const GPU_IRQ_COUNT: usize = 3;

/// The physical interrupts of the GPU, in the order in which they are attached.
pub open spec fn gpu_irqs() -> Seq<IrqIndex> {
    seq![IrqIndex::Job, IrqIndex::Mmu, IrqIndex::Gpu]
}

/// Returns a physical interrupt by its place in the order in which they are attached.
fn gpu_irq(irq_idx: usize) -> (irq: IrqIndex)
    requires
        irq_idx < GPU_IRQ_COUNT,
    ensures
        irq == gpu_irqs()[irq_idx as int],
{
    if irq_idx == 0 {
        IrqIndex::Job
    } else if irq_idx == 1 {
        IrqIndex::Mmu
    } else {
        IrqIndex::Gpu
    }
}

/// The eventfd pair of one interrupt.
#[derive(Clone, Copy, Debug, PartialEq, Eq, Structural)]
pub struct GpuEventFds {
    /// Descriptor of the eventfd that the host signals when the interrupt fires.
    pub trigger: i32,
    /// Descriptor of the eventfd that KVM signals after guest EOI.
    pub resample: i32,
}

/// Eventfds used to bridge one physical GPU IRQ into one guest GSI.
#[derive(Clone, Copy, Debug, PartialEq, Eq, Structural)]
pub struct GpuIrqContext {
    /// Descriptor of the eventfd that the host signals when the interrupt fires.
    pub trigger: i32,
    /// Descriptor of the eventfd that KVM signals after guest EOI.
    pub resample: i32,
    /// Guest interrupt line.
    pub gsi: u32,
}

/// The host pmthor session and the KVM irqfds for a passthrough GPU VM.
#[derive(Debug)]
pub struct GpuPassthroughManager {
    /// The pmthor device.
    pub pmthor: PmThorDevice,
    /// One context for each interrupt of the GPU.
    pub irqs: [GpuIrqContext; GPU_IRQ_COUNT],
}

/// One operation on the host device or on KVM.
#[derive(Clone, Copy, Debug, PartialEq, Eq, Structural)]
pub enum GpuOperation {
    /// Clear all pmthor bindings of the session.
    CleanIrq,
    /// Register the irqfd of the interrupt with KVM, with resampling.
    RegisterIrqfd(IrqIndex),
    /// Bind the resample eventfd to the unmasking of the interrupt.
    SetUnmaskEvent(IrqIndex),
    /// Bind the trigger eventfd to the interrupt.
    SetTrigger(IrqIndex),
    /// Take the resample eventfd back.
    ClearUnmaskEvent(IrqIndex),
    /// Take the trigger eventfd back.
    ClearTrigger(IrqIndex),
    /// Unregister the irqfd of the interrupt from KVM.
    UnregisterIrqfd(IrqIndex),
}

/// The call that performs an operation.
#[derive(Clone, Copy, Debug, PartialEq, Eq, Structural)]
pub enum GpuCall {
    /// An ioctl on the pmthor device.
    Pmthor(IrqIoctl),
    /// KVM is to signal `gsi` on `trigger` and to signal `resample` after guest EOI.
    RegisterIrqfd {
        /// Descriptor of the trigger eventfd.
        trigger: i32,
        /// Descriptor of the resample eventfd.
        resample: i32,
        /// Guest interrupt line.
        gsi: u32,
    },
    /// KVM is no longer to signal `gsi` on `trigger`.
    UnregisterIrqfd {
        /// Descriptor of the trigger eventfd.
        trigger: i32,
        /// Guest interrupt line.
        gsi: u32,
    },
}

impl GpuPassthroughManager {
    /// The context of an interrupt.
    pub open spec fn context(self, irq: IrqIndex) -> GpuIrqContext {
        self.irqs@[irq.number() as int]
    }

    /// Whether the manager wires the interrupts, each with its eventfd pair, to consecutive guest
    /// interrupt lines from `base_gsi` on.
    pub open spec fn wired(
        self,
        pmthor: PmThorDevice,
        base_gsi: u32,
        eventfds: Seq<GpuEventFds>,
    ) -> bool {
        &&& self.pmthor == pmthor
        &&& forall|i: int|
            0 <= i < GPU_IRQ_COUNT ==> #[trigger] self.irqs@[i] == (GpuIrqContext {
                trigger: eventfds[i].trigger,
                resample: eventfds[i].resample,
                gsi: (base_gsi + i) as u32,
            })
    }

    /// The call that performs an operation.
    pub open spec fn spec_call(self, operation: GpuOperation) -> GpuCall {
        match operation {
            GpuOperation::CleanIrq => GpuCall::Pmthor(
                self.pmthor.bare_request(0, pmthor::VFIO_IRQ_CLEAN),
            ),
            GpuOperation::RegisterIrqfd(irq) => GpuCall::RegisterIrqfd {
                trigger: self.context(irq).trigger,
                resample: self.context(irq).resample,
                gsi: self.context(irq).gsi,
            },
            GpuOperation::SetUnmaskEvent(irq) => GpuCall::Pmthor(
                self.pmthor.set_request(
                    irq,
                    pmthor::VFIO_IRQ_SET_ACTION_UNMASK,
                    self.context(irq).resample,
                ),
            ),
            GpuOperation::SetTrigger(irq) => GpuCall::Pmthor(
                self.pmthor.set_request(
                    irq,
                    pmthor::VFIO_IRQ_SET_ACTION_TRIGGER,
                    self.context(irq).trigger,
                ),
            ),
            GpuOperation::ClearUnmaskEvent(irq) => GpuCall::Pmthor(
                self.pmthor.set_request(irq, pmthor::VFIO_IRQ_SET_ACTION_UNMASK, (-1) as i32),
            ),
            GpuOperation::ClearTrigger(irq) => GpuCall::Pmthor(
                self.pmthor.bare_request(irq.number(), pmthor::VFIO_IRQ_SET_ACTION_TRIGGER),
            ),
            GpuOperation::UnregisterIrqfd(irq) => GpuCall::UnregisterIrqfd {
                trigger: self.context(irq).trigger,
                gsi: self.context(irq).gsi,
            },
        }
    }

    /// Wires the interrupts of the GPU, each with its eventfd pair, to consecutive guest
    /// interrupt lines from `base_gsi` on.
    pub fn new(
        pmthor: PmThorDevice,
        base_gsi: u32,
        eventfds: &[GpuEventFds; GPU_IRQ_COUNT],
    ) -> (manager: Self)
        requires
            base_gsi + (GPU_IRQ_COUNT - 1) <= u32::MAX,
        ensures
            manager.wired(pmthor, base_gsi, eventfds@),
            manager.pmthor == pmthor,
            forall|i: int|
                0 <= i < GPU_IRQ_COUNT ==> #[trigger] manager.irqs@[i] == (GpuIrqContext {
                    trigger: eventfds@[i].trigger,
                    resample: eventfds@[i].resample,
                    gsi: (base_gsi + i) as u32,
                }),
    {
        let mut irqs = [GpuIrqContext { trigger: -1, resample: -1, gsi: base_gsi };
            GPU_IRQ_COUNT];
        let mut irq: usize = 0;
        while irq < GPU_IRQ_COUNT
            invariant
                irq <= GPU_IRQ_COUNT,
                base_gsi + (GPU_IRQ_COUNT - 1) <= u32::MAX,
                forall|i: int|
                    0 <= i < irq ==> #[trigger] irqs@[i] == (GpuIrqContext {
                        trigger: eventfds@[i].trigger,
                        resample: eventfds@[i].resample,
                        gsi: (base_gsi + i) as u32,
                    }),
            decreases GPU_IRQ_COUNT - irq,
        {
            irqs[irq] = GpuIrqContext {
                trigger: eventfds[irq].trigger,
                resample: eventfds[irq].resample,
                gsi: base_gsi + irq as u32,
            };
            irq = irq + 1;
        }
        GpuPassthroughManager { pmthor, irqs }
    }

    /// Returns the call that performs an operation.
    pub fn call(&self, operation: GpuOperation) -> (call: GpuCall)
        ensures
            call == self.spec_call(operation),
    {
        match operation {
            GpuOperation::CleanIrq => GpuCall::Pmthor(self.pmthor.clean_irq()),
            GpuOperation::RegisterIrqfd(irq) => {
                let ctx: GpuIrqContext = self.irqs[irq.as_u32() as usize];
                GpuCall::RegisterIrqfd {
                    trigger: ctx.trigger,
                    resample: ctx.resample,
                    gsi: ctx.gsi,
                }
            },
            GpuOperation::SetUnmaskEvent(irq) => {
                let ctx: GpuIrqContext = self.irqs[irq.as_u32() as usize];
                GpuCall::Pmthor(self.pmthor.set_unmask_event(irq, ctx.resample))
            },
            GpuOperation::SetTrigger(irq) => {
                let ctx: GpuIrqContext = self.irqs[irq.as_u32() as usize];
                GpuCall::Pmthor(self.pmthor.set_trigger(irq, ctx.trigger))
            },
            GpuOperation::ClearUnmaskEvent(irq) => GpuCall::Pmthor(
                self.pmthor.clear_unmask_event(irq),
            ),
            GpuOperation::ClearTrigger(irq) => GpuCall::Pmthor(self.pmthor.clear_trigger(irq)),
            GpuOperation::UnregisterIrqfd(irq) => {
                let ctx: GpuIrqContext = self.irqs[irq.as_u32() as usize];
                self.unregister_irqfd(ctx)
            },
        }
    }

    /// Returns the call that unregisters an irqfd.
    fn unregister_irqfd(&self, ctx: GpuIrqContext) -> (call: GpuCall)
        ensures
            call == (GpuCall::UnregisterIrqfd { trigger: ctx.trigger, gsi: ctx.gsi }),
    {
        GpuCall::UnregisterIrqfd { trigger: ctx.trigger, gsi: ctx.gsi }
    }
}

/// The operations that attach one interrupt.
pub open spec fn attach_irq_operations(irq: IrqIndex) -> Seq<GpuOperation> {
    seq![
        GpuOperation::RegisterIrqfd(irq),
        GpuOperation::SetUnmaskEvent(irq),
        GpuOperation::SetTrigger(irq),
    ]
}

/// The operations that detach one interrupt.
pub open spec fn detach_irq_operations(irq: IrqIndex) -> Seq<GpuOperation> {
    seq![
        GpuOperation::ClearUnmaskEvent(irq),
        GpuOperation::ClearTrigger(irq),
        GpuOperation::UnregisterIrqfd(irq),
    ]
}

/// The operations that attach the first `count` interrupts to a clean device.
pub open spec fn attach_operations(count: nat) -> Seq<GpuOperation>
    decreases count,
{
    if count == 0 {
        seq![GpuOperation::CleanIrq]
    } else {
        attach_operations((count - 1) as nat) + attach_irq_operations(gpu_irqs()[count - 1])
    }
}

/// The operations that detach the first `count` interrupts.
pub open spec fn detach_operations(count: nat) -> Seq<GpuOperation>
    decreases count,
{
    if count == 0 {
        Seq::empty()
    } else {
        detach_operations((count - 1) as nat) + detach_irq_operations(gpu_irqs()[count - 1])
    }
}

/// The operations that undo what was done for an interrupt when the operation `done` of its
/// attachment has failed.
pub open spec fn undo_irq_operations(irq: IrqIndex, done: int) -> Seq<GpuOperation> {
    if done == 0 {
        Seq::empty()
    } else if done == 1 {
        seq![GpuOperation::UnregisterIrqfd(irq)]
    } else {
        seq![GpuOperation::ClearUnmaskEvent(irq), GpuOperation::UnregisterIrqfd(irq)]
    }
}

/// The operations that undo an attachment whose operation `failed` has failed: first what was
/// done for the interrupt that it was about, then what was done for the interrupts before.
pub open spec fn undo_operations(failed: int) -> Seq<GpuOperation> {
    if failed == 0 {
        Seq::empty()
    } else {
        let irq_idx = (failed - 1) / 3;
        undo_irq_operations(gpu_irqs()[irq_idx], (failed - 1) % 3) + detach_operations(
            irq_idx as nat,
        )
    }
}

/// The operations that detach the GPU and leave the device clean.
pub open spec fn detach_all_operations() -> Seq<GpuOperation> {
    detach_operations(GPU_IRQ_COUNT as nat).push(GpuOperation::CleanIrq)
}

/// `count` interrupts take three operations each.
pub proof fn lemma_operation_counts(count: nat)
    ensures
        attach_operations(count).len() == 1 + 3 * count,
        detach_operations(count).len() == 3 * count,
    decreases count,
{
    if count > 0 {
        lemma_operation_counts((count - 1) as nat);
    }
}

/// What a session is about.
#[derive(Debug)]
pub enum GpuStage<E> {
    /// The interrupts are attached. The first failure ends this stage.
    Attaching,
    /// A failed attachment, which ends with this error, is undone. Failures do not matter.
    Undoing(E),
    /// The interrupts are detached. Only the last operation can fail.
    Detaching,
    /// Nothing is left to do.
    Finished,
}

/// What is to be done next.
#[derive(Debug)]
pub enum GpuAction<E> {
    /// Perform this operation.
    Perform(GpuOperation),
    /// Nothing: the session is over.
    Finished(Result<(), E>),
    /// Nothing: the session was over before.
    Idle,
}

/// The course of attaching or detaching the GPU.
#[derive(Debug)]
pub struct GpuSession<E> {
    operations: Vec<GpuOperation>,
    next: usize,
    stage: GpuStage<E>,
}

/// The operations of a session, which of them is under way, and what it is about.
pub struct SessionModel<E> {
    /// The operations of the stage.
    pub operations: Seq<GpuOperation>,
    /// Which of them is under way.
    pub next: int,
    /// What the session is about.
    pub stage: GpuStage<E>,
}

impl<E> SessionModel<E> {
    /// A session that attaches the GPU.
    pub open spec fn attaching() -> Self {
        SessionModel {
            operations: attach_operations(GPU_IRQ_COUNT as nat),
            next: 0,
            stage: GpuStage::Attaching,
        }
    }

    /// A session that detaches the GPU.
    pub open spec fn detaching() -> Self {
        SessionModel { operations: detach_all_operations(), next: 0, stage: GpuStage::Detaching }
    }

    /// Whether an operation is under way as long as the session is not over, and the operations
    /// are those of its stage.
    pub open spec fn consistent(self) -> bool {
        match self.stage {
            GpuStage::Attaching => {
                &&& self.operations == attach_operations(GPU_IRQ_COUNT as nat)
                &&& 0 <= self.next < self.operations.len()
            },
            GpuStage::Undoing(_) => 0 <= self.next < self.operations.len(),
            GpuStage::Detaching => {
                &&& self.operations == detach_all_operations()
                &&& 0 <= self.next < self.operations.len()
            },
            GpuStage::Finished => true,
        }
    }

    /// The session goes on to the operation after the one under way.
    pub open spec fn advanced(self) -> (Self, GpuAction<E>) {
        (
            SessionModel { next: self.next + 1, ..self },
            GpuAction::Perform(self.operations[self.next + 1]),
        )
    }

    /// The session is over.
    pub open spec fn finished(self, result: Result<(), E>) -> (Self, GpuAction<E>) {
        (SessionModel { stage: GpuStage::Finished, ..self }, GpuAction::Finished(result))
    }

    /// What the session does when the operation under way had this outcome.
    pub open spec fn step(self, outcome: Result<(), E>) -> (Self, GpuAction<E>) {
        let is_last = self.next + 1 >= self.operations.len();
        match self.stage {
            GpuStage::Attaching => match outcome {
                Ok(_) => if is_last {
                    self.finished(Ok(()))
                } else {
                    self.advanced()
                },
                Err(error) => {
                    let undo = undo_operations(self.next);
                    if undo.len() == 0 {
                        self.finished(Err(error))
                    } else {
                        (
                            SessionModel {
                                operations: undo,
                                next: 0,
                                stage: GpuStage::Undoing(error),
                            },
                            GpuAction::Perform(undo[0]),
                        )
                    }
                },
            },
            GpuStage::Undoing(error) => if is_last {
                self.finished(Err(error))
            } else {
                self.advanced()
            },
            GpuStage::Detaching => if is_last {
                self.finished(outcome)
            } else {
                self.advanced()
            },
            GpuStage::Finished => (self, GpuAction::Idle),
        }
    }
}

impl<E> View for GpuSession<E> {
    type V = SessionModel<E>;

    closed spec fn view(&self) -> SessionModel<E> {
        SessionModel {
            operations: self.operations@,
            next: self.next as int,
            stage: self.stage,
        }
    }
}

impl GpuPassthroughManager {
    /// Lists the operations that attach one interrupt.
    fn attach_irq(operations: &mut Vec<GpuOperation>, irq_idx: usize)
        requires
            irq_idx < GPU_IRQ_COUNT,
        ensures
            final(operations)@ == old(operations)@ + attach_irq_operations(
                gpu_irqs()[irq_idx as int],
            ),
    {
        let host_irq = gpu_irq(irq_idx);
        operations.push(GpuOperation::RegisterIrqfd(host_irq));
        operations.push(GpuOperation::SetUnmaskEvent(host_irq));
        operations.push(GpuOperation::SetTrigger(host_irq));
        assert(operations@ =~= old(operations)@ + attach_irq_operations(
            gpu_irqs()[irq_idx as int],
        ));
    }

    /// Lists the operations that detach the first `count` interrupts, or all if there are fewer.
    fn detach_attached_irqs(operations: &mut Vec<GpuOperation>, count: usize)
        ensures
            final(operations)@ == old(operations)@ + detach_operations(
                if count < GPU_IRQ_COUNT {
                    count as nat
                } else {
                    GPU_IRQ_COUNT as nat
                },
            ),
    {
        let limit: usize = if count < GPU_IRQ_COUNT {
            count
        } else {
            GPU_IRQ_COUNT
        };
        let mut irq_idx: usize = 0;
        assert(operations@ =~= old(operations)@ + detach_operations(0));
        while irq_idx < limit
            invariant
                irq_idx <= limit <= GPU_IRQ_COUNT,
                operations@ == old(operations)@ + detach_operations(irq_idx as nat),
            decreases limit - irq_idx,
        {
            let host_irq = gpu_irq(irq_idx);
            operations.push(GpuOperation::ClearUnmaskEvent(host_irq));
            operations.push(GpuOperation::ClearTrigger(host_irq));
            operations.push(GpuOperation::UnregisterIrqfd(host_irq));
            irq_idx = irq_idx + 1;
            assert(operations@ =~= old(operations)@ + detach_operations(irq_idx as nat));
        }
    }

    /// Lists the operations that undo an attachment whose operation `failed` has failed.
    fn undo(failed: usize) -> (operations: Vec<GpuOperation>)
        requires
            failed <= 3 * GPU_IRQ_COUNT,
        ensures
            operations@ == undo_operations(failed as int),
    {
        let mut operations: Vec<GpuOperation> = Vec::new();
        if failed == 0 {
            assert(operations@ =~= undo_operations(0));
            return operations;
        }
        let irq_idx: usize = (failed - 1) / 3;
        let done: usize = (failed - 1) % 3;
        let host_irq = gpu_irq(irq_idx);
        if done == 2 {
            operations.push(GpuOperation::ClearUnmaskEvent(host_irq));
        }
        if done >= 1 {
            operations.push(GpuOperation::UnregisterIrqfd(host_irq));
        }
        assert(operations@ =~= undo_irq_operations(host_irq, done as int));
        Self::detach_attached_irqs(&mut operations, irq_idx);
        operations
    }

    /// Starts to attach the GPU: the host session is cleaned, then for each interrupt the irqfd
    /// is registered with KVM and the host interrupt bound to its eventfds. The first failure
    /// undoes what was done and is what the session returns.
    pub fn attach_to_kvm<E>(&self) -> (started: (GpuSession<E>, GpuAction<E>))
        ensures
            started.0@ == SessionModel::<E>::attaching(),
            started.0.wf(),
            started.1 == GpuAction::<E>::Perform(GpuOperation::CleanIrq),
    {
        let mut operations: Vec<GpuOperation> = Vec::new();
        operations.push(GpuOperation::CleanIrq);
        assert(operations@ =~= attach_operations(0));
        let mut irq_idx: usize = 0;
        while irq_idx < GPU_IRQ_COUNT
            invariant
                irq_idx <= GPU_IRQ_COUNT,
                operations@ == attach_operations(irq_idx as nat),
            decreases GPU_IRQ_COUNT - irq_idx,
        {
            Self::attach_irq(&mut operations, irq_idx);
            irq_idx = irq_idx + 1;
        }
        proof {
            lemma_operation_counts(GPU_IRQ_COUNT as nat);
        }
        (
            GpuSession { operations, next: 0, stage: GpuStage::Attaching },
            GpuAction::Perform(GpuOperation::CleanIrq),
        )
    }

    /// Starts to detach the GPU: every interrupt is unbound and its irqfd unregistered, whatever
    /// comes of it, then the host session is cleaned, and what comes of that is what the session
    /// returns.
    pub fn detach_from_kvm<E>(&self) -> (started: (GpuSession<E>, GpuAction<E>))
        ensures
            started.0@ == SessionModel::<E>::detaching(),
            started.0.wf(),
            started.1 == GpuAction::<E>::Perform(detach_all_operations()[0]),
    {
        let mut operations: Vec<GpuOperation> = Vec::new();
        Self::detach_attached_irqs(&mut operations, GPU_IRQ_COUNT);
        operations.push(GpuOperation::CleanIrq);
        proof {
            assert(operations@ =~= detach_all_operations());
            lemma_operation_counts(GPU_IRQ_COUNT as nat);
        }
        let first = operations[0];
        (
            GpuSession { operations, next: 0, stage: GpuStage::Detaching },
            GpuAction::Perform(first),
        )
    }
}

/// A session that is well formed is consistent.
pub proof fn law_wf_consistent<E>(session: GpuSession<E>)
    requires
        session.wf(),
    ensures
        session@.consistent(),
{
}

impl<E> GpuSession<E> {
    /// Whether the session is consistent.
    pub closed spec fn wf(self) -> bool {
        self@.consistent()
    }

    /// Takes the session one step further: `outcome` says how the last operation went, and the
    /// returned action is what to do next.
    pub fn advance(&mut self, outcome: Result<(), E>) -> (action: GpuAction<E>)
        requires
            old(self).wf(),
        ensures
            final(self).wf(),
            (final(self)@, action) == old(self)@.step(outcome),
    {
        let mut stage = GpuStage::Finished;
        std::mem::swap(&mut stage, &mut self.stage);
        match stage {
            GpuStage::Attaching => match outcome {
                Ok(_) => {
                    if self.at_last() {
                        return GpuAction::Finished(Ok(()));
                    }
                    self.stage = GpuStage::Attaching;
                },
                Err(error) => {
                    proof {
                        lemma_operation_counts(GPU_IRQ_COUNT as nat);
                    }
                    let undo: Vec<GpuOperation> = GpuPassthroughManager::undo(self.next);
                    if undo.len() == 0 {
                        return GpuAction::Finished(Err(error));
                    }
                    let first = undo[0];
                    self.operations = undo;
                    self.next = 0;
                    self.stage = GpuStage::Undoing(error);
                    return GpuAction::Perform(first);
                },
            },
            GpuStage::Undoing(error) => {
                if self.at_last() {
                    return GpuAction::Finished(Err(error));
                }
                self.stage = GpuStage::Undoing(error);
            },
            GpuStage::Detaching => {
                if self.at_last() {
                    return GpuAction::Finished(outcome);
                }
                self.stage = GpuStage::Detaching;
            },
            GpuStage::Finished => {
                return GpuAction::Idle;
            },
        }
        self.next = self.next + 1;
        GpuAction::Perform(self.operations[self.next])
    }

    /// Whether the operation under way is the last of its stage.
    fn at_last(&self) -> (last: bool)
        requires
            self.next < self.operations@.len(),
        ensures
            last == (self.next + 1 >= self.operations@.len()),
            self.operations@.len() <= usize::MAX,
    {
        self.next >= self.operations.len() - 1
    }
}

/// Each interrupt is registered with KVM with its own eventfds and on its own guest interrupt
/// line, which is as far from the first line as the interrupt is from the first interrupt; and
/// what is unregistered is what was registered.
pub proof fn law_irqfds_wired(
    manager: GpuPassthroughManager,
    pmthor: PmThorDevice,
    base_gsi: u32,
    eventfds: Seq<GpuEventFds>,
    irq: IrqIndex,
)
    requires
        manager.wired(pmthor, base_gsi, eventfds),
        base_gsi + 2 <= u32::MAX,
    ensures
        ({
            let n = if irq is Job {
                0
            } else if irq is Mmu {
                1
            } else {
                2int
            };
            &&& manager.spec_call(GpuOperation::RegisterIrqfd(irq))
                matches GpuCall::RegisterIrqfd { trigger, resample, gsi }
            &&& trigger == eventfds[n].trigger
            &&& resample == eventfds[n].resample
            &&& gsi == base_gsi + n
            &&& manager.spec_call(GpuOperation::UnregisterIrqfd(irq)) == (
            GpuCall::UnregisterIrqfd { trigger, gsi })
        }),
{
}

/// Different interrupts are registered on different guest interrupt lines.
pub proof fn law_lines_differ(
    manager: GpuPassthroughManager,
    pmthor: PmThorDevice,
    base_gsi: u32,
    eventfds: Seq<GpuEventFds>,
    left: IrqIndex,
    right: IrqIndex,
)
    requires
        manager.wired(pmthor, base_gsi, eventfds),
        base_gsi + 2 <= u32::MAX,
        left != right,
    ensures
        manager.spec_call(GpuOperation::RegisterIrqfd(left))->RegisterIrqfd_gsi
            != manager.spec_call(GpuOperation::RegisterIrqfd(right))->RegisterIrqfd_gsi,
{
    law_irqfds_wired(manager, pmthor, base_gsi, eventfds, left);
    law_irqfds_wired(manager, pmthor, base_gsi, eventfds, right);
}

/// The host binds the eventfds that KVM was told of: the interrupt signals its trigger eventfd
/// and is unmasked by its resample eventfd. Both are taken back from the same interrupt, and
/// cleaning is about no interrupt. All of it goes to the device that was given.
pub proof fn law_host_bindings_wired(
    manager: GpuPassthroughManager,
    pmthor: PmThorDevice,
    base_gsi: u32,
    eventfds: Seq<GpuEventFds>,
    irq: IrqIndex,
)
    requires
        manager.wired(pmthor, base_gsi, eventfds),
        base_gsi + 2 <= u32::MAX,
    ensures
        ({
            let n = if irq is Job {
                0u32
            } else if irq is Mmu {
                1u32
            } else {
                2u32
            };
            let with_eventfd = |flags: u32, fd: i32| GpuCall::Pmthor(
                IrqIoctl {
                    fd: pmthor.fd,
                    request: 0x4014_5001,
                    argument: IrqSetArgument::WithEventFd(
                        IrqSetPayload {
                            hdr: VfioIrqSet { argsz: 24, flags, index: n, start: 0, count: 1 },
                            fd,
                        },
                    ),
                },
            );
            let without = |flags: u32, index: u32| GpuCall::Pmthor(
                IrqIoctl {
                    fd: pmthor.fd,
                    request: 0x4014_5001,
                    argument: IrqSetArgument::Header(
                        VfioIrqSet { argsz: 20, flags, index, start: 0, count: 0 },
                    ),
                },
            );
            &&& manager.spec_call(GpuOperation::SetTrigger(irq)) == with_eventfd(
                0x24,
                eventfds[n as int].trigger,
            )
            &&& manager.spec_call(GpuOperation::SetUnmaskEvent(irq)) == with_eventfd(
                0x14,
                eventfds[n as int].resample,
            )
            &&& manager.spec_call(GpuOperation::ClearUnmaskEvent(irq)) == with_eventfd(
                0x14,
                (-1) as i32,
            )
            &&& manager.spec_call(GpuOperation::ClearTrigger(irq)) == without(0x20, n)
            &&& manager.spec_call(GpuOperation::CleanIrq) == without(0x40, 0)
        }),
{
    assert(0x04u32 | 0x20u32 == 0x24u32) by (bit_vector);
    assert(0x04u32 | 0x10u32 == 0x14u32) by (bit_vector);
}

/// The GPU is attached by ten operations: the device is cleaned, then job manager, MMU and GPU
/// control get, one after the other, their irqfd, their unmask eventfd and their trigger.
pub proof fn law_attach_plan(irq: IrqIndex)
    ensures
        ({
            let plan = attach_operations(3);
            let at = if irq is Job {
                1
            } else if irq is Mmu {
                4
            } else {
                7int
            };
            &&& plan.len() == 10
            &&& plan[0] == GpuOperation::CleanIrq
            &&& plan[at] == GpuOperation::RegisterIrqfd(irq)
            &&& plan[at + 1] == GpuOperation::SetUnmaskEvent(irq)
            &&& plan[at + 2] == GpuOperation::SetTrigger(irq)
        }),
{
    reveal_with_fuel(attach_operations, 4);
}

/// The GPU is detached by ten operations: job manager, MMU and GPU control lose, one after the
/// other, their unmask eventfd, their trigger and their irqfd, then the device is cleaned.
pub proof fn law_detach_plan(irq: IrqIndex)
    ensures
        ({
            let plan = detach_all_operations();
            let at = if irq is Job {
                0
            } else if irq is Mmu {
                3
            } else {
                6int
            };
            &&& plan.len() == 10
            &&& plan[at] == GpuOperation::ClearUnmaskEvent(irq)
            &&& plan[at + 1] == GpuOperation::ClearTrigger(irq)
            &&& plan[at + 2] == GpuOperation::UnregisterIrqfd(irq)
            &&& plan[9] == GpuOperation::CleanIrq
        }),
{
    reveal_with_fuel(detach_operations, 4);
}

/// A failed attachment is undone by one operation for each that succeeded after the device was
/// clean: first what was done for the interrupt that it failed at, then, from the first interrupt
/// on, all that was done for those before it. Nothing else is done.
pub proof fn law_undo_plan(failed: int, irq: IrqIndex)
    requires
        0 <= failed <= 9,
    ensures
        ({
            let undo = undo_operations(failed);
            let at = if irq is Job {
                1
            } else if irq is Mmu {
                4
            } else {
                7int
            };
            let own = (failed - 1) % 3;
            &&& failed <= 1 ==> undo.len() == 0
            &&& failed >= 1 ==> undo.len() == failed - 1
            &&& failed == at + 1 ==> undo[0] == GpuOperation::UnregisterIrqfd(irq)
            &&& failed == at + 2 ==> undo[0] == GpuOperation::ClearUnmaskEvent(irq) && undo[1]
                == GpuOperation::UnregisterIrqfd(irq)
            &&& failed >= at + 3 ==> {
                &&& undo[own + at - 1] == GpuOperation::ClearUnmaskEvent(irq)
                &&& undo[own + at] == GpuOperation::ClearTrigger(irq)
                &&& undo[own + at + 1] == GpuOperation::UnregisterIrqfd(irq)
            }
        }),
{
    reveal_with_fuel(detach_operations, 4);
    assert(failed == 0 || failed == 1 || failed == 2 || failed == 3 || failed == 4 || failed == 5
        || failed == 6 || failed == 7 || failed == 8 || failed == 9);
}

} // verus!
