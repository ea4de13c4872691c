use vmm::gpu_passthrough::{
    GpuAction, GpuCall, GpuEventFds, GpuOperation, GpuPassthroughManager, GpuSession,
};
use vmm::pmthor::{IrqIndex, IrqIoctl, IrqSetArgument, IrqSetPayload, PmThorDevice, VfioIrqSet};

const IRQS: [IrqIndex; 3] = [IrqIndex::Job, IrqIndex::Mmu, IrqIndex::Gpu];

fn manager() -> GpuPassthroughManager {
    GpuPassthroughManager::new(
        PmThorDevice { fd: 3 },
        96,
        &[
            GpuEventFds { trigger: 10, resample: 11 },
            GpuEventFds { trigger: 12, resample: 13 },
            GpuEventFds { trigger: 14, resample: 15 },
        ],
    )
}

fn header(argsz: u32, flags: u32, index: u32, count: u32) -> VfioIrqSet {
    VfioIrqSet { argsz, flags, index, start: 0, count }
}

fn with_fd(flags: u32, index: u32, fd: i32) -> IrqIoctl {
    IrqIoctl {
        fd: 3,
        request: 0x40145001,
        argument: IrqSetArgument::WithEventFd(IrqSetPayload { hdr: header(24, flags, index, 1), fd }),
    }
}

fn bare(flags: u32, index: u32) -> IrqIoctl {
    IrqIoctl {
        fd: 3,
        request: 0x40145001,
        argument: IrqSetArgument::Header(header(20, flags, index, 0)),
    }
}

fn attach_plan() -> Vec<GpuOperation> {
    let mut plan = vec![GpuOperation::CleanIrq];
    for irq in IRQS {
        plan.push(GpuOperation::RegisterIrqfd(irq));
        plan.push(GpuOperation::SetUnmaskEvent(irq));
        plan.push(GpuOperation::SetTrigger(irq));
    }
    plan
}

fn drive(
    mut session: GpuSession<i32>,
    mut action: GpuAction<i32>,
    failures: &[(usize, i32)],
) -> (Vec<GpuOperation>, Result<(), i32>) {
    let mut performed = Vec::new();
    loop {
        match action {
            GpuAction::Perform(operation) => {
                let failure = failures.iter().find(|(at, _)| *at == performed.len());
                performed.push(operation);
                let outcome = match failure {
                    Some((_, error)) => Err(*error),
                    None => Ok(()),
                };
                action = session.advance(outcome);
            }
            GpuAction::Finished(result) => {
                assert!(matches!(session.advance(Ok(())), GpuAction::Idle));
                return (performed, result);
            }
            GpuAction::Idle => panic!("the session is not over"),
        }
    }
}

#[test]
fn irq_numbers() {
    assert_eq!(IrqIndex::Job.as_u32(), 0);
    assert_eq!(IrqIndex::Mmu.as_u32(), 1);
    assert_eq!(IrqIndex::Gpu.as_u32(), 2);
}

#[test]
fn pmthor_requests() {
    let device = PmThorDevice { fd: 3 };
    assert_eq!(device.set_trigger(IrqIndex::Mmu, 8), with_fd(1 << 2 | 1 << 5, 1, 8));
    assert_eq!(device.clear_trigger(IrqIndex::Gpu), bare(1 << 5, 2));
    assert_eq!(device.set_unmask_event(IrqIndex::Job, 9), with_fd(1 << 2 | 1 << 4, 0, 9));
    assert_eq!(device.clear_unmask_event(IrqIndex::Gpu), with_fd(1 << 2 | 1 << 4, 2, -1));
    assert_eq!(device.clean_irq(), bare(1 << 6, 0));
}

#[test]
fn guest_lines_are_consecutive() {
    let manager = manager();
    for (at, ctx) in manager.irqs.iter().enumerate() {
        assert_eq!(ctx.gsi, 96 + at as u32);
        assert_eq!(ctx.trigger, 10 + 2 * at as i32);
        assert_eq!(ctx.resample, 11 + 2 * at as i32);
    }
    assert_eq!(manager.pmthor.fd, 3);
}

#[test]
fn calls_of_the_operations() {
    let manager = manager();
    assert_eq!(manager.call(GpuOperation::CleanIrq), GpuCall::Pmthor(bare(0x40, 0)));
    assert_eq!(
        manager.call(GpuOperation::RegisterIrqfd(IrqIndex::Mmu)),
        GpuCall::RegisterIrqfd { trigger: 12, resample: 13, gsi: 97 }
    );
    assert_eq!(
        manager.call(GpuOperation::SetUnmaskEvent(IrqIndex::Mmu)),
        GpuCall::Pmthor(with_fd(0x14, 1, 13))
    );
    assert_eq!(
        manager.call(GpuOperation::SetTrigger(IrqIndex::Gpu)),
        GpuCall::Pmthor(with_fd(0x24, 2, 14))
    );
    assert_eq!(
        manager.call(GpuOperation::ClearUnmaskEvent(IrqIndex::Gpu)),
        GpuCall::Pmthor(with_fd(0x14, 2, -1))
    );
    assert_eq!(
        manager.call(GpuOperation::ClearTrigger(IrqIndex::Mmu)),
        GpuCall::Pmthor(bare(0x20, 1))
    );
    assert_eq!(
        manager.call(GpuOperation::UnregisterIrqfd(IrqIndex::Job)),
        GpuCall::UnregisterIrqfd { trigger: 10, gsi: 96 }
    );
}

#[test]
fn attachment_goes_through_its_operations() {
    let (session, action) = manager().attach_to_kvm();
    assert_eq!(drive(session, action, &[]), (attach_plan(), Ok(())));
}

#[test]
fn attachment_that_cannot_clean_stops() {
    let (session, action) = manager().attach_to_kvm();
    assert_eq!(drive(session, action, &[(0, 5)]), (vec![GpuOperation::CleanIrq], Err(5)));
}

#[test]
fn every_failure_is_undone() {
    for failed in 1..10usize {
        let irq_idx = (failed - 1) / 3;
        let mut expected: Vec<GpuOperation> = attach_plan()[..failed + 1].to_vec();
        if (failed - 1) % 3 == 2 {
            expected.push(GpuOperation::ClearUnmaskEvent(IRQS[irq_idx]));
        }
        if (failed - 1) % 3 >= 1 {
            expected.push(GpuOperation::UnregisterIrqfd(IRQS[irq_idx]));
        }
        for irq in &IRQS[..irq_idx] {
            expected.push(GpuOperation::ClearUnmaskEvent(*irq));
            expected.push(GpuOperation::ClearTrigger(*irq));
            expected.push(GpuOperation::UnregisterIrqfd(*irq));
        }
        let (session, action) = manager().attach_to_kvm();
        assert_eq!(drive(session, action, &[(failed, 16)]), (expected.clone(), Err(16)));
        let (session, action) = manager().attach_to_kvm();
        let failures = [(failed, 16), (failed + 1, 22), (failed + 2, 23)];
        assert_eq!(drive(session, action, &failures), (expected, Err(16)));
    }
}

#[test]
fn detachment_ignores_all_but_the_last_failure() {
    let mut expected = Vec::new();
    for irq in IRQS {
        expected.push(GpuOperation::ClearUnmaskEvent(irq));
        expected.push(GpuOperation::ClearTrigger(irq));
        expected.push(GpuOperation::UnregisterIrqfd(irq));
    }
    expected.push(GpuOperation::CleanIrq);
    let (session, action) = manager().detach_from_kvm();
    assert_eq!(drive(session, action, &[]), (expected.clone(), Ok(())));
    let (session, action) = manager().detach_from_kvm();
    assert_eq!(drive(session, action, &[(0, 1), (4, 2), (8, 3)]), (expected.clone(), Ok(())));
    let (session, action) = manager().detach_from_kvm();
    assert_eq!(drive(session, action, &[(0, 1), (9, 4)]), (expected, Err(4)));
}

#[derive(Clone, Debug, Default, PartialEq, Eq)]
struct Bound {
    irqfds: [bool; 3],
    unmask: [bool; 3],
    trigger: [bool; 3],
}

impl Bound {
    fn perform(&mut self, operation: GpuOperation) {
        match operation {
            GpuOperation::CleanIrq => {
                self.unmask = [false; 3];
                self.trigger = [false; 3];
            }
            GpuOperation::RegisterIrqfd(irq) => self.irqfds[irq.as_u32() as usize] = true,
            GpuOperation::SetUnmaskEvent(irq) => self.unmask[irq.as_u32() as usize] = true,
            GpuOperation::SetTrigger(irq) => self.trigger[irq.as_u32() as usize] = true,
            GpuOperation::ClearUnmaskEvent(irq) => self.unmask[irq.as_u32() as usize] = false,
            GpuOperation::ClearTrigger(irq) => self.trigger[irq.as_u32() as usize] = false,
            GpuOperation::UnregisterIrqfd(irq) => self.irqfds[irq.as_u32() as usize] = false,
        }
    }
}

#[test]
fn a_failed_attachment_leaves_nothing_bound() {
    for failed in 0..10usize {
        let (session, action) = manager().attach_to_kvm();
        let (performed, result) = drive(session, action, &[(failed, 7)]);
        let mut bound = Bound::default();
        for (at, operation) in performed.iter().enumerate() {
            if at != failed {
                bound.perform(*operation);
            }
        }
        assert_eq!(result, Err(7));
        assert_eq!(bound, Bound::default());
    }
}

#[test]
fn detachment_undoes_attachment() {
    let mut bound = Bound::default();
    let (session, action) = manager().attach_to_kvm();
    for operation in drive(session, action, &[]).0 {
        bound.perform(operation);
    }
    assert_eq!(bound, Bound { irqfds: [true; 3], unmask: [true; 3], trigger: [true; 3] });
    let (session, action) = manager().detach_from_kvm();
    for operation in drive(session, action, &[]).0 {
        bound.perform(operation);
    }
    assert_eq!(bound, Bound::default());
}
