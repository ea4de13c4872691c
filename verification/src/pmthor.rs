//! Requests to the local pmthor VFIO-style IRQ control device.

use vstd::prelude::*;

verus! {

/// The payload carries an eventfd.
pub const VFIO_IRQ_SET_DATA_EVENTFD: u32 = 0x04;

/// The request is about the eventfd that unmasks the interrupt.
pub const VFIO_IRQ_SET_ACTION_UNMASK: u32 = 0x10;

/// The request is about the eventfd that the interrupt signals.
pub const VFIO_IRQ_SET_ACTION_TRIGGER: u32 = 0x20;

/// The request clears all bindings.
pub const VFIO_IRQ_CLEAN: u32 = 0x40;

/// Number of the ioctl that takes all requests.
pub const PMTHOR_IOCTL_SET_IRQS: i32 = 0x4014_5001;

/// Size in bytes of a [`VfioIrqSet`] in memory.
pub const VFIO_IRQ_SET_SIZE: u32 = 20;

/// Size in bytes of an [`IrqSetPayload`] in memory.
pub const IRQ_SET_PAYLOAD_SIZE: u32 = 24;

/// Physical GPU IRQ indices exposed by the host pmthor driver.
#[derive(Clone, Copy, Debug, PartialEq, Eq, Structural)]
pub enum IrqIndex {
    /// Job manager interrupt.
    Job,
    /// MMU interrupt.
    Mmu,
    /// GPU control interrupt.
    Gpu,
}

impl IrqIndex {
    /// The number that stands for the interrupt in a request.
    pub open spec fn number(self) -> u32 {
        match self {
            IrqIndex::Job => 0,
            IrqIndex::Mmu => 1,
            IrqIndex::Gpu => 2,
        }
    }

    /// Returns the number that stands for the interrupt in a request.
    pub fn as_u32(self) -> (number: u32)
        ensures
            number == self.number(),
    {
        match self {
            IrqIndex::Job => 0,
            IrqIndex::Mmu => 1,
            IrqIndex::Gpu => 2,
        }
    }
}

/// Header shared with the pmthor `PMTHOR_IOCTL_SET_IRQS` ioctl.
#[derive(Clone, Copy, Debug, PartialEq, Eq, Structural)]
pub struct VfioIrqSet {
    /// Size of the ioctl payload.
    pub argsz: u32,
    /// VFIO-style data and action flags.
    pub flags: u32,
    /// IRQ index.
    pub index: u32,
    /// First IRQ in the range.
    pub start: u32,
    /// Number of IRQs in the range.
    pub count: u32,
}

/// A header followed by an eventfd.
#[derive(Clone, Copy, Debug, PartialEq, Eq, Structural)]
pub struct IrqSetPayload {
    /// The header.
    pub hdr: VfioIrqSet,
    /// The eventfd, or -1 for none.
    pub fd: i32,
}

/// The argument of a request.
#[derive(Clone, Copy, Debug, PartialEq, Eq, Structural)]
pub enum IrqSetArgument {
    /// A header alone.
    Header(VfioIrqSet),
    /// A header followed by an eventfd.
    WithEventFd(IrqSetPayload),
}

/// An ioctl to make.
#[derive(Clone, Copy, Debug, PartialEq, Eq, Structural)]
pub struct IrqIoctl {
    /// The descriptor of the device.
    pub fd: i32,
    /// Number of the ioctl.
    pub request: i32,
    /// Its argument.
    pub argument: IrqSetArgument,
}

/// Handle for `/dev/pmthor`.
#[derive(Debug)]
pub struct PmThorDevice {
    /// The descriptor of the open device.
    pub fd: i32,
}

impl PmThorDevice {
    /// The request that binds an eventfd to one interrupt.
    pub open spec fn set_request(self, index: IrqIndex, action: u32, fd: i32) -> IrqIoctl {
        IrqIoctl {
            fd: self.fd,
            request: PMTHOR_IOCTL_SET_IRQS,
            argument: IrqSetArgument::WithEventFd(
                IrqSetPayload {
                    hdr: VfioIrqSet {
                        argsz: IRQ_SET_PAYLOAD_SIZE,
                        flags: VFIO_IRQ_SET_DATA_EVENTFD | action,
                        index: index.number(),
                        start: 0,
                        count: 1,
                    },
                    fd,
                },
            ),
        }
    }

    /// The request of `flags` that carries no eventfd and names no range.
    pub open spec fn bare_request(self, index: u32, flags: u32) -> IrqIoctl {
        IrqIoctl {
            fd: self.fd,
            request: PMTHOR_IOCTL_SET_IRQS,
            argument: IrqSetArgument::Header(
                VfioIrqSet { argsz: VFIO_IRQ_SET_SIZE, flags, index, start: 0, count: 0 },
            ),
        }
    }

    /// Builds the request that binds an eventfd to one interrupt.
    fn set_irq_raw(&self, index: IrqIndex, action: u32, fd: i32) -> (ioctl: IrqIoctl)
        ensures
            ioctl == self.set_request(index, action, fd),
    {
        IrqIoctl {
            fd: self.fd,
            request: PMTHOR_IOCTL_SET_IRQS,
            argument: IrqSetArgument::WithEventFd(
                IrqSetPayload {
                    hdr: VfioIrqSet {
                        argsz: IRQ_SET_PAYLOAD_SIZE,
                        flags: VFIO_IRQ_SET_DATA_EVENTFD | action,
                        index: index.as_u32(),
                        start: 0,
                        count: 1,
                    },
                    fd,
                },
            ),
        }
    }

    /// Builds the request that takes the eventfd of `action` from one interrupt.
    fn clear_irq_raw(&self, index: IrqIndex, action: u32) -> (ioctl: IrqIoctl)
        ensures
            ioctl == self.bare_request(index.number(), action),
    {
        IrqIoctl {
            fd: self.fd,
            request: PMTHOR_IOCTL_SET_IRQS,
            argument: IrqSetArgument::Header(
                VfioIrqSet {
                    argsz: VFIO_IRQ_SET_SIZE,
                    flags: action,
                    index: index.as_u32(),
                    start: 0,
                    count: 0,
                },
            ),
        }
    }

    /// Installs an eventfd that is signaled when the selected physical IRQ fires.
    pub fn set_trigger(&self, index: IrqIndex, fd: i32) -> (ioctl: IrqIoctl)
        ensures
            ioctl == self.set_request(index, VFIO_IRQ_SET_ACTION_TRIGGER, fd),
            ioctl.argument matches IrqSetArgument::WithEventFd(payload) && payload.hdr.flags
                == 0x24,
    {
        assert(0x04u32 | 0x20u32 == 0x24u32) by (bit_vector);
        self.set_irq_raw(index, VFIO_IRQ_SET_ACTION_TRIGGER, fd)
    }

    /// Removes the trigger eventfd for the selected physical IRQ.
    pub fn clear_trigger(&self, index: IrqIndex) -> (ioctl: IrqIoctl)
        ensures
            ioctl == self.bare_request(index.number(), VFIO_IRQ_SET_ACTION_TRIGGER),
            ioctl.argument matches IrqSetArgument::Header(hdr) && hdr.flags == 0x20,
    {
        self.clear_irq_raw(index, VFIO_IRQ_SET_ACTION_TRIGGER)
    }

    /// Installs an eventfd that unmasks the selected physical IRQ after guest EOI.
    pub fn set_unmask_event(&self, index: IrqIndex, fd: i32) -> (ioctl: IrqIoctl)
        ensures
            ioctl == self.set_request(index, VFIO_IRQ_SET_ACTION_UNMASK, fd),
            ioctl.argument matches IrqSetArgument::WithEventFd(payload) && payload.hdr.flags
                == 0x14,
    {
        assert(0x04u32 | 0x10u32 == 0x14u32) by (bit_vector);
        self.set_irq_raw(index, VFIO_IRQ_SET_ACTION_UNMASK, fd)
    }

    /// Removes the unmask eventfd for the selected physical IRQ.
    pub fn clear_unmask_event(&self, index: IrqIndex) -> (ioctl: IrqIoctl)
        ensures
            ioctl == self.set_request(index, VFIO_IRQ_SET_ACTION_UNMASK, (-1) as i32),
            ioctl.argument matches IrqSetArgument::WithEventFd(payload) && payload.hdr.flags
                == 0x14,
    {
        assert(0x04u32 | 0x10u32 == 0x14u32) by (bit_vector);
        self.set_irq_raw(index, VFIO_IRQ_SET_ACTION_UNMASK, -1)
    }

    /// Clears all pmthor IRQ bindings owned by this device session.
    pub fn clean_irq(&self) -> (ioctl: IrqIoctl)
        ensures
            ioctl == self.bare_request(0, VFIO_IRQ_CLEAN),
            ioctl.argument matches IrqSetArgument::Header(hdr) && hdr.flags == 0x40,
    {
        IrqIoctl {
            fd: self.fd,
            request: PMTHOR_IOCTL_SET_IRQS,
            argument: IrqSetArgument::Header(
                VfioIrqSet {
                    argsz: VFIO_IRQ_SET_SIZE,
                    flags: VFIO_IRQ_CLEAN,
                    index: 0,
                    start: 0,
                    count: 0,
                },
            ),
        }
    }
}

/// The interrupts are numbered: job manager zero, MMU one, GPU control two.
pub proof fn law_irq_numbers(irq: IrqIndex)
    ensures
        irq.number() == 0 <==> irq is Job,
        irq.number() == 1 <==> irq is Mmu,
        irq.number() == 2 <==> irq is Gpu,
{
}

/// A request with an eventfd goes to the device as the one ioctl that it knows, says that it is
/// twenty-four bytes long and carries an eventfd, is about exactly one interrupt, and carries
/// the eventfd that was given.
pub proof fn law_eventfd_request(device: PmThorDevice, irq: IrqIndex, action: u32, fd: i32)
    ensures
        ({
            let ioctl = device.set_request(irq, action, fd);
            &&& ioctl.fd == device.fd
            &&& ioctl.request == 0x4014_5001
            &&& ioctl.argument matches IrqSetArgument::WithEventFd(payload)
            &&& payload.fd == fd
            &&& payload.hdr.argsz == 24
            &&& payload.hdr.flags == 0x04u32 | action
            &&& payload.hdr.index == 0 <==> irq is Job
            &&& payload.hdr.index == 1 <==> irq is Mmu
            &&& payload.hdr.index == 2 <==> irq is Gpu
            &&& payload.hdr.start == 0
            &&& payload.hdr.count == 1
        }),
{
}

/// A request without an eventfd goes to the device as the one ioctl that it knows, says that it
/// is twenty bytes long, has exactly the flags and the number that were given, and names no
/// range.
pub proof fn law_bare_request(device: PmThorDevice, index: u32, flags: u32)
    ensures
        ({
            let ioctl = device.bare_request(index, flags);
            &&& ioctl.fd == device.fd
            &&& ioctl.request == 0x4014_5001
            &&& ioctl.argument matches IrqSetArgument::Header(hdr)
            &&& hdr.argsz == 20
            &&& hdr.flags == flags
            &&& hdr.index == index
            &&& hdr.start == 0
            &&& hdr.count == 0
        }),
{
}

} // verus!
