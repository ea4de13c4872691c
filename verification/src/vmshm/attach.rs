//! Attaching the configured windows, one after the other.
//!
//! [`attach_vmshm_regions`] decides what happens next; whoever holds the socket, the memfd and
//! the KVM handle performs it and reports how it went.

use super::error::VmshmError;
use super::guest_memory;
use super::guest_memory::GuestRam;
use super::handshake;
use super::handshake::{ReceivedMessage, VmshmHandshakeReply};
use super::region;
use super::region::{UserMemoryRegion, VmshmRegion};
use crate::vmm_config::VmshmDeviceConfig;
use vstd::prelude::*;

verus! {

/// The part of a virtual machine that windows are attached to.
pub struct Vmm {
    /// Guest RAM.
    pub guest_memory: GuestRam,
    /// The windows attached so far.
    pub vmshm_regions: Vec<VmshmRegion>,
}

/// What an attachment waits for.
#[derive(Debug)]
pub enum AttachPhase {
    /// To be started.
    Ready,
    /// The connection to the broker.
    Connecting,
    /// The request to be written.
    Requesting,
    /// The reply to be received.
    Receiving,
    /// The memfd to be taken out of the control messages.
    Taking(VmshmHandshakeReply),
    /// The memfd to be mapped.
    Mapping(VmshmHandshakeReply),
    /// KVM to accept the memory slot.
    Registering(VmshmRegion),
    /// Nothing any more.
    Finished,
}

/// How the last action went.
pub enum VmshmEvent {
    /// The attachment is to start.
    Start,
    /// The broker socket was connected to, or not.
    Connected(Result<(), std::io::Error>),
    /// The request was written, or not.
    RequestSent(Result<(), std::io::Error>),
    /// A message was received, or not.
    ReplyReceived(Result<ReceivedMessage, std::io::Error>),
    /// The memfd is owned.
    FdTaken,
    /// The memfd was mapped at this host address, or not.
    WindowMapped(Result<u64, vm_memory::mmap::MmapRegionError>),
    /// KVM accepted the memory slot, or not.
    RegionRegistered(Result<(), kvm_ioctls::Error>),
}

/// How a message is to be received.
#[derive(Clone, Copy, Debug, PartialEq, Eq, Structural)]
pub struct ReceiveCall {
    /// Room for payload, in bytes.
    pub payload_len: usize,
    /// Room for control messages, in bytes.
    pub control_len: usize,
    /// Flags of the receive call.
    pub flags: i32,
}

/// How a memfd is to be mapped.
#[derive(Clone, Copy, Debug, PartialEq, Eq, Structural)]
pub struct WindowMapping {
    /// How many bytes to map.
    pub size: usize,
    /// Where in the memfd the mapping starts.
    pub offset: u64,
    /// Whether the mapping can be read.
    pub read: bool,
    /// Whether the mapping can be written.
    pub write: bool,
    /// Whether what is written is seen by everyone who maps the memfd.
    pub shared: bool,
}

/// What is to be done next.
pub enum VmshmAction {
    /// Connect to the broker socket at this path.
    Connect(String),
    /// Write this request.
    SendRequest(Vec<u8>),
    /// Receive one message, with its control messages.
    ReceiveReply(ReceiveCall),
    /// Take ownership of the first descriptor in this control message.
    TakeFd(usize),
    /// Map the memfd.
    MapWindow(WindowMapping),
    /// Tell KVM of this memory slot.
    Register(UserMemoryRegion),
    /// Nothing: the attachment is over.
    Finished(Result<(), VmshmError>),
    /// Nothing: the event does not answer the last action and was not taken.
    Unexpected,
}

/// A [`VmshmAction`] with the request as a sequence of bytes.
pub enum ActionModel {
    /// See [`VmshmAction::Connect`].
    Connect(String),
    /// See [`VmshmAction::SendRequest`].
    SendRequest(Seq<u8>),
    /// See [`VmshmAction::ReceiveReply`].
    ReceiveReply(ReceiveCall),
    /// See [`VmshmAction::TakeFd`].
    TakeFd(usize),
    /// See [`VmshmAction::MapWindow`].
    MapWindow(WindowMapping),
    /// See [`VmshmAction::Register`].
    Register(UserMemoryRegion),
    /// See [`VmshmAction::Finished`].
    Finished(Result<(), VmshmError>),
    /// See [`VmshmAction::Unexpected`].
    Unexpected,
}

impl View for VmshmAction {
    type V = ActionModel;

    open spec fn view(&self) -> ActionModel {
        match *self {
            VmshmAction::Connect(path) => ActionModel::Connect(path),
            VmshmAction::SendRequest(request) => ActionModel::SendRequest(request@),
            VmshmAction::ReceiveReply(call) => ActionModel::ReceiveReply(call),
            VmshmAction::TakeFd(message) => ActionModel::TakeFd(message),
            VmshmAction::MapWindow(mapping) => ActionModel::MapWindow(mapping),
            VmshmAction::Register(slot) => ActionModel::Register(slot),
            VmshmAction::Finished(result) => ActionModel::Finished(result),
            VmshmAction::Unexpected => ActionModel::Unexpected,
        }
    }
}

/// The course of one attachment.
pub struct VmshmAttachment {
    configs: Vec<VmshmDeviceConfig>,
    next: usize,
    used_slots: Vec<u32>,
    phase: AttachPhase,
}

/// What an attachment has to do, how far it is, and what it waits for.
pub struct AttachModel {
    /// The configurations of the windows to attach, in order.
    pub configs: Seq<VmshmDeviceConfig>,
    /// How many of them are attached.
    pub next: nat,
    /// What the attachment waits for.
    pub phase: AttachPhase,
}

/// What one step comes to.
pub struct AttachStep {
    /// The attachment after the step.
    pub model: AttachModel,
    /// The window that the step added to the machine.
    pub attached: Option<VmshmRegion>,
    /// What is to be done next.
    pub action: ActionModel,
}

impl AttachStep {
    /// The windows of the machine after the step, where it had `regions` before.
    pub open spec fn regions_after(self, regions: Seq<VmshmRegion>) -> Seq<VmshmRegion> {
        match self.attached {
            Some(region) => regions.push(region),
            None => regions,
        }
    }
}

/// The slots of a list of configurations.
pub open spec fn slots(configs: Seq<VmshmDeviceConfig>) -> Seq<u32> {
    configs.map_values(|config: VmshmDeviceConfig| config.slot)
}

/// How a reply is received: into room for exactly one reply and a few control messages, without
/// flags.
pub open spec fn reply_call() -> ReceiveCall {
    ReceiveCall {
        payload_len: handshake::REPLY_LEN,
        control_len: handshake::CONTROL_LEN,
        flags: 0,
    }
}

/// How a window of `size` bytes is mapped: whole, from the start of its memfd, for reading and
/// writing, and shared with the other participants.
pub open spec fn window_mapping(size: u64) -> WindowMapping {
    WindowMapping { size: size as usize, offset: 0, read: true, write: true, shared: true }
}

/// The window that a reply grants to a configuration, mapped at `host_addr`.
pub open spec fn granted_region(
    config: VmshmDeviceConfig,
    reply: VmshmHandshakeReply,
    host_addr: u64,
) -> VmshmRegion {
    VmshmRegion {
        config,
        host_addr,
        window_size: reply.window_size,
        flags: reply.flags,
        generation: reply.generation,
    }
}

impl AttachModel {
    /// The attachment of `configs` before it starts.
    pub open spec fn fresh(configs: Seq<VmshmDeviceConfig>) -> Self {
        AttachModel { configs, next: 0, phase: AttachPhase::Ready }
    }

    /// The configuration that the attachment is at.
    pub open spec fn config(self) -> VmshmDeviceConfig {
        self.configs[self.next as int]
    }

    /// The slots of the windows attached so far.
    pub open spec fn used_slots(self) -> Seq<u32> {
        slots(self.configs.take(self.next as int))
    }

    /// The attachment goes on to wait for `phase`, with `action` to be done.
    pub open spec fn wait(self, phase: AttachPhase, action: ActionModel) -> AttachStep {
        AttachStep { model: AttachModel { phase, ..self }, attached: None, action }
    }

    /// The attachment is over.
    pub open spec fn finish(self, result: Result<(), VmshmError>) -> AttachStep {
        self.wait(AttachPhase::Finished, ActionModel::Finished(result))
    }

    /// The attachment turns to the next configuration, or is over if there is none.
    pub open spec fn begin(self) -> AttachStep {
        if self.next >= self.configs.len() {
            self.finish(Ok(()))
        } else {
            match handshake::name_verdict(self.config()) {
                Err(error) => self.finish(Err(error)),
                Ok(_) => self.wait(
                    AttachPhase::Connecting,
                    ActionModel::Connect(self.config().socket_path),
                ),
            }
        }
    }

    /// The reply is judged once its memfd is owned.
    pub open spec fn judge(self, reply: VmshmHandshakeReply) -> AttachStep {
        match handshake::reply_verdict(self.config(), reply) {
            Err(error) => self.finish(Err(error)),
            Ok(_) => if reply.window_size > usize::MAX {
                self.finish(Err(VmshmError::WindowTooLarge(reply.window_size)))
            } else {
                self.wait(
                    AttachPhase::Mapping(reply),
                    ActionModel::MapWindow(window_mapping(reply.window_size)),
                )
            },
        }
    }

    /// The window is judged once it is mapped.
    pub open spec fn place(self, ram: Seq<(u64, u64)>, region: VmshmRegion) -> AttachStep {
        match region::region_verdict(ram, region, self.used_slots()) {
            Err(error) => self.finish(Err(error)),
            Ok(_) => self.wait(
                AttachPhase::Registering(region),
                ActionModel::Register(region.user_memory()),
            ),
        }
    }

    /// The window is attached once KVM has its slot.
    pub open spec fn attach(self, region: VmshmRegion) -> AttachStep {
        AttachStep {
            attached: Some(region),
            ..(AttachModel { next: self.next + 1, ..self }).begin()
        }
    }

    /// What the attachment does on an event, beside the guest RAM that `ram` lists.
    pub open spec fn step(self, ram: Seq<(u64, u64)>, event: VmshmEvent) -> AttachStep {
        match (self.phase, event) {
            (AttachPhase::Ready, VmshmEvent::Start) => self.begin(),
            (AttachPhase::Connecting, VmshmEvent::Connected(outcome)) => match outcome {
                Err(source) => self.finish(
                    Err(VmshmError::Connect { socket_path: self.config().socket_path, source }),
                ),
                Ok(_) => self.wait(
                    AttachPhase::Requesting,
                    ActionModel::SendRequest(handshake::request_bytes(self.config())),
                ),
            },
            (AttachPhase::Requesting, VmshmEvent::RequestSent(outcome)) => match outcome {
                Err(source) => self.finish(Err(VmshmError::WriteRequest(source))),
                Ok(_) => self.wait(
                    AttachPhase::Receiving,
                    ActionModel::ReceiveReply(reply_call()),
                ),
            },
            (AttachPhase::Receiving, VmshmEvent::ReplyReceived(outcome)) => match outcome {
                Err(source) => self.finish(Err(VmshmError::RecvReply(source))),
                Ok(message) => match handshake::received_verdict(message) {
                    Err(error) => self.finish(Err(error)),
                    Ok((reply, at)) => self.wait(
                        AttachPhase::Taking(reply),
                        ActionModel::TakeFd(at),
                    ),
                },
            },
            (AttachPhase::Taking(reply), VmshmEvent::FdTaken) => self.judge(reply),
            (AttachPhase::Mapping(reply), VmshmEvent::WindowMapped(outcome)) => match outcome {
                Err(source) => self.finish(Err(VmshmError::Mmap(source))),
                Ok(host_addr) => self.place(
                    ram,
                    granted_region(self.config(), reply, host_addr),
                ),
            },
            (AttachPhase::Registering(region), VmshmEvent::RegionRegistered(outcome)) => {
                match outcome {
                    Err(source) => self.finish(Err(VmshmError::SetUserMemoryRegion(source))),
                    Ok(_) => self.attach(region),
                }
            },
            _ => self.wait(self.phase, ActionModel::Unexpected),
        }
    }
}

impl AttachModel {
    /// Whether the attachment is at a configuration whenever it waits for an answer about one,
    /// and turned to it only because its name fits in a request.
    pub open spec fn consistent(self) -> bool {
        &&& self.next <= self.configs.len()
        &&& !(self.phase is Ready) && !(self.phase is Finished) ==> self.next < self.configs.len()
            && handshake::name_fits(self.config())
    }
}

impl View for VmshmAttachment {
    type V = AttachModel;

    closed spec fn view(&self) -> AttachModel {
        AttachModel { configs: self.configs@, next: self.next as nat, phase: self.phase }
    }
}

impl VmshmAttachment {
    /// Whether the attachment is consistent and remembers the slots that it has taken.
    pub closed spec fn wf(self) -> bool {
        &&& self@.consistent()
        &&& self.used_slots@ == self@.used_slots()
    }

    /// Prepares the attachment of the configured windows.
    pub fn new(configs: Vec<VmshmDeviceConfig>) -> (attachment: Self)
        ensures
            attachment.wf(),
            attachment@ == AttachModel::fresh(configs@),
            attachment@ == (AttachModel {
                configs: configs@,
                next: 0,
                phase: AttachPhase::Ready,
            }),
    {
        let attachment = VmshmAttachment {
            configs,
            next: 0,
            used_slots: Vec::new(),
            phase: AttachPhase::Ready,
        };
        assert(attachment.used_slots@ =~= attachment@.used_slots());
        attachment
    }

    /// Ends the attachment.
    fn finish(&mut self, result: Result<(), VmshmError>) -> (action: VmshmAction)
        requires
            old(self).next <= old(self).configs@.len(),
            old(self).used_slots@ == old(self)@.used_slots(),
        ensures
            final(self).wf(),
            final(self)@ == old(self)@.finish(result).model,
            action@ == old(self)@.finish(result).action,
    {
        self.phase = AttachPhase::Finished;
        VmshmAction::Finished(result)
    }

    /// Turns to the next configuration.
    fn begin(&mut self) -> (action: VmshmAction)
        requires
            old(self).next <= old(self).configs@.len(),
            old(self).used_slots@ == old(self)@.used_slots(),
        ensures
            final(self).wf(),
            final(self)@ == old(self)@.begin().model,
            action@ == old(self)@.begin().action,
    {
        if self.next >= self.configs.len() {
            return self.finish(Ok(()));
        }
        match handshake::check_name(&self.configs[self.next]) {
            Err(error) => self.finish(Err(error)),
            Ok(_) => {
                self.phase = AttachPhase::Connecting;
                VmshmAction::Connect(self.configs[self.next].socket_path.clone())
            },
        }
    }

    /// Judges a reply whose memfd is owned.
    fn judge(&mut self, reply: VmshmHandshakeReply) -> (action: VmshmAction)
        requires
            old(self).next < old(self).configs@.len(),
            old(self).used_slots@ == old(self)@.used_slots(),
            handshake::name_fits(old(self)@.config()),
        ensures
            final(self).wf(),
            final(self)@ == old(self)@.judge(reply).model,
            action@ == old(self)@.judge(reply).action,
    {
        if let Err(error) = handshake::validate_reply(&self.configs[self.next], &reply) {
            return self.finish(Err(error));
        }
        if reply.window_size > usize::MAX as u64 {
            return self.finish(Err(VmshmError::WindowTooLarge(reply.window_size)));
        }
        self.phase = AttachPhase::Mapping(reply);
        VmshmAction::MapWindow(
            WindowMapping {
                size: reply.window_size as usize,
                offset: 0,
                read: true,
                write: true,
                shared: true,
            },
        )
    }

    /// Judges a window that is mapped.
    fn place(&mut self, guest_memory: &GuestRam, region: VmshmRegion) -> (action: VmshmAction)
        requires
            old(self).next < old(self).configs@.len(),
            old(self).used_slots@ == old(self)@.used_slots(),
            handshake::name_fits(old(self)@.config()),
        ensures
            final(self).wf(),
            final(self)@ == old(self)@.place(
                guest_memory::guest_regions(*guest_memory),
                region,
            ).model,
            action@ == old(self)@.place(
                guest_memory::guest_regions(*guest_memory),
                region,
            ).action,
    {
        if let Err(error) = region::validate_region(
            guest_memory,
            &region,
            self.used_slots.as_slice(),
        ) {
            return self.finish(Err(error));
        }
        let slot = region::register_region(&region);
        self.phase = AttachPhase::Registering(region);
        VmshmAction::Register(slot)
    }
}

/// An attachment that is well formed is consistent.
pub proof fn law_wf_consistent(attachment: VmshmAttachment)
    requires
        attachment.wf(),
    ensures
        attachment@.consistent(),
{
}

/// Takes the attachment of the configured windows one step further: `event` says how the last
/// action went, and the returned action is what to do next. A window is added to the machine
/// when KVM has accepted its slot. The first failure ends the attachment; the windows attached
/// before it stay.
pub fn attach_vmshm_regions(
    vmm: &mut Vmm,
    attachment: &mut VmshmAttachment,
    event: VmshmEvent,
) -> (action: VmshmAction)
    requires
        old(attachment).wf(),
    ensures
        final(attachment).wf(),
        ({
            let step = old(attachment)@.step(
                guest_memory::guest_regions(old(vmm).guest_memory),
                event,
            );
            &&& final(attachment)@ == step.model
            &&& action@ == step.action
            &&& final(vmm).guest_memory == old(vmm).guest_memory
            &&& final(vmm).vmshm_regions@ == step.regions_after(old(vmm).vmshm_regions@)
            &&& final(vmm).vmshm_regions@ == match step.attached {
                Some(region) => old(vmm).vmshm_regions@.push(region),
                None => old(vmm).vmshm_regions@,
            }
        }),
{
    let mut phase = AttachPhase::Finished;
    std::mem::swap(&mut phase, &mut attachment.phase);
    match (phase, event) {
        (AttachPhase::Ready, VmshmEvent::Start) => attachment.begin(),
        (AttachPhase::Connecting, VmshmEvent::Connected(outcome)) => match outcome {
            Err(source) => {
                let socket_path = attachment.configs[attachment.next].socket_path.clone();
                attachment.finish(Err(VmshmError::Connect { socket_path, source }))
            },
            Ok(_) => {
                attachment.phase = AttachPhase::Requesting;
                VmshmAction::SendRequest(
                    handshake::build_request(&attachment.configs[attachment.next]),
                )
            },
        },
        (AttachPhase::Requesting, VmshmEvent::RequestSent(outcome)) => match outcome {
            Err(source) => attachment.finish(Err(VmshmError::WriteRequest(source))),
            Ok(_) => {
                attachment.phase = AttachPhase::Receiving;
                VmshmAction::ReceiveReply(
                    ReceiveCall {
                        payload_len: handshake::REPLY_LEN,
                        control_len: handshake::CONTROL_LEN,
                        flags: 0,
                    },
                )
            },
        },
        (AttachPhase::Receiving, VmshmEvent::ReplyReceived(outcome)) => match outcome {
            Err(source) => attachment.finish(Err(VmshmError::RecvReply(source))),
            Ok(message) => match handshake::recv_reply_with_fd(&message) {
                Err(error) => attachment.finish(Err(error)),
                Ok((reply, at)) => {
                    attachment.phase = AttachPhase::Taking(reply);
                    VmshmAction::TakeFd(at)
                },
            },
        },
        (AttachPhase::Taking(reply), VmshmEvent::FdTaken) => attachment.judge(reply),
        (AttachPhase::Mapping(reply), VmshmEvent::WindowMapped(outcome)) => match outcome {
            Err(source) => attachment.finish(Err(VmshmError::Mmap(source))),
            Ok(host_addr) => {
                let region = VmshmRegion {
                    config: attachment.configs[attachment.next].clone(),
                    host_addr,
                    window_size: reply.window_size,
                    flags: reply.flags,
                    generation: reply.generation,
                };
                attachment.place(&vmm.guest_memory, region)
            },
        },
        (AttachPhase::Registering(region), VmshmEvent::RegionRegistered(outcome)) => {
            match outcome {
                Err(source) => attachment.finish(Err(VmshmError::SetUserMemoryRegion(source))),
                Ok(_) => {
                    attachment.used_slots.push(attachment.configs[attachment.next].slot);
                    assert(attachment.next < attachment.configs.len());
                    attachment.next = attachment.next + 1;
                    proof {
                        assert(attachment.used_slots@ =~= attachment@.used_slots());
                    }
                    vmm.vmshm_regions.push(region);
                    attachment.begin()
                },
            }
        },
        (phase, _) => {
            attachment.phase = phase;
            VmshmAction::Unexpected
        },
    }
}

} // verus!
