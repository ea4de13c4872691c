//! What each answer leads to in an attachment, and how what it does for a window goes back to its
//! configuration and to what the broker sent.

use super::attach::{
    ActionModel, AttachModel, AttachPhase, AttachStep, ReceiveCall, VmshmAction, VmshmEvent,
    WindowMapping,
};
use super::error::VmshmError;
use super::handshake;
use super::handshake::{ReceivedMessage, VmshmHandshakeReply};
use super::laws;
use super::region;
use super::region::{UserMemoryRegion, VmshmRegion};
use crate::vmm_config::VmshmDeviceConfig;
use vstd::prelude::*;

verus! {

/// An action is modelled by what it carries.
pub proof fn law_actions_modelled(
    path: String,
    request: Vec<u8>,
    call: ReceiveCall,
    message: usize,
    mapping: WindowMapping,
    slot: UserMemoryRegion,
    result: Result<(), VmshmError>,
)
    ensures
        VmshmAction::Connect(path)@ == ActionModel::Connect(path),
        VmshmAction::SendRequest(request)@ == ActionModel::SendRequest(request@),
        VmshmAction::ReceiveReply(call)@ == ActionModel::ReceiveReply(call),
        VmshmAction::TakeFd(message)@ == ActionModel::TakeFd(message),
        VmshmAction::MapWindow(mapping)@ == ActionModel::MapWindow(mapping),
        VmshmAction::Register(slot)@ == ActionModel::Register(slot),
        VmshmAction::Finished(result)@ == ActionModel::Finished(result),
        VmshmAction::Unexpected@ == ActionModel::Unexpected,
{
}

/// A step adds the window that it attached behind those that are there, and changes none of them.
pub proof fn law_windows_added_behind(step: AttachStep, regions: Seq<VmshmRegion>, i: int)
    ensures
        ({
            let after = step.regions_after(regions);
            &&& 0 <= i < regions.len() ==> after[i] == regions[i]
            &&& match step.attached {
                Some(window) => after.len() == regions.len() + 1 && after[regions.len() as int]
                    == window,
                None => after.len() == regions.len(),
            }
        }),
{
}

/// Each phase is answered by one kind of event, and by no other.
pub proof fn law_one_kind_of_answer(event: VmshmEvent, phase: AttachPhase)
    ensures
        laws::answers(event, phase) <==> {
            ||| phase is Ready && event is Start
            ||| phase is Connecting && event is Connected
            ||| phase is Requesting && event is RequestSent
            ||| phase is Receiving && event is ReplyReceived
            ||| phase is Taking && event is FdTaken
            ||| phase is Mapping && event is WindowMapped
            ||| phase is Registering && event is RegionRegistered
        },
{
}

/// An attachment starts at the first configuration, with none attached.
pub proof fn law_starts_at_first(configs: Seq<VmshmDeviceConfig>)
    ensures
        AttachModel::fresh(configs).configs == configs,
        AttachModel::fresh(configs).next == 0,
        AttachModel::fresh(configs).phase is Ready,
{
}

/// An attachment that starts connects to the socket of the configuration that it is at, unless
/// there is none, or its name does not fit in a request.
pub proof fn law_started(model: AttachModel, ram: Seq<(u64, u64)>)
    requires
        model.phase is Ready,
    ensures
        ({
            let step = model.step(ram, VmshmEvent::Start);
            let config = model.configs[model.next as int];
            let name_len = vstd::utf8::encode_utf8(config.name@).len();
            &&& step.model.configs == model.configs
            &&& step.model.next == model.next
            &&& step.attached is None
            &&& if model.next >= model.configs.len() {
                step.model.phase is Finished && step.action == ActionModel::Finished(Ok(()))
            } else if name_len == 0 {
                step.model.phase is Finished && step.action == ActionModel::Finished(
                    Err(VmshmError::EmptyName),
                )
            } else if name_len > 0xffff {
                &&& step.model.phase is Finished
                &&& step.action matches ActionModel::Finished(Err(VmshmError::NameTooLong(told)))
                &&& name_len <= usize::MAX ==> told == name_len
            } else {
                step.model.phase is Connecting && step.action == ActionModel::Connect(
                    config.socket_path,
                )
            }
        }),
{
}

/// Once connected, an attachment sends the request of the configuration that it is at; else it
/// ends with the socket path and the error.
pub proof fn law_connected(
    model: AttachModel,
    ram: Seq<(u64, u64)>,
    outcome: Result<(), std::io::Error>,
)
    requires
        model.phase is Connecting,
    ensures
        ({
            let step = model.step(ram, VmshmEvent::Connected(outcome));
            let config = model.configs[model.next as int];
            &&& step.model.configs == model.configs
            &&& step.model.next == model.next
            &&& step.attached is None
            &&& match outcome {
                Ok(_) => step.model.phase is Requesting && step.action == ActionModel::SendRequest(
                    handshake::request_bytes(config),
                ),
                Err(error) => step.model.phase is Finished && step.action
                    == ActionModel::Finished(
                    Err(VmshmError::Connect { socket_path: config.socket_path, source: error }),
                ),
            }
        }),
{
}

/// Once the request is sent, an attachment receives a reply, with room for one reply and for
/// sixty-four bytes of control messages; else it ends with the error.
pub proof fn law_request_sent(
    model: AttachModel,
    ram: Seq<(u64, u64)>,
    outcome: Result<(), std::io::Error>,
)
    requires
        model.phase is Requesting,
    ensures
        ({
            let step = model.step(ram, VmshmEvent::RequestSent(outcome));
            &&& step.model.configs == model.configs
            &&& step.model.next == model.next
            &&& step.attached is None
            &&& match outcome {
                Ok(_) => {
                    &&& step.model.phase is Receiving
                    &&& step.action matches ActionModel::ReceiveReply(call)
                    &&& call.payload_len == 40
                    &&& call.control_len == 64
                    &&& call.flags == 0
                },
                Err(error) => step.model.phase is Finished && step.action
                    == ActionModel::Finished(Err(VmshmError::WriteRequest(error))),
            }
        }),
{
}

/// Once a message is received, an attachment takes the first descriptor of the first control
/// message that passes descriptors; else it ends with what is wrong with the message, or with
/// the error.
pub proof fn law_reply_received(
    model: AttachModel,
    ram: Seq<(u64, u64)>,
    outcome: Result<ReceivedMessage, std::io::Error>,
)
    requires
        model.phase is Receiving,
    ensures
        ({
            let step = model.step(ram, VmshmEvent::ReplyReceived(outcome));
            &&& step.model.configs == model.configs
            &&& step.model.next == model.next
            &&& step.attached is None
            &&& match outcome {
                Ok(message) => match handshake::received_verdict(message) {
                    Ok((reply, at)) => {
                        &&& step.model.phase == AttachPhase::Taking(reply)
                        &&& reply == VmshmHandshakeReply::spec_from_bytes(message.bytes@)
                        &&& step.action == ActionModel::TakeFd(at)
                        &&& at < message.control@.len()
                        &&& message.control@[at as int].level == message.format.rights_level
                        &&& message.control@[at as int].kind == message.format.rights_kind
                    },
                    Err(error) => step.model.phase is Finished && step.action
                        == ActionModel::Finished(Err(error)),
                },
                Err(error) => step.model.phase is Finished && step.action
                    == ActionModel::Finished(Err(VmshmError::RecvReply(error))),
            }
        }),
{
    if let Ok(message) = outcome {
        handshake::law_received_judged(message);
    }
}

/// Once the memfd is owned, an attachment maps all of the window that the reply grants, from the
/// start of the memfd, for reading and writing, and shared; else it ends with what is wrong with
/// the reply.
pub proof fn law_fd_taken(model: AttachModel, ram: Seq<(u64, u64)>, reply: VmshmHandshakeReply)
    requires
        model.phase == AttachPhase::Taking(reply),
    ensures
        ({
            let step = model.step(ram, VmshmEvent::FdTaken);
            let config = model.configs[model.next as int];
            &&& step.model.configs == model.configs
            &&& step.model.next == model.next
            &&& step.attached is None
            &&& match handshake::reply_verdict(config, reply) {
                Ok(_) => if reply.window_size <= usize::MAX {
                    &&& step.model.phase == AttachPhase::Mapping(reply)
                    &&& step.action matches ActionModel::MapWindow(mapping)
                    &&& mapping.size == reply.window_size
                    &&& mapping.offset == 0
                    &&& mapping.read && mapping.write && mapping.shared
                } else {
                    step.model.phase is Finished && step.action == ActionModel::Finished(
                        Err(VmshmError::WindowTooLarge(reply.window_size)),
                    )
                },
                Err(error) => step.model.phase is Finished && step.action
                    == ActionModel::Finished(Err(error)),
            }
        }),
{
}

/// Once the window is mapped, an attachment tells KVM of all of it, at the address that it is
/// mapped at and where the configuration says, unless it cannot stand beside guest RAM and the
/// slots of the windows before; else it ends with the error.
pub proof fn law_window_mapped(
    model: AttachModel,
    ram: Seq<(u64, u64)>,
    reply: VmshmHandshakeReply,
    outcome: Result<u64, vm_memory::mmap::MmapRegionError>,
)
    requires
        model.consistent(),
        model.phase == AttachPhase::Mapping(reply),
    ensures
        ({
            let step = model.step(ram, VmshmEvent::WindowMapped(outcome));
            let config = model.configs[model.next as int];
            &&& step.model.configs == model.configs
            &&& step.model.next == model.next
            &&& step.attached is None
            &&& match outcome {
                Ok(host_addr) => {
                    let window = VmshmRegion {
                        config,
                        host_addr,
                        window_size: reply.window_size,
                        flags: reply.flags,
                        generation: reply.generation,
                    };
                    let slots_before = Seq::new(model.next, |i: int| model.configs[i].slot);
                    match region::region_verdict(ram, window, slots_before) {
                        Ok(_) => {
                            &&& step.model.phase == AttachPhase::Registering(window)
                            &&& step.action matches ActionModel::Register(slot)
                            &&& slot.slot == config.slot
                            &&& slot.flags == 0
                            &&& slot.guest_phys_addr == config.guest_phys_addr
                            &&& slot.memory_size == reply.window_size
                            &&& slot.userspace_addr == host_addr
                        },
                        Err(error) => step.model.phase is Finished && step.action
                            == ActionModel::Finished(Err(error)),
                    }
                },
                Err(error) => step.model.phase is Finished && step.action
                    == ActionModel::Finished(Err(VmshmError::Mmap(error))),
            }
        }),
{
    assert(model.used_slots() =~= Seq::new(model.next, |i: int| model.configs[i].slot));
}

/// Once KVM has the slot, the window is attached, and the attachment connects to the socket of
/// the next configuration, unless there is none, or its name does not fit in a request; else it
/// ends with the error and without the window.
pub proof fn law_region_registered(
    model: AttachModel,
    ram: Seq<(u64, u64)>,
    window: VmshmRegion,
    outcome: Result<(), kvm_ioctls::Error>,
)
    requires
        model.phase == AttachPhase::Registering(window),
    ensures
        ({
            let step = model.step(ram, VmshmEvent::RegionRegistered(outcome));
            let config = model.configs[model.next as int + 1];
            let name_len = vstd::utf8::encode_utf8(config.name@).len();
            &&& step.model.configs == model.configs
            &&& match outcome {
                Ok(_) => {
                    &&& step.attached == Some(window)
                    &&& step.model.next == model.next + 1
                    &&& if model.next + 1 >= model.configs.len() {
                        step.model.phase is Finished && step.action == ActionModel::Finished(
                            Ok(()),
                        )
                    } else if name_len == 0 {
                        step.model.phase is Finished && step.action == ActionModel::Finished(
                            Err(VmshmError::EmptyName),
                        )
                    } else if name_len > 0xffff {
                        &&& step.model.phase is Finished
                        &&& step.action matches ActionModel::Finished(Err(VmshmError::NameTooLong(told)))
                        &&& name_len <= usize::MAX ==> told == name_len
                    } else {
                        step.model.phase is Connecting && step.action == ActionModel::Connect(
                            config.socket_path,
                        )
                    }
                },
                Err(error) => {
                    &&& step.attached is None
                    &&& step.model.next == model.next
                    &&& step.model.phase is Finished
                    &&& step.action == ActionModel::Finished(
                        Err(VmshmError::SetUserMemoryRegion(error)),
                    )
                },
            }
        }),
{
}

/// Every connection goes to the socket of the configuration that the attachment is at, whatever
/// the role, and only if its name fits in a request.
pub proof fn law_connects_to_configured_socket(
    ram: Seq<(u64, u64)>,
    configs: Seq<VmshmDeviceConfig>,
    events: Seq<VmshmEvent>,
    path: String,
)
    requires
        events.len() > 0,
        laws::run(ram, configs, events).actions.last() == ActionModel::Connect(path),
    ensures
        ({
            let at = laws::run(ram, configs, events).model.next;
            &&& at < configs.len()
            &&& path == configs[at as int].socket_path
            &&& 1 <= vstd::utf8::encode_utf8(configs[at as int].name@).len() <= 0xffff
        }),
{
    laws::law_every_run_sound(ram, configs, events);
}

/// Every request is that of the configuration that the attachment is at: it carries its role and
/// its name.
pub proof fn law_sends_configured_request(
    ram: Seq<(u64, u64)>,
    configs: Seq<VmshmDeviceConfig>,
    events: Seq<VmshmEvent>,
    request: Seq<u8>,
)
    requires
        events.len() > 0,
        laws::run(ram, configs, events).actions.last() == ActionModel::SendRequest(request),
    ensures
        ({
            let at = laws::run(ram, configs, events).model.next;
            let config = configs[at as int];
            &&& at < configs.len()
            &&& request.len() > 12
            &&& request[6] == (if config.role is Client {
                1
            } else {
                2int
            })
            &&& request.skip(12) == vstd::utf8::encode_utf8(config.name@)
        }),
{
    laws::law_every_run_sound(ram, configs, events);
    handshake::law_request_layout(laws::run(ram, configs, events).model.config());
}

/// Every descriptor is taken out of the message just received: out of its first control message
/// that passes descriptors, which has room for one.
pub proof fn law_takes_first_passed_fd(
    ram: Seq<(u64, u64)>,
    configs: Seq<VmshmDeviceConfig>,
    events: Seq<VmshmEvent>,
    at: usize,
)
    requires
        events.len() > 0,
        laws::run(ram, configs, events).actions.last() == ActionModel::TakeFd(at),
    ensures
        events.last() matches VmshmEvent::ReplyReceived(Ok(message)) && {
            &&& message.len == 40
            &&& at < message.control@.len()
            &&& message.control@[at as int].level == message.format.rights_level
            &&& message.control@[at as int].kind == message.format.rights_kind
            &&& message.control@[at as int].len >= message.format.header_len
                + message.format.fd_len
            &&& forall|j: int|
                0 <= j < at ==> (#[trigger] message.control@[j]).level
                    != message.format.rights_level || message.control@[j].kind
                    != message.format.rights_kind
        },
{
    if let VmshmEvent::ReplyReceived(Ok(message)) = events.last() {
        handshake::law_received_judged(message);
    }
}

/// The message that the broker's reply for the window under way came in: the last one that was
/// received while a reply was asked for.
pub open spec fn reply_message(
    ram: Seq<(u64, u64)>,
    configs: Seq<VmshmDeviceConfig>,
    events: Seq<VmshmEvent>,
) -> Option<ReceivedMessage>
    decreases events.len(),
{
    if events.len() == 0 {
        None
    } else {
        let asked = laws::pending(laws::run(ram, configs, events.drop_last()).actions);
        match (asked, events.last()) {
            (ActionModel::ReceiveReply(_), VmshmEvent::ReplyReceived(Ok(message))) => Some(message),
            _ => reply_message(ram, configs, events.drop_last()),
        }
    }
}

/// What is asked for is what the attachment waits for, and what it works with came in the last
/// reply.
proof fn lemma_under_way(
    ram: Seq<(u64, u64)>,
    configs: Seq<VmshmDeviceConfig>,
    events: Seq<VmshmEvent>,
)
    ensures
        ({
            let now = laws::run(ram, configs, events);
            let asked = laws::pending(now.actions);
            &&& asked is ReceiveReply <==> now.model.phase is Receiving
            &&& now.model.phase matches AttachPhase::Taking(reply) ==> reply_message(
                ram,
                configs,
                events,
            ) matches Some(message) && reply == VmshmHandshakeReply::spec_from_bytes(message.bytes@)
            &&& now.model.phase matches AttachPhase::Mapping(reply) ==> {
                &&& reply_message(ram, configs, events) matches Some(message)
                &&& reply == VmshmHandshakeReply::spec_from_bytes(message.bytes@)
                &&& asked matches ActionModel::MapWindow(mapping)
                &&& mapping.size == reply.window_size
            }
            &&& now.model.phase matches AttachPhase::Registering(window) ==> {
                &&& reply_message(ram, configs, events) matches Some(message)
                &&& window.window_size == VmshmHandshakeReply::spec_from_bytes(
                    message.bytes@,
                ).window_size
                &&& window.flags == VmshmHandshakeReply::spec_from_bytes(message.bytes@).flags
                &&& window.generation == VmshmHandshakeReply::spec_from_bytes(
                    message.bytes@,
                ).generation
            }
        }),
    decreases events.len(),
{
    if events.len() > 0 {
        let before = laws::run(ram, configs, events.drop_last());
        lemma_under_way(ram, configs, events.drop_last());
        laws::law_every_run_sound(ram, configs, events.drop_last());
        assert(laws::run(ram, configs, events).actions.drop_last() =~= before.actions);
        if let VmshmEvent::ReplyReceived(Ok(message)) = events.last() {
            handshake::law_received_judged(message);
        }
    }
}

/// Every mapping has the size that the broker's reply says, byte by byte.
pub proof fn law_maps_replied_size(
    ram: Seq<(u64, u64)>,
    configs: Seq<VmshmDeviceConfig>,
    events: Seq<VmshmEvent>,
    mapping: WindowMapping,
)
    requires
        events.len() > 0,
        laws::run(ram, configs, events).actions.last() == ActionModel::MapWindow(mapping),
    ensures
        reply_message(ram, configs, events) matches Some(message) && {
            let bytes = message.bytes@;
            mapping.size == bytes[8] + 0x100 * bytes[9] + 0x1_0000 * bytes[10] + 0x100_0000
                * bytes[11] + 0x1_0000_0000 * bytes[12] + 0x100_0000_0000 * bytes[13]
                + 0x1_0000_0000_0000 * bytes[14] + 0x100_0000_0000_0000 * bytes[15]
        },
{
    lemma_under_way(ram, configs, events);
    laws::law_every_run_sound(ram, configs, events);
    if let Some(message) = reply_message(ram, configs, events) {
        handshake::law_reply_layout(message.bytes@);
    }
}

/// Every slot that KVM is told of is the window under way: its size is the size that was asked
/// to be mapped and that the broker's reply says, its host address the one that it was mapped at
/// just now, and its number and guest address those of the configuration.
pub proof fn law_registers_mapped_window(
    ram: Seq<(u64, u64)>,
    configs: Seq<VmshmDeviceConfig>,
    events: Seq<VmshmEvent>,
    slot: UserMemoryRegion,
)
    requires
        events.len() > 0,
        laws::run(ram, configs, events).actions.last() == ActionModel::Register(slot),
    ensures
        ({
            let at = laws::run(ram, configs, events).model.next;
            let asked = laws::pending(laws::run(ram, configs, events.drop_last()).actions);
            &&& at < configs.len()
            &&& slot.slot == configs[at as int].slot
            &&& slot.guest_phys_addr == configs[at as int].guest_phys_addr
            &&& slot.flags == 0
            &&& events.last() == VmshmEvent::WindowMapped(Ok(slot.userspace_addr))
            &&& asked matches ActionModel::MapWindow(mapping)
            &&& slot.memory_size == mapping.size
            &&& reply_message(ram, configs, events) matches Some(message)
            &&& slot.memory_size == VmshmHandshakeReply::spec_from_bytes(message.bytes@).window_size
        }),
{
    lemma_under_way(ram, configs, events.drop_last());
    lemma_under_way(ram, configs, events);
    laws::law_every_run_sound(ram, configs, events);
    laws::law_every_run_sound(ram, configs, events.drop_last());
}

/// Every window that is attached is that of the configuration that the attachment was at, and has
/// the size, the flags and the generation that the broker's reply for it says.
pub proof fn law_attaches_replied_window(
    ram: Seq<(u64, u64)>,
    configs: Seq<VmshmDeviceConfig>,
    events: Seq<VmshmEvent>,
    event: VmshmEvent,
    window: VmshmRegion,
)
    requires
        laws::run(ram, configs, events).model.step(ram, event).attached == Some(window),
    ensures
        ({
            let at = laws::run(ram, configs, events).model.next;
            &&& at < configs.len()
            &&& window.config == configs[at as int]
            &&& event matches VmshmEvent::RegionRegistered(outcome)
            &&& outcome is Ok
            &&& laws::pending(laws::run(ram, configs, events).actions) == ActionModel::Register(
                window.user_memory(),
            )
            &&& reply_message(ram, configs, events) matches Some(message)
            &&& window.window_size == VmshmHandshakeReply::spec_from_bytes(
                message.bytes@,
            ).window_size
            &&& window.flags == VmshmHandshakeReply::spec_from_bytes(message.bytes@).flags
            &&& window.generation == VmshmHandshakeReply::spec_from_bytes(message.bytes@).generation
        }),
{
    lemma_under_way(ram, configs, events);
    laws::lemma_pending_registration(ram, configs, events);
    laws::law_every_run_sound(ram, configs, events);
}

} // verus!
