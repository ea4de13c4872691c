use std::io;
use vm_memory::bitmap::AtomicBitmap;
use vm_memory::mmap::{MmapRegionBuilder, MmapRegionError};
use vm_memory::{GuestAddress, GuestMemoryMmap, GuestRegionMmap};
use vmm::vmm_config::{VmshmDeviceConfig, VmshmRoleConfig};
use vmm::vmshm::attach::{
    attach_vmshm_regions, ReceiveCall, VmshmAction, VmshmAttachment, VmshmEvent, Vmm,
    WindowMapping,
};
use vmm::vmshm::error::VmshmError;
use vmm::vmshm::handshake::{
    build_request, ControlFormat, ControlMessage, ReceivedMessage, REPLY_LEN,
};
use vmm::vmshm::region::register_region;

fn machine() -> Vmm {
    let mapping = MmapRegionBuilder::new_with_bitmap(0x4000, None::<AtomicBitmap>)
        .build()
        .unwrap();
    let region = GuestRegionMmap::new(mapping, GuestAddress(0)).unwrap();
    Vmm {
        guest_memory: GuestMemoryMmap::from_regions(vec![region]).unwrap(),
        vmshm_regions: Vec::new(),
    }
}

fn config(name: &str, base: u64, slot: u32) -> VmshmDeviceConfig {
    VmshmDeviceConfig {
        socket_path: format!("/run/{name}.sock"),
        name: name.to_string(),
        role: VmshmRoleConfig::Client,
        guest_phys_addr: base,
        slot,
        expected_size: None,
        fdt_node_name: None,
        fdt_compatible: None,
        client_vmid: None,
        notify: None,
    }
}

fn message(window_size: u64, generation: u64) -> ReceivedMessage {
    let mut bytes = [0u8; REPLY_LEN];
    bytes[0..4].copy_from_slice(b"VMSH");
    bytes[4] = 1;
    bytes[8..16].copy_from_slice(&window_size.to_le_bytes());
    bytes[16..24].copy_from_slice(&0x1234u64.to_le_bytes());
    bytes[24..28].copy_from_slice(&77u32.to_le_bytes());
    bytes[28..32].copy_from_slice(&5u32.to_le_bytes());
    bytes[32..40].copy_from_slice(&generation.to_le_bytes());
    ReceivedMessage {
        len: REPLY_LEN,
        bytes,
        control: vec![
            ControlMessage { level: 1, kind: 9, len: 40 },
            ControlMessage { level: 1, kind: 1, len: 20 },
        ],
        format: ControlFormat { rights_level: 1, rights_kind: 1, header_len: 16, fd_len: 4 },
    }
}

fn attach_one(
    vmm: &mut Vmm,
    attachment: &mut VmshmAttachment,
    config: &VmshmDeviceConfig,
    generation: u64,
) -> VmshmAction {
    let action = attach_vmshm_regions(vmm, attachment, VmshmEvent::Connected(Ok(())));
    match action {
        VmshmAction::SendRequest(request) => assert_eq!(request, build_request(config)),
        _ => panic!("a request is due"),
    }
    let action = attach_vmshm_regions(vmm, attachment, VmshmEvent::RequestSent(Ok(())));
    match action {
        VmshmAction::ReceiveReply(call) => {
            assert_eq!(call, ReceiveCall { payload_len: 40, control_len: 64, flags: 0 });
        }
        _ => panic!("a reply is due"),
    }
    let received = VmshmEvent::ReplyReceived(Ok(message(0x2000, generation)));
    let action = attach_vmshm_regions(vmm, attachment, received);
    assert!(matches!(action, VmshmAction::TakeFd(1)));
    let action = attach_vmshm_regions(vmm, attachment, VmshmEvent::FdTaken);
    match action {
        VmshmAction::MapWindow(mapping) => assert_eq!(
            mapping,
            WindowMapping { size: 0x2000, offset: 0, read: true, write: true, shared: true }
        ),
        _ => panic!("a mapping is due"),
    }
    let mapped = VmshmEvent::WindowMapped(Ok(0x7f00_0000_0000 + generation));
    let action = attach_vmshm_regions(vmm, attachment, mapped);
    match action {
        VmshmAction::Register(slot) => {
            assert_eq!(slot.slot, config.slot);
            assert_eq!(slot.flags, 0);
            assert_eq!(slot.guest_phys_addr, config.guest_phys_addr);
            assert_eq!(slot.memory_size, 0x2000);
            assert_eq!(slot.userspace_addr, 0x7f00_0000_0000 + generation);
        }
        _ => panic!("a registration is due"),
    }
    attach_vmshm_regions(vmm, attachment, VmshmEvent::RegionRegistered(Ok(())))
}

fn start(vmm: &mut Vmm, configs: Vec<VmshmDeviceConfig>) -> (VmshmAttachment, VmshmAction) {
    let mut attachment = VmshmAttachment::new(configs);
    let action = attach_vmshm_regions(vmm, &mut attachment, VmshmEvent::Start);
    (attachment, action)
}

#[test]
fn nothing_to_attach() {
    let mut vmm = machine();
    let (_, action) = start(&mut vmm, vec![]);
    assert!(matches!(action, VmshmAction::Finished(Ok(()))));
    assert!(vmm.vmshm_regions.is_empty());
}

#[test]
fn windows_are_attached_in_order() {
    let mut vmm = machine();
    let first = config("first", 0x10_0000, 4);
    let second = config("second", 0x20_0000, 5);
    let (mut attachment, action) = start(&mut vmm, vec![first.clone(), second.clone()]);
    assert!(matches!(action, VmshmAction::Connect(path) if path == "/run/first.sock"));
    let action = attach_one(&mut vmm, &mut attachment, &first, 1);
    assert!(matches!(action, VmshmAction::Connect(path) if path == "/run/second.sock"));
    let action = attach_one(&mut vmm, &mut attachment, &second, 2);
    assert!(matches!(action, VmshmAction::Finished(Ok(()))));
    assert_eq!(vmm.vmshm_regions.len(), 2);
    assert_eq!(vmm.vmshm_regions[0].config, first);
    assert_eq!(vmm.vmshm_regions[1].config, second);
    assert_eq!(vmm.vmshm_regions[1].generation, 2);
    assert_eq!(vmm.vmshm_regions[1].flags, 5);
    assert_eq!(vmm.vmshm_regions[1].window_size, 0x2000);
    assert_eq!(vmm.vmshm_regions[1].fdt_info().guest_phys_addr, 0x20_0000);
}

#[test]
fn names_are_checked_before_connecting() {
    let mut vmm = machine();
    let (_, action) = start(&mut vmm, vec![config("", 0x10_0000, 4)]);
    assert!(matches!(action, VmshmAction::Finished(Err(VmshmError::EmptyName))));
    let (_, action) = start(&mut vmm, vec![config(&"n".repeat(70000), 0x10_0000, 4)]);
    assert!(matches!(action, VmshmAction::Finished(Err(VmshmError::NameTooLong(70000)))));
}

#[test]
fn failed_connection() {
    let mut vmm = machine();
    let (mut attachment, _) = start(&mut vmm, vec![config("a", 0x10_0000, 4)]);
    let failure = VmshmEvent::Connected(Err(io::Error::from_raw_os_error(2)));
    match attach_vmshm_regions(&mut vmm, &mut attachment, failure) {
        VmshmAction::Finished(Err(VmshmError::Connect { socket_path, source })) => {
            assert_eq!(socket_path, "/run/a.sock");
            assert_eq!(source.raw_os_error(), Some(2));
        }
        _ => panic!("the attachment is over"),
    }
    assert!(vmm.vmshm_regions.is_empty());
}

#[test]
fn failed_request_and_reply() {
    let mut vmm = machine();
    let (mut attachment, _) = start(&mut vmm, vec![config("a", 0x10_0000, 4)]);
    attach_vmshm_regions(&mut vmm, &mut attachment, VmshmEvent::Connected(Ok(())));
    let failure = VmshmEvent::RequestSent(Err(io::Error::from_raw_os_error(32)));
    match attach_vmshm_regions(&mut vmm, &mut attachment, failure) {
        VmshmAction::Finished(Err(VmshmError::WriteRequest(source))) => {
            assert_eq!(source.raw_os_error(), Some(32));
        }
        _ => panic!("the attachment is over"),
    }

    let (mut attachment, _) = start(&mut vmm, vec![config("a", 0x10_0000, 4)]);
    attach_vmshm_regions(&mut vmm, &mut attachment, VmshmEvent::Connected(Ok(())));
    attach_vmshm_regions(&mut vmm, &mut attachment, VmshmEvent::RequestSent(Ok(())));
    let failure = VmshmEvent::ReplyReceived(Err(io::Error::from_raw_os_error(104)));
    match attach_vmshm_regions(&mut vmm, &mut attachment, failure) {
        VmshmAction::Finished(Err(VmshmError::RecvReply(source))) => {
            assert_eq!(source.raw_os_error(), Some(104));
        }
        _ => panic!("the attachment is over"),
    }
}

fn until_reply(vmm: &mut Vmm, config: VmshmDeviceConfig, reply: ReceivedMessage) -> (VmshmAttachment, VmshmAction) {
    let (mut attachment, _) = start(vmm, vec![config]);
    attach_vmshm_regions(vmm, &mut attachment, VmshmEvent::Connected(Ok(())));
    attach_vmshm_regions(vmm, &mut attachment, VmshmEvent::RequestSent(Ok(())));
    let action = attach_vmshm_regions(vmm, &mut attachment, VmshmEvent::ReplyReceived(Ok(reply)));
    (attachment, action)
}

#[test]
fn incomplete_replies() {
    let mut vmm = machine();
    let mut short = message(0x2000, 0);
    short.len = 12;
    let (_, action) = until_reply(&mut vmm, config("a", 0x10_0000, 4), short);
    assert!(matches!(action, VmshmAction::Finished(Err(VmshmError::ShortReply(12)))));
    let mut bare = message(0x2000, 0);
    bare.control.clear();
    let (_, action) = until_reply(&mut vmm, config("a", 0x10_0000, 4), bare);
    assert!(matches!(action, VmshmAction::Finished(Err(VmshmError::MissingFd))));
}

#[test]
fn replies_are_judged_once_the_descriptor_is_owned() {
    let mut vmm = machine();
    let (mut attachment, action) =
        until_reply(&mut vmm, config("a", 0x10_0000, 4), message(0x1800, 0));
    assert!(matches!(action, VmshmAction::TakeFd(1)));
    let action = attach_vmshm_regions(&mut vmm, &mut attachment, VmshmEvent::FdTaken);
    assert!(matches!(
        action,
        VmshmAction::Finished(Err(VmshmError::WindowSizeNotAligned(0x1800)))
    ));
}

#[test]
fn failed_mapping_and_registration() {
    let mut vmm = machine();
    let (mut attachment, _) =
        until_reply(&mut vmm, config("a", 0x10_0000, 4), message(0x2000, 0));
    attach_vmshm_regions(&mut vmm, &mut attachment, VmshmEvent::FdTaken);
    let failure = VmshmEvent::WindowMapped(Err(MmapRegionError::MappingPastEof));
    assert!(matches!(
        attach_vmshm_regions(&mut vmm, &mut attachment, failure),
        VmshmAction::Finished(Err(VmshmError::Mmap(MmapRegionError::MappingPastEof)))
    ));

    let (mut attachment, _) =
        until_reply(&mut vmm, config("a", 0x10_0000, 4), message(0x2000, 0));
    attach_vmshm_regions(&mut vmm, &mut attachment, VmshmEvent::FdTaken);
    attach_vmshm_regions(&mut vmm, &mut attachment, VmshmEvent::WindowMapped(Ok(0x1000)));
    let failure = VmshmEvent::RegionRegistered(Err(kvm_ioctls::Error::new(17)));
    match attach_vmshm_regions(&mut vmm, &mut attachment, failure) {
        VmshmAction::Finished(Err(VmshmError::SetUserMemoryRegion(source))) => {
            assert_eq!(source.errno(), 17);
        }
        _ => panic!("the attachment is over"),
    }
    assert!(vmm.vmshm_regions.is_empty());
}

#[test]
fn windows_over_guest_memory_are_refused() {
    let mut vmm = machine();
    let (mut attachment, _) = until_reply(&mut vmm, config("a", 0x3000, 4), message(0x2000, 0));
    attach_vmshm_regions(&mut vmm, &mut attachment, VmshmEvent::FdTaken);
    let mapped = VmshmEvent::WindowMapped(Ok(0x1000));
    assert!(matches!(
        attach_vmshm_regions(&mut vmm, &mut attachment, mapped),
        VmshmAction::Finished(Err(VmshmError::OverlapsGuestMemory { base: 0x3000, end: 0x5000 }))
    ));
}

#[test]
fn a_failure_keeps_the_windows_before_it() {
    let mut vmm = machine();
    let first = config("first", 0x10_0000, 4);
    let again = config("again", 0x20_0000, 4);
    let (mut attachment, _) = start(&mut vmm, vec![first.clone(), again]);
    attach_one(&mut vmm, &mut attachment, &first, 1);
    attach_vmshm_regions(&mut vmm, &mut attachment, VmshmEvent::Connected(Ok(())));
    attach_vmshm_regions(&mut vmm, &mut attachment, VmshmEvent::RequestSent(Ok(())));
    let received = VmshmEvent::ReplyReceived(Ok(message(0x2000, 2)));
    attach_vmshm_regions(&mut vmm, &mut attachment, received);
    attach_vmshm_regions(&mut vmm, &mut attachment, VmshmEvent::FdTaken);
    let mapped = VmshmEvent::WindowMapped(Ok(0x1000));
    let action = attach_vmshm_regions(&mut vmm, &mut attachment, mapped);
    assert!(matches!(action, VmshmAction::Finished(Err(VmshmError::DuplicateSlot(4)))));
    assert_eq!(vmm.vmshm_regions.len(), 1);
    assert_eq!(vmm.vmshm_regions[0].config, first);
}

#[test]
fn slots_of_an_earlier_attachment_are_not_remembered() {
    let mut vmm = machine();
    let first = config("first", 0x10_0000, 4);
    let (mut attachment, _) = start(&mut vmm, vec![first.clone()]);
    attach_one(&mut vmm, &mut attachment, &first, 1);
    let (mut attachment, _) = start(&mut vmm, vec![first.clone()]);
    let action = attach_one(&mut vmm, &mut attachment, &first, 2);
    assert!(matches!(action, VmshmAction::Finished(Ok(()))));
    assert_eq!(vmm.vmshm_regions.len(), 2);
}

#[test]
fn stray_events_change_nothing() {
    let mut vmm = machine();
    let first = config("first", 0x10_0000, 4);
    let (mut attachment, _) = start(&mut vmm, vec![first.clone()]);
    let action = attach_vmshm_regions(&mut vmm, &mut attachment, VmshmEvent::FdTaken);
    assert!(matches!(action, VmshmAction::Unexpected));
    let action = attach_vmshm_regions(&mut vmm, &mut attachment, VmshmEvent::Start);
    assert!(matches!(action, VmshmAction::Unexpected));
    let action = attach_one(&mut vmm, &mut attachment, &first, 1);
    assert!(matches!(action, VmshmAction::Finished(Ok(()))));
    let action = attach_vmshm_regions(&mut vmm, &mut attachment, VmshmEvent::Start);
    assert!(matches!(action, VmshmAction::Unexpected));
    assert_eq!(vmm.vmshm_regions.len(), 1);
}

#[test]
fn windows_may_overlap_each_other() {
    let mut vmm = machine();
    let first = config("first", 0x10_0000, 4);
    let second = config("second", 0x10_0000, 5);
    let (mut attachment, _) = start(&mut vmm, vec![first.clone(), second.clone()]);
    attach_one(&mut vmm, &mut attachment, &first, 1);
    let action = attach_one(&mut vmm, &mut attachment, &second, 2);
    assert!(matches!(action, VmshmAction::Finished(Ok(()))));
    assert_eq!(vmm.vmshm_regions.len(), 2);
}

#[test]
fn accepted_slots_are_the_windows() {
    let mut vmm = machine();
    let configs: Vec<VmshmDeviceConfig> =
        (0..3).map(|at| config("w", 0x10_0000 * (at + 1), 4 + at as u32)).collect();
    let (mut attachment, mut action) = start(&mut vmm, configs);
    let mut accepted = Vec::new();
    loop {
        let event = match action {
            VmshmAction::Connect(_) => VmshmEvent::Connected(Ok(())),
            VmshmAction::SendRequest(_) => VmshmEvent::RequestSent(Ok(())),
            VmshmAction::ReceiveReply(_) => VmshmEvent::ReplyReceived(Ok(message(0x1000, 0))),
            VmshmAction::TakeFd(_) => VmshmEvent::FdTaken,
            VmshmAction::MapWindow(_) => {
                VmshmEvent::WindowMapped(Ok(0x5000 + accepted.len() as u64))
            }
            VmshmAction::Register(slot) if slot.slot == 6 => {
                VmshmEvent::RegionRegistered(Err(kvm_ioctls::Error::new(22)))
            }
            VmshmAction::Register(slot) => {
                let stray = VmshmEvent::FdTaken;
                let answer = attach_vmshm_regions(&mut vmm, &mut attachment, stray);
                assert!(matches!(answer, VmshmAction::Unexpected));
                accepted.push(slot);
                VmshmEvent::RegionRegistered(Ok(()))
            }
            VmshmAction::Finished(result) => {
                assert!(matches!(result, Err(VmshmError::SetUserMemoryRegion(_))));
                break;
            }
            VmshmAction::Unexpected => panic!("every event is an answer"),
        };
        action = attach_vmshm_regions(&mut vmm, &mut attachment, event);
    }
    assert_eq!(accepted.len(), 2);
    assert_eq!(accepted[1].userspace_addr, 0x5001);
    assert_eq!(vmm.vmshm_regions.len(), 2);
    for (slot, region) in accepted.iter().zip(&vmm.vmshm_regions) {
        assert_eq!(*slot, register_region(region));
    }
}

#[test]
fn six_answers_for_each_window() {
    let mut vmm = machine();
    let configs: Vec<VmshmDeviceConfig> =
        (0..5).map(|at| config("w", 0x10_0000 * (at + 1), 4 + at as u32)).collect();
    let (mut attachment, mut action) = start(&mut vmm, configs);
    let mut answers = 1;
    loop {
        let event = match action {
            VmshmAction::Connect(_) => VmshmEvent::Connected(Ok(())),
            VmshmAction::SendRequest(_) => VmshmEvent::RequestSent(Ok(())),
            VmshmAction::ReceiveReply(_) => VmshmEvent::ReplyReceived(Ok(message(0x1000, 0))),
            VmshmAction::TakeFd(_) => VmshmEvent::FdTaken,
            VmshmAction::MapWindow(_) => VmshmEvent::WindowMapped(Ok(0x5000)),
            VmshmAction::Register(_) => VmshmEvent::RegionRegistered(Ok(())),
            VmshmAction::Finished(result) => {
                assert!(result.is_ok());
                break;
            }
            VmshmAction::Unexpected => panic!("every event is an answer"),
        };
        action = attach_vmshm_regions(&mut vmm, &mut attachment, event);
        answers += 1;
    }
    assert_eq!(answers, 1 + 6 * 5);
    assert_eq!(vmm.vmshm_regions.len(), 5);
}
