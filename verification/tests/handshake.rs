use vmm::vmm_config::{VmshmDeviceConfig, VmshmRoleConfig};
use vmm::vmshm::error::VmshmError;
use vmm::vmshm::handshake::{
    build_request, check_name, extract_file_from_cmsg, recv_reply_with_fd, suggests_placement,
    validate_reply, ControlFormat, ControlMessage, ReceivedMessage, VmshmHandshakeReply, REPLY_LEN, VMSHM_MAGIC,
};

const FORMAT: ControlFormat =
    ControlFormat { rights_level: 1, rights_kind: 1, header_len: 16, fd_len: 4 };

const RIGHTS: ControlMessage = ControlMessage { level: 1, kind: 1, len: 20 };

const OTHER: ControlMessage = ControlMessage { level: 1, kind: 2, len: 28 };

fn config(name: &str) -> VmshmDeviceConfig {
    VmshmDeviceConfig {
        socket_path: "/run/broker.sock".to_string(),
        name: name.to_string(),
        role: VmshmRoleConfig::Client,
        guest_phys_addr: 0xd000_0000,
        slot: 7,
        expected_size: None,
        fdt_node_name: None,
        fdt_compatible: None,
        client_vmid: None,
        notify: None,
    }
}

fn reply() -> VmshmHandshakeReply {
    VmshmHandshakeReply {
        magic: VMSHM_MAGIC,
        version: 1,
        status: 0,
        window_size: 0x2000,
        guest_phys_addr: 0,
        slot: 0,
        flags: 0,
        generation: 0,
    }
}

fn reply_bytes() -> [u8; REPLY_LEN] {
    let mut bytes = [0u8; REPLY_LEN];
    bytes[0..4].copy_from_slice(b"VMSH");
    bytes[4..6].copy_from_slice(&1u16.to_le_bytes());
    bytes[6..8].copy_from_slice(&0x0203u16.to_le_bytes());
    bytes[8..16].copy_from_slice(&0x1122_3344_5566_7788u64.to_le_bytes());
    bytes[16..24].copy_from_slice(&0x99aa_bbcc_ddee_ff01u64.to_le_bytes());
    bytes[24..28].copy_from_slice(&0x1234_5678u32.to_le_bytes());
    bytes[28..32].copy_from_slice(&0x9abc_def0u32.to_le_bytes());
    bytes[32..40].copy_from_slice(&0xfedc_ba98_7654_3210u64.to_le_bytes());
    bytes
}

#[test]
fn magic_spells_vmsh() {
    assert_eq!(VMSHM_MAGIC, u32::from_le_bytes(*b"VMSH"));
}

#[test]
fn reply_fields_are_little_endian() {
    let reply = VmshmHandshakeReply::from_bytes(&reply_bytes());
    assert_eq!(reply.magic, VMSHM_MAGIC);
    assert_eq!(reply.version, 1);
    assert_eq!(reply.status, 0x0203);
    assert_eq!(reply.window_size, 0x1122_3344_5566_7788);
    assert_eq!(reply.guest_phys_addr, 0x99aa_bbcc_ddee_ff01);
    assert_eq!(reply.slot, 0x1234_5678);
    assert_eq!(reply.flags, 0x9abc_def0);
    assert_eq!(reply.generation, 0xfedc_ba98_7654_3210);
}

#[test]
fn request_layout() {
    let request = build_request(&config("vm0"));
    assert_eq!(request, b"VMSH\x01\x00\x01\x00\x03\x00\x00\x00vm0".to_vec());
    let mut proxy = config("");
    proxy.role = VmshmRoleConfig::Proxy;
    assert_eq!(build_request(&proxy), b"VMSH\x01\x00\x02\x00\x00\x00\x00\x00".to_vec());
}

#[test]
fn request_carries_utf8_and_long_names() {
    let request = build_request(&config("v\u{e9}\u{1f600}"));
    assert_eq!(request[8..10], 7u16.to_le_bytes());
    assert_eq!(&request[12..], "v\u{e9}\u{1f600}".as_bytes());
    let long = "n".repeat(65535);
    let request = build_request(&config(&long));
    assert_eq!(request.len(), 12 + 65535);
    assert_eq!(request[8..10], [0xff, 0xff]);
    assert_eq!(&request[12..], long.as_bytes());
}

#[test]
fn requests_tell_role_and_name_apart() {
    let mut proxy = config("a");
    proxy.role = VmshmRoleConfig::Proxy;
    assert_ne!(build_request(&config("a")), build_request(&proxy));
    assert_ne!(build_request(&config("a")), build_request(&config("b")));
}

#[test]
fn names_that_do_not_fit() {
    assert!(matches!(check_name(&config("")), Err(VmshmError::EmptyName)));
    assert!(matches!(
        check_name(&config(&"n".repeat(65536))),
        Err(VmshmError::NameTooLong(65536))
    ));
    assert!(matches!(
        check_name(&config(&"\u{e9}".repeat(40000))),
        Err(VmshmError::NameTooLong(80000))
    ));
    assert!(check_name(&config(&"n".repeat(65535))).is_ok());
    assert!(check_name(&config("x")).is_ok());
}

#[test]
fn acceptable_replies() {
    assert!(validate_reply(&config("a"), &reply()).is_ok());
    let mut sized = config("a");
    sized.expected_size = Some(0x2000);
    assert!(validate_reply(&sized, &reply()).is_ok());
}

#[test]
fn replies_that_are_refused() {
    let config = config("a");
    let mut bad = reply();
    bad.magic = 0x1234;
    assert!(matches!(validate_reply(&config, &bad), Err(VmshmError::BadMagic(0x1234))));
    let mut bad = reply();
    bad.version = 2;
    assert!(matches!(validate_reply(&config, &bad), Err(VmshmError::BadVersion(2))));
    let mut bad = reply();
    bad.status = 5;
    assert!(matches!(validate_reply(&config, &bad), Err(VmshmError::BrokerStatus(5))));
    let mut bad = reply();
    bad.window_size = 0;
    assert!(matches!(validate_reply(&config, &bad), Err(VmshmError::EmptyWindow)));
    let mut bad = reply();
    bad.window_size = 0x1001;
    assert!(matches!(
        validate_reply(&config, &bad),
        Err(VmshmError::WindowSizeNotAligned(0x1001))
    ));
}

#[test]
fn configurations_that_refuse_a_reply() {
    let mut unaligned = config("a");
    unaligned.guest_phys_addr = 0xd000_0800;
    assert!(matches!(
        validate_reply(&unaligned, &reply()),
        Err(VmshmError::GuestAddressNotAligned(0xd000_0800))
    ));
    let mut sized = config("a");
    sized.expected_size = Some(0x4000);
    assert!(matches!(
        validate_reply(&sized, &reply()),
        Err(VmshmError::SizeMismatch { expected: 0x4000, actual: 0x2000 })
    ));
}

#[test]
fn the_first_failing_check_decides() {
    let mut unaligned = config("a");
    unaligned.guest_phys_addr = 1;
    unaligned.expected_size = Some(1);
    let mut bad = reply();
    bad.magic = 0;
    bad.version = 9;
    bad.status = 9;
    bad.window_size = 3;
    assert!(matches!(validate_reply(&unaligned, &bad), Err(VmshmError::BadMagic(0))));
    bad.magic = VMSHM_MAGIC;
    assert!(matches!(validate_reply(&unaligned, &bad), Err(VmshmError::BadVersion(9))));
    bad.version = 1;
    assert!(matches!(validate_reply(&unaligned, &bad), Err(VmshmError::BrokerStatus(9))));
    bad.status = 0;
    assert!(matches!(
        validate_reply(&unaligned, &bad),
        Err(VmshmError::WindowSizeNotAligned(3))
    ));
    bad.window_size = 0x1000;
    assert!(matches!(
        validate_reply(&unaligned, &bad),
        Err(VmshmError::GuestAddressNotAligned(1))
    ));
    unaligned.guest_phys_addr = 0;
    assert!(matches!(
        validate_reply(&unaligned, &bad),
        Err(VmshmError::SizeMismatch { expected: 1, actual: 0x1000 })
    ));
}

#[test]
fn broker_suggestions_do_not_matter() {
    let mut suggesting = reply();
    suggesting.guest_phys_addr = 0x123;
    suggesting.slot = 99;
    assert!(validate_reply(&config("a"), &suggesting).is_ok());
}

#[test]
fn placement_that_a_broker_suggests() {
    assert!(!suggests_placement(&reply()));
    assert!(suggests_placement(&VmshmHandshakeReply { guest_phys_addr: 1, ..reply() }));
    assert!(suggests_placement(&VmshmHandshakeReply { slot: 1, ..reply() }));
    assert!(!suggests_placement(&VmshmHandshakeReply { flags: 1, generation: 1, ..reply() }));
}

#[test]
fn only_what_counts_decides() {
    let mut other = config("other");
    other.role = VmshmRoleConfig::Proxy;
    other.socket_path = "/run/other.sock".to_string();
    other.slot = 1;
    other.client_vmid = Some(3);
    let marked = VmshmHandshakeReply { flags: 9, generation: 8, slot: 7, ..reply() };
    assert!(validate_reply(&config("a"), &reply()).is_ok());
    assert!(validate_reply(&other, &marked).is_ok());
    let refused = VmshmHandshakeReply { window_size: 0x1800, ..reply() };
    let marked = VmshmHandshakeReply { window_size: 0x1800, ..marked };
    assert!(matches!(
        validate_reply(&config("a"), &refused),
        Err(VmshmError::WindowSizeNotAligned(0x1800))
    ));
    assert!(matches!(
        validate_reply(&other, &marked),
        Err(VmshmError::WindowSizeNotAligned(0x1800))
    ));
}

#[test]
fn descriptor_is_in_the_first_rights_message() {
    assert!(matches!(extract_file_from_cmsg(&[RIGHTS], &FORMAT), Ok(0)));
    assert!(matches!(extract_file_from_cmsg(&[OTHER, RIGHTS, RIGHTS], &FORMAT), Ok(1)));
    let longer = ControlMessage { len: 64, ..RIGHTS };
    assert!(matches!(extract_file_from_cmsg(&[OTHER, OTHER, longer], &FORMAT), Ok(2)));
}

#[test]
fn descriptor_is_missing() {
    assert!(matches!(extract_file_from_cmsg(&[], &FORMAT), Err(VmshmError::MissingFd)));
    assert!(matches!(extract_file_from_cmsg(&[OTHER], &FORMAT), Err(VmshmError::MissingFd)));
    for len in [0, 15, 16, 19] {
        let short = ControlMessage { len, ..RIGHTS };
        assert!(matches!(
            extract_file_from_cmsg(&[short, RIGHTS], &FORMAT),
            Err(VmshmError::MissingFd)
        ));
    }
    let level = ControlMessage { level: 2, ..RIGHTS };
    assert!(matches!(extract_file_from_cmsg(&[level], &FORMAT), Err(VmshmError::MissingFd)));
}

#[test]
fn received_messages() {
    let mut message = ReceivedMessage {
        len: REPLY_LEN,
        bytes: reply_bytes(),
        control: vec![OTHER, RIGHTS],
        format: FORMAT,
    };
    let (reply, at) = recv_reply_with_fd(&message).unwrap();
    assert_eq!(at, 1);
    assert_eq!(reply.window_size, 0x1122_3344_5566_7788);
    message.control = vec![OTHER];
    assert!(matches!(recv_reply_with_fd(&message), Err(VmshmError::MissingFd)));
    message.len = 39;
    assert!(matches!(recv_reply_with_fd(&message), Err(VmshmError::ShortReply(39))));
    message.len = 0;
    message.control = vec![RIGHTS];
    assert!(matches!(recv_reply_with_fd(&message), Err(VmshmError::ShortReply(0))));
}
