//! The handshake between a participant and the vmshm broker.
//!
//! A request is a fixed header followed by the participant's name. A reply is one fixed record,
//! with the memfd that backs the window in the control messages beside it.

use super::error::VmshmError;
use crate::little_endian;
use crate::vmm_config::VmshmDeviceConfig;
use vstd::prelude::*;

verus! {

/// The bytes `VMSH` as a little-endian number.
pub const VMSHM_MAGIC: u32 = 0x4853_4d56;

/// The version of the handshake.
pub const VMSHM_VERSION: u16 = 1;

/// Length of the header of a request.
pub const REQUEST_HEADER_LEN: usize = 12;

/// Length of a reply.
pub const REPLY_LEN: usize = 40;

/// Room for the control messages beside a reply.
pub const CONTROL_LEN: usize = 64;

/// The status of a reply that grants the window.
pub const STATUS_OK: u16 = 0;

/// The page size of the guest.
pub const GUEST_PAGE_SIZE: u64 = 4096;

/// What the broker answers to a request.
#[derive(Clone, Copy, Debug)]
pub struct VmshmHandshakeReply {
    /// Marks the record, see [`VMSHM_MAGIC`].
    pub magic: u32,
    /// The version of the handshake, see [`VMSHM_VERSION`].
    pub version: u16,
    /// Whether the window is granted, see [`STATUS_OK`].
    pub status: u16,
    /// Window size in bytes.
    pub window_size: u64,
    /// Guest physical address that the broker suggests. The configuration decides.
    pub guest_phys_addr: u64,
    /// KVM slot that the broker suggests. The configuration decides.
    pub slot: u32,
    /// Flags of the window.
    pub flags: u32,
    /// Generation of the window.
    pub generation: u64,
}

impl VmshmHandshakeReply {
    /// The reply that `bytes` hold.
    pub open spec fn spec_from_bytes(bytes: Seq<u8>) -> Self {
        VmshmHandshakeReply {
            magic: little_endian::le_value(bytes.subrange(0, 4)) as u32,
            version: little_endian::le_value(bytes.subrange(4, 6)) as u16,
            status: little_endian::le_value(bytes.subrange(6, 8)) as u16,
            window_size: little_endian::le_value(bytes.subrange(8, 16)) as u64,
            guest_phys_addr: little_endian::le_value(bytes.subrange(16, 24)) as u64,
            slot: little_endian::le_value(bytes.subrange(24, 28)) as u32,
            flags: little_endian::le_value(bytes.subrange(28, 32)) as u32,
            generation: little_endian::le_value(bytes.subrange(32, 40)) as u64,
        }
    }

    /// The bytes that hold the reply.
    pub open spec fn spec_to_bytes(self) -> Seq<u8> {
        little_endian::le_bytes(self.magic as nat, 4) + little_endian::le_bytes(self.version as nat, 2) + little_endian::le_bytes(
            self.status as nat,
            2,
        ) + little_endian::le_bytes(self.window_size as nat, 8) + little_endian::le_bytes(self.guest_phys_addr as nat, 8)
            + little_endian::le_bytes(self.slot as nat, 4) + little_endian::le_bytes(self.flags as nat, 4) + little_endian::le_bytes(
            self.generation as nat,
            8,
        )
    }

    /// Reads a reply out of its bytes.
    pub fn from_bytes(bytes: &[u8; REPLY_LEN]) -> (reply: Self)
        ensures
            reply == Self::spec_from_bytes(bytes@),
    {
        proof {
            little_endian::lemma_le_limits();
        }
        VmshmHandshakeReply {
            magic: little_endian::read_le(bytes, 0, 4) as u32,
            version: little_endian::read_le(bytes, 4, 2) as u16,
            status: little_endian::read_le(bytes, 6, 2) as u16,
            window_size: little_endian::read_le(bytes, 8, 8),
            guest_phys_addr: little_endian::read_le(bytes, 16, 8),
            slot: little_endian::read_le(bytes, 24, 4) as u32,
            flags: little_endian::read_le(bytes, 28, 4) as u32,
            generation: little_endian::read_le(bytes, 32, 8),
        }
    }
}

/// The UTF-8 bytes of the participant's name.
pub open spec fn name_bytes(config: VmshmDeviceConfig) -> Seq<u8> {
    vstd::utf8::encode_utf8(config.name@)
}

/// Whether the participant's name fits in a request: not empty, and with a length that the
/// length field holds.
pub open spec fn name_fits(config: VmshmDeviceConfig) -> bool {
    0 < name_bytes(config).len() <= u16::MAX
}

/// What [`check_name`] says of a configuration.
pub open spec fn name_verdict(config: VmshmDeviceConfig) -> Result<(), VmshmError> {
    if name_bytes(config).len() == 0 {
        Err(VmshmError::EmptyName)
    } else if name_bytes(config).len() > u16::MAX {
        Err(VmshmError::NameTooLong(name_bytes(config).len() as usize))
    } else {
        Ok(())
    }
}

/// Checks that the participant's name fits in a request.
pub fn check_name(config: &VmshmDeviceConfig) -> (verdict: Result<(), VmshmError>)
    ensures
        verdict == name_verdict(*config),
        verdict is Ok <==> name_fits(*config),
{
    let len: usize = config.name.as_str().as_bytes().len();
    if len == 0 {
        return Err(VmshmError::EmptyName);
    }
    if len > u16::MAX as usize {
        return Err(VmshmError::NameTooLong(len));
    }
    Ok(())
}

/// The handshake request of a participant: magic, version, role, length of the name, a reserved
/// field, and the name itself.
pub open spec fn request_bytes(config: VmshmDeviceConfig) -> Seq<u8> {
    little_endian::le_bytes(VMSHM_MAGIC as nat, 4) + little_endian::le_bytes(
        VMSHM_VERSION as nat,
        2,
    ) + little_endian::le_bytes(config.role.wire() as nat, 2) + little_endian::le_bytes(
        name_bytes(config).len(),
        2,
    ) + little_endian::le_bytes(0, 2) + name_bytes(config)
}

/// Builds the handshake request of a participant.
pub fn build_request(config: &VmshmDeviceConfig) -> (request: Vec<u8>)
    requires
        name_bytes(*config).len() <= u16::MAX,
    ensures
        request@ == request_bytes(*config),
{
    let name = config.name.as_str().as_bytes();
    let mut request: Vec<u8> = Vec::with_capacity(REQUEST_HEADER_LEN + name.len());
    little_endian::push_le(&mut request, VMSHM_MAGIC as u64, 4);
    little_endian::push_le(&mut request, VMSHM_VERSION as u64, 2);
    little_endian::push_le(&mut request, config.role.as_wire() as u64, 2);
    little_endian::push_le(&mut request, name.len() as u64, 2);
    little_endian::push_le(&mut request, 0, 2);
    request.extend_from_slice(name);
    proof {
        assert(request@ =~= request_bytes(*config));
    }
    request
}

/// Whether a reply grants a window that the configuration can take.
pub open spec fn reply_acceptable(
    config: VmshmDeviceConfig,
    reply: VmshmHandshakeReply,
) -> bool {
    &&& reply.magic == VMSHM_MAGIC
    &&& reply.version == VMSHM_VERSION
    &&& reply.status == STATUS_OK
    &&& reply.window_size > 0
    &&& reply.window_size % GUEST_PAGE_SIZE == 0
    &&& config.guest_phys_addr % GUEST_PAGE_SIZE == 0
    &&& config.expected_size matches Some(expected) ==> expected == reply.window_size
}

/// What [`validate_reply`] says of a reply: the first of its checks that fails decides.
pub open spec fn reply_verdict(
    config: VmshmDeviceConfig,
    reply: VmshmHandshakeReply,
) -> Result<(), VmshmError> {
    if reply.magic != VMSHM_MAGIC {
        Err(VmshmError::BadMagic(reply.magic))
    } else if reply.version != VMSHM_VERSION {
        Err(VmshmError::BadVersion(reply.version))
    } else if reply.status != STATUS_OK {
        Err(VmshmError::BrokerStatus(reply.status))
    } else if reply.window_size == 0 {
        Err(VmshmError::EmptyWindow)
    } else if reply.window_size % GUEST_PAGE_SIZE != 0 {
        Err(VmshmError::WindowSizeNotAligned(reply.window_size))
    } else if config.guest_phys_addr % GUEST_PAGE_SIZE != 0 {
        Err(VmshmError::GuestAddressNotAligned(config.guest_phys_addr))
    } else {
        match config.expected_size {
            Some(expected) if expected != reply.window_size => Err(
                VmshmError::SizeMismatch { expected, actual: reply.window_size },
            ),
            _ => Ok(()),
        }
    }
}

/// Checks that a reply grants a window that the configuration can take.
pub fn validate_reply(config: &VmshmDeviceConfig, reply: &VmshmHandshakeReply) -> (verdict: Result<
    (),
    VmshmError,
>)
    ensures
        verdict == reply_verdict(*config, *reply),
        verdict is Ok <==> reply_acceptable(*config, *reply),
{
    if reply.magic != VMSHM_MAGIC {
        return Err(VmshmError::BadMagic(reply.magic));
    }
    if reply.version != VMSHM_VERSION {
        return Err(VmshmError::BadVersion(reply.version));
    }
    if reply.status != STATUS_OK {
        return Err(VmshmError::BrokerStatus(reply.status));
    }
    if reply.window_size == 0 {
        return Err(VmshmError::EmptyWindow);
    }
    if reply.window_size % GUEST_PAGE_SIZE != 0 {
        return Err(VmshmError::WindowSizeNotAligned(reply.window_size));
    }
    if config.guest_phys_addr % GUEST_PAGE_SIZE != 0 {
        return Err(VmshmError::GuestAddressNotAligned(config.guest_phys_addr));
    }
    if let Some(expected) = config.expected_size {
        if expected != reply.window_size {
            return Err(VmshmError::SizeMismatch { expected, actual: reply.window_size });
        }
    }
    Ok(())
}

/// Whether a reply says where the guest is to place the window.
pub open spec fn placement_suggested(reply: VmshmHandshakeReply) -> bool {
    reply.guest_phys_addr != 0 || reply.slot != 0
}

/// Whether a broker suggests where the guest is to place the window. It may, and the
/// configuration still decides.
pub fn suggests_placement(reply: &VmshmHandshakeReply) -> (answer: bool)
    ensures
        answer == (reply.guest_phys_addr != 0 || reply.slot != 0),
        answer == placement_suggested(*reply),
{
    reply.guest_phys_addr != 0 || reply.slot != 0
}

/// The header of one control message.
#[derive(Clone, Copy, Debug, PartialEq, Eq, Structural)]
pub struct ControlMessage {
    /// Protocol level.
    pub level: i32,
    /// Type within the level.
    pub kind: i32,
    /// Length in bytes, header and payload together.
    pub len: usize,
}

/// How the host writes a control message that passes file descriptors.
#[derive(Clone, Copy, Debug, PartialEq, Eq, Structural)]
pub struct ControlFormat {
    /// Protocol level of such a message.
    pub rights_level: i32,
    /// Type of such a message.
    pub rights_kind: i32,
    /// Length in bytes of a message header.
    pub header_len: usize,
    /// Length in bytes of a file descriptor.
    pub fd_len: usize,
}

/// What one receive call took from the broker socket.
#[derive(Debug)]
pub struct ReceivedMessage {
    /// Number of payload bytes received.
    pub len: usize,
    /// The receive buffer.
    pub bytes: [u8; REPLY_LEN],
    /// The control messages received, in order.
    pub control: Vec<ControlMessage>,
    /// How the host writes control messages.
    pub format: ControlFormat,
}

/// Whether a control message is of the kind that passes file descriptors.
pub open spec fn passes_fds(message: ControlMessage, format: ControlFormat) -> bool {
    message.level == format.rights_level && message.kind == format.rights_kind
}

/// Whether a control message is long enough to hold a file descriptor.
pub open spec fn holds_fd(message: ControlMessage, format: ControlFormat) -> bool {
    message.len >= format.header_len + format.fd_len
}

/// Whether message `i` is the first that passes file descriptors.
pub open spec fn first_passing_fds(
    control: Seq<ControlMessage>,
    format: ControlFormat,
    i: int,
) -> bool {
    &&& 0 <= i < control.len()
    &&& passes_fds(control[i], format)
    &&& forall|j: int| 0 <= j < i ==> !passes_fds(#[trigger] control[j], format)
}

/// Whether the descriptor of the window is the first one in control message `i`.
pub open spec fn window_fd_in(
    control: Seq<ControlMessage>,
    format: ControlFormat,
    i: int,
) -> bool {
    first_passing_fds(control, format, i) && holds_fd(control[i], format)
}

/// Finds the control message whose first descriptor is the memfd of the window: the first
/// message that passes descriptors, if it is long enough to hold one.
pub fn extract_file_from_cmsg(control: &[ControlMessage], format: &ControlFormat) -> (found: Result<
    usize,
    VmshmError,
>)
    ensures
        match found {
            Ok(i) => window_fd_in(control@, *format, i as int),
            Err(error) => error == VmshmError::MissingFd && forall|i: int|
                !window_fd_in(control@, *format, i),
        },
{
    let count: usize = control.len();
    let mut at: usize = 0;
    while at < count
        invariant
            count == control@.len(),
            at <= count,
            forall|j: int| 0 <= j < at ==> !passes_fds(#[trigger] control@[j], *format),
        decreases count - at,
    {
        let message = control[at];
        if message.level == format.rights_level && message.kind == format.rights_kind {
            proof {
                assert(first_passing_fds(control@, *format, at as int));
                assert forall|i: int| window_fd_in(control@, *format, i) implies i == at by {
                    if i < at {
                        assert(!passes_fds(control@[i], *format));
                    } else if i > at {
                        assert(!passes_fds(control@[at as int], *format));
                    }
                }
            }
            if message.len < format.header_len {
                return Err(VmshmError::MissingFd);
            }
            if message.len - format.header_len < format.fd_len {
                return Err(VmshmError::MissingFd);
            }
            return Ok(at);
        }
        at = at + 1;
    }
    Err(VmshmError::MissingFd)
}

/// The control message that holds the descriptor of the window, if one does.
pub open spec fn window_fd(control: Seq<ControlMessage>, format: ControlFormat) -> Option<int> {
    if exists|i: int| window_fd_in(control, format, i) {
        Some(choose|i: int| window_fd_in(control, format, i))
    } else {
        None
    }
}

/// What a received message comes to: a reply and the control message that holds the memfd, or
/// the error that says what is missing.
pub open spec fn received_verdict(message: ReceivedMessage) -> Result<
    (VmshmHandshakeReply, usize),
    VmshmError,
> {
    if message.len != REPLY_LEN {
        Err(VmshmError::ShortReply(message.len))
    } else {
        match window_fd(message.control@, message.format) {
            Some(i) => Ok((VmshmHandshakeReply::spec_from_bytes(message.bytes@), i as usize)),
            None => Err(VmshmError::MissingFd),
        }
    }
}

/// No two control messages both hold the descriptor of the window.
pub proof fn law_window_fd_unique(
    control: Seq<ControlMessage>,
    format: ControlFormat,
    i: int,
    j: int,
)
    requires
        window_fd_in(control, format, i),
        window_fd_in(control, format, j),
    ensures
        i == j,
{
    if i < j {
        assert(!passes_fds(control[i], format));
    } else if j < i {
        assert(!passes_fds(control[j], format));
    }
}

/// Takes a reply, and the place of the memfd, out of what was received.
pub fn recv_reply_with_fd(message: &ReceivedMessage) -> (outcome: Result<
    (VmshmHandshakeReply, usize),
    VmshmError,
>)
    ensures
        outcome == received_verdict(*message),
        outcome matches Ok((_, at)) ==> window_fd_in(message.control@, message.format, at as int),
{
    if message.len != REPLY_LEN {
        return Err(VmshmError::ShortReply(message.len));
    }
    match extract_file_from_cmsg(message.control.as_slice(), &message.format) {
        Ok(at) => {
            proof {
                let found = window_fd(message.control@, message.format).unwrap();
                law_window_fd_unique(message.control@, message.format, found, at as int);
            }
            Ok((VmshmHandshakeReply::from_bytes(&message.bytes), at))
        },
        Err(error) => Err(error),
    }
}

/// A reply is read back from the bytes that hold it.
pub proof fn law_reply_read_back(reply: VmshmHandshakeReply)
    ensures
        reply.spec_to_bytes().len() == REPLY_LEN,
        VmshmHandshakeReply::spec_from_bytes(reply.spec_to_bytes()) == reply,
{
    let bytes = reply.spec_to_bytes();
    little_endian::lemma_le_limits();
    lemma_field(reply.magic as nat, 4);
    lemma_field(reply.version as nat, 2);
    lemma_field(reply.status as nat, 2);
    lemma_field(reply.window_size as nat, 8);
    lemma_field(reply.guest_phys_addr as nat, 8);
    lemma_field(reply.slot as nat, 4);
    lemma_field(reply.flags as nat, 4);
    lemma_field(reply.generation as nat, 8);
    assert(bytes.subrange(0, 4) =~= little_endian::le_bytes(reply.magic as nat, 4));
    assert(bytes.subrange(4, 6) =~= little_endian::le_bytes(reply.version as nat, 2));
    assert(bytes.subrange(6, 8) =~= little_endian::le_bytes(reply.status as nat, 2));
    assert(bytes.subrange(8, 16) =~= little_endian::le_bytes(reply.window_size as nat, 8));
    assert(bytes.subrange(16, 24) =~= little_endian::le_bytes(reply.guest_phys_addr as nat, 8));
    assert(bytes.subrange(24, 28) =~= little_endian::le_bytes(reply.slot as nat, 4));
    assert(bytes.subrange(28, 32) =~= little_endian::le_bytes(reply.flags as nat, 4));
    assert(bytes.subrange(32, 40) =~= little_endian::le_bytes(reply.generation as nat, 8));
}

/// Every record of the right length is the bytes of the reply that it holds, so that no two
/// records hold the same reply.
pub proof fn law_reply_write_back(bytes: Seq<u8>)
    requires
        bytes.len() == REPLY_LEN,
    ensures
        VmshmHandshakeReply::spec_from_bytes(bytes).spec_to_bytes() == bytes,
{
    let fields = seq![(0int, 4int), (4, 6), (6, 8), (8, 16), (16, 24), (24, 28), (28, 32), (32, 40)];
    little_endian::lemma_le_limits();
    assert forall|k: int| 0 <= k < fields.len() implies ({
        let field = bytes.subrange(#[trigger] fields[k].0, fields[k].1);
        &&& little_endian::le_value(field) < little_endian::le_limit(field.len())
        &&& little_endian::le_bytes(little_endian::le_value(field), field.len()) == field
    }) by {
        let field = bytes.subrange(fields[k].0, fields[k].1);
        little_endian::lemma_le_value_bound(field);
        little_endian::law_write_back_bytes(field);
    }
    assert(fields[0].0 == 0 && fields[1].0 == 4 && fields[2].0 == 6 && fields[3].0 == 8);
    assert(fields[4].0 == 16 && fields[5].0 == 24 && fields[6].0 == 28 && fields[7].0 == 32);
    assert(VmshmHandshakeReply::spec_from_bytes(bytes).spec_to_bytes() =~= bytes);
}

/// A field of the wire format has its width and reads back.
proof fn lemma_field(value: nat, len: nat)
    requires
        value < little_endian::le_limit(len),
    ensures
        little_endian::le_bytes(value, len).len() == len,
        little_endian::le_value(little_endian::le_bytes(value, len)) == value,
{
    little_endian::lemma_le_bytes_len(value, len);
    little_endian::law_read_back_value(value, len);
}

/// The broker reads back of a request what the participant put in: magic, version, role, the
/// length of the name, zero, and the name.
pub proof fn law_request_read_back(config: VmshmDeviceConfig)
    requires
        name_bytes(config).len() <= u16::MAX,
    ensures
        ({
            let request = request_bytes(config);
            &&& request.len() == REQUEST_HEADER_LEN + name_bytes(config).len()
            &&& little_endian::le_value(request.subrange(0, 4)) == VMSHM_MAGIC
            &&& little_endian::le_value(request.subrange(4, 6)) == VMSHM_VERSION
            &&& little_endian::le_value(request.subrange(6, 8)) == config.role.wire()
            &&& little_endian::le_value(request.subrange(8, 10)) == name_bytes(config).len()
            &&& little_endian::le_value(request.subrange(10, 12)) == 0
            &&& vstd::utf8::decode_utf8(request.subrange(12, request.len() as int))
                == config.name@
        }),
{
    let request = request_bytes(config);
    let name = name_bytes(config);
    little_endian::lemma_le_limits();
    lemma_field(VMSHM_MAGIC as nat, 4);
    lemma_field(VMSHM_VERSION as nat, 2);
    lemma_field(config.role.wire() as nat, 2);
    lemma_field(name.len(), 2);
    lemma_field(0, 2);
    assert(request.subrange(0, 4) =~= little_endian::le_bytes(VMSHM_MAGIC as nat, 4));
    assert(request.subrange(4, 6) =~= little_endian::le_bytes(VMSHM_VERSION as nat, 2));
    assert(request.subrange(6, 8) =~= little_endian::le_bytes(config.role.wire() as nat, 2));
    assert(request.subrange(8, 10) =~= little_endian::le_bytes(name.len(), 2));
    assert(request.subrange(10, 12) =~= little_endian::le_bytes(0, 2));
    assert(request.subrange(12, request.len() as int) =~= name);
    vstd::utf8::encode_utf8_decode_utf8(config.name@);
}

/// Two participants send the same request only if they have the same role and the same name.
pub proof fn law_request_tells_apart(left: VmshmDeviceConfig, right: VmshmDeviceConfig)
    requires
        name_bytes(left).len() <= u16::MAX,
        name_bytes(right).len() <= u16::MAX,
        request_bytes(left) == request_bytes(right),
    ensures
        left.role == right.role,
        left.name@ == right.name@,
{
    law_request_read_back(left);
    law_request_read_back(right);
}

/// What a broker suggests as guest address and slot changes nothing in how its reply is judged.
pub proof fn law_suggestions_ignored(
    config: VmshmDeviceConfig,
    reply: VmshmHandshakeReply,
    guest_phys_addr: u64,
    slot: u32,
)
    ensures
        reply_verdict(config, (VmshmHandshakeReply { guest_phys_addr, slot, ..reply }))
            == reply_verdict(config, reply),
{
}

/// How a reply is judged rests on its magic, version, status and window size, and on the guest
/// address and the expected size of the configuration, and on nothing else in either.
pub proof fn law_reply_judged_by(
    left_config: VmshmDeviceConfig,
    right_config: VmshmDeviceConfig,
    left: VmshmHandshakeReply,
    right: VmshmHandshakeReply,
)
    requires
        left_config.guest_phys_addr == right_config.guest_phys_addr,
        left_config.expected_size == right_config.expected_size,
        left.magic == right.magic,
        left.version == right.version,
        left.status == right.status,
        left.window_size == right.window_size,
    ensures
        reply_verdict(left_config, left) == reply_verdict(right_config, right),
{
}

/// A configuration that expects a size takes a reply of no other size.
pub proof fn law_expected_size_kept(config: VmshmDeviceConfig, reply: VmshmHandshakeReply)
    requires
        config.expected_size is Some,
        reply_verdict(config, reply) is Ok,
    ensures
        reply.window_size == config.expected_size.unwrap(),
{
}

/// What two, four and eight bytes spell, byte by byte.
proof fn lemma_le_value_by_byte(bytes: Seq<u8>, at: int)
    requires
        0 <= at,
    ensures
        at + 2 <= bytes.len() ==> little_endian::le_value(bytes.subrange(at, at + 2)) == bytes[at]
            + 0x100 * bytes[at + 1],
        at + 4 <= bytes.len() ==> little_endian::le_value(bytes.subrange(at, at + 4)) == bytes[at]
            + 0x100 * bytes[at + 1] + 0x1_0000 * bytes[at + 2] + 0x100_0000 * bytes[at + 3],
        at + 8 <= bytes.len() ==> little_endian::le_value(bytes.subrange(at, at + 8)) == bytes[at]
            + 0x100 * bytes[at + 1] + 0x1_0000 * bytes[at + 2] + 0x100_0000 * bytes[at + 3]
            + 0x1_0000_0000 * bytes[at + 4] + 0x100_0000_0000 * bytes[at + 5] + 0x1_0000_0000_0000
            * bytes[at + 6] + 0x100_0000_0000_0000 * bytes[at + 7],
{
    reveal_with_fuel(little_endian::le_value, 9);
}

/// Where in its record each field of a reply stands, byte by byte.
pub proof fn law_reply_layout(bytes: Seq<u8>)
    requires
        bytes.len() == 40,
    ensures
        ({
            let reply = VmshmHandshakeReply::spec_from_bytes(bytes);
            &&& reply.magic == bytes[0] + 0x100 * bytes[1] + 0x1_0000 * bytes[2] + 0x100_0000
                * bytes[3]
            &&& reply.version == bytes[4] + 0x100 * bytes[5]
            &&& reply.status == bytes[6] + 0x100 * bytes[7]
            &&& reply.window_size == bytes[8] + 0x100 * bytes[9] + 0x1_0000 * bytes[10]
                + 0x100_0000 * bytes[11] + 0x1_0000_0000 * bytes[12] + 0x100_0000_0000 * bytes[13]
                + 0x1_0000_0000_0000 * bytes[14] + 0x100_0000_0000_0000 * bytes[15]
            &&& reply.guest_phys_addr == bytes[16] + 0x100 * bytes[17] + 0x1_0000 * bytes[18]
                + 0x100_0000 * bytes[19] + 0x1_0000_0000 * bytes[20] + 0x100_0000_0000 * bytes[21]
                + 0x1_0000_0000_0000 * bytes[22] + 0x100_0000_0000_0000 * bytes[23]
            &&& reply.slot == bytes[24] + 0x100 * bytes[25] + 0x1_0000 * bytes[26] + 0x100_0000
                * bytes[27]
            &&& reply.flags == bytes[28] + 0x100 * bytes[29] + 0x1_0000 * bytes[30] + 0x100_0000
                * bytes[31]
            &&& reply.generation == bytes[32] + 0x100 * bytes[33] + 0x1_0000 * bytes[34]
                + 0x100_0000 * bytes[35] + 0x1_0000_0000 * bytes[36] + 0x100_0000_0000 * bytes[37]
                + 0x1_0000_0000_0000 * bytes[38] + 0x100_0000_0000_0000 * bytes[39]
        }),
{
    lemma_le_value_by_byte(bytes, 0);
    lemma_le_value_by_byte(bytes, 4);
    lemma_le_value_by_byte(bytes, 6);
    lemma_le_value_by_byte(bytes, 8);
    lemma_le_value_by_byte(bytes, 16);
    lemma_le_value_by_byte(bytes, 24);
    lemma_le_value_by_byte(bytes, 28);
    lemma_le_value_by_byte(bytes, 32);
}

/// A record suggests a placement exactly if one of the bytes that are there for it is not zero.
pub proof fn law_placement_bytes(bytes: Seq<u8>)
    requires
        bytes.len() == 40,
    ensures
        placement_suggested(VmshmHandshakeReply::spec_from_bytes(bytes)) <==> exists|i: int|
            16 <= i < 28 && #[trigger] bytes[i] != 0,
{
    law_reply_layout(bytes);
    if forall|i: int| 16 <= i < 28 ==> #[trigger] bytes[i] == 0 {
        assert(bytes[16] == 0 && bytes[17] == 0 && bytes[18] == 0 && bytes[19] == 0);
        assert(bytes[20] == 0 && bytes[21] == 0 && bytes[22] == 0 && bytes[23] == 0);
        assert(bytes[24] == 0 && bytes[25] == 0 && bytes[26] == 0 && bytes[27] == 0);
    }
}

/// Where in a request each field stands, byte by byte: `VMSH`, version one, the role, the length
/// of the name, zero, and the name.
pub proof fn law_request_layout(config: VmshmDeviceConfig)
    requires
        vstd::utf8::encode_utf8(config.name@).len() <= 0xffff,
    ensures
        ({
            let name = vstd::utf8::encode_utf8(config.name@);
            let request = request_bytes(config);
            &&& request.len() == 12 + name.len()
            &&& request[0] == 0x56 && request[1] == 0x4d && request[2] == 0x53 && request[3] == 0x48
            &&& request[4] == 1 && request[5] == 0
            &&& request[6] == (if config.role is Client {
                1
            } else {
                2int
            }) && request[7] == 0
            &&& request[8] + 0x100 * request[9] == name.len()
            &&& request[10] == 0 && request[11] == 0
            &&& request.skip(12) == name
        }),
{
    let name = name_bytes(config);
    let role = config.role.wire() as nat;
    let request = request_bytes(config);
    reveal_with_fuel(little_endian::le_bytes, 5);
    lemma_field_len(VMSHM_MAGIC as nat, 4);
    lemma_field_len(VMSHM_VERSION as nat, 2);
    lemma_field_len(role, 2);
    lemma_field_len(name.len(), 2);
    lemma_field_len(0, 2);
    assert(request.skip(12) =~= name);
    assert(request.subrange(0, 4) =~= little_endian::le_bytes(VMSHM_MAGIC as nat, 4));
    assert(request.subrange(4, 6) =~= little_endian::le_bytes(VMSHM_VERSION as nat, 2));
    assert(request.subrange(6, 8) =~= little_endian::le_bytes(role, 2));
    assert(request.subrange(8, 10) =~= little_endian::le_bytes(name.len(), 2));
    assert(request.subrange(10, 12) =~= little_endian::le_bytes(0, 2));
    assert(request[0] == request.subrange(0, 4)[0] && request[1] == request.subrange(0, 4)[1]
        && request[2] == request.subrange(0, 4)[2] && request[3] == request.subrange(0, 4)[3]);
    assert(request[4] == request.subrange(4, 6)[0] && request[5] == request.subrange(4, 6)[1]);
    assert(request[6] == request.subrange(6, 8)[0] && request[7] == request.subrange(6, 8)[1]);
    assert(request[8] == request.subrange(8, 10)[0] && request[9] == request.subrange(8, 10)[1]);
    assert(request[10] == request.subrange(10, 12)[0] && request[11] == request.subrange(
        10,
        12,
    )[1]);
}

/// A field of the wire format has its width.
proof fn lemma_field_len(value: nat, len: nat)
    ensures
        little_endian::le_bytes(value, len).len() == len,
{
    little_endian::lemma_le_bytes_len(value, len);
}

/// A name is refused exactly if its UTF-8 form is empty or longer than sixteen bits can say, and
/// for what it is.
pub proof fn law_name_judged(config: VmshmDeviceConfig)
    ensures
        ({
            let len = vstd::utf8::encode_utf8(config.name@).len();
            match name_verdict(config) {
                Ok(_) => 1 <= len <= 0xffff,
                Err(VmshmError::EmptyName) => len == 0,
                Err(VmshmError::NameTooLong(told)) => len > 0xffff && (len <= usize::MAX ==> told
                    == len),
                Err(_) => false,
            }
        }),
{
}

/// A reply is taken exactly if it says `VMSH`, version one and success, its window is whole
/// pages and at least one, the guest address is at a page boundary, and the size is the expected
/// one. It is refused for the first of these that does not hold, with the value that is wrong.
pub proof fn law_reply_judged(config: VmshmDeviceConfig, reply: VmshmHandshakeReply)
    ensures
        ({
            let marked = reply.magic == 0x4853_4d56;
            let current = marked && reply.version == 1;
            let granted = current && reply.status == 0;
            let sized = granted && reply.window_size != 0;
            let whole = sized && reply.window_size as int % 0x1000 == 0;
            let aligned = whole && config.guest_phys_addr as int % 0x1000 == 0;
            match reply_verdict(config, reply) {
                Ok(_) => aligned && (config.expected_size is Some ==> config.expected_size
                    == Some(reply.window_size)),
                Err(VmshmError::BadMagic(magic)) => !marked && magic == reply.magic,
                Err(VmshmError::BadVersion(version)) => marked && !current && version
                    == reply.version,
                Err(VmshmError::BrokerStatus(status)) => current && !granted && status
                    == reply.status,
                Err(VmshmError::EmptyWindow) => granted && !sized,
                Err(VmshmError::WindowSizeNotAligned(size)) => sized && !whole && size
                    == reply.window_size,
                Err(VmshmError::GuestAddressNotAligned(addr)) => whole && !aligned && addr
                    == config.guest_phys_addr,
                Err(VmshmError::SizeMismatch { expected, actual }) => aligned
                    && config.expected_size == Some(expected) && actual == reply.window_size
                    && expected != actual,
                Err(_) => false,
            }
        }),
        reply_verdict(config, reply) is Ok <==> reply_acceptable(config, reply),
{
}

/// What was received comes to a reply and the place of its memfd exactly if it has the length of
/// a reply and the first control message that passes descriptors has room for one. The place is
/// that of this message.
pub proof fn law_received_judged(message: ReceivedMessage)
    ensures
        ({
            let control = message.control@;
            let format = message.format;
            match received_verdict(message) {
                Ok((reply, at)) => {
                    &&& message.len == 40
                    &&& reply == VmshmHandshakeReply::spec_from_bytes(message.bytes@)
                    &&& at < control.len()
                    &&& control[at as int].level == format.rights_level
                    &&& control[at as int].kind == format.rights_kind
                    &&& control[at as int].len >= format.header_len + format.fd_len
                    &&& forall|j: int|
                        0 <= j < at ==> (#[trigger] control[j]).level != format.rights_level
                            || control[j].kind != format.rights_kind
                },
                Err(VmshmError::ShortReply(len)) => len == message.len && len != 40,
                Err(VmshmError::MissingFd) => {
                    &&& message.len == 40
                    &&& forall|i: int|
                        0 <= i < control.len() && (#[trigger] control[i]).level
                            == format.rights_level && control[i].kind == format.rights_kind
                            && control[i].len >= format.header_len + format.fd_len
                            ==> exists|j: int|
                            0 <= j < i && (#[trigger] control[j]).level == format.rights_level
                                && control[j].kind == format.rights_kind
                },
                Err(_) => false,
            }
        }),
{
    let control = message.control@;
    let format = message.format;
    assert(message.control.len() == control.len());
    if let Some(found) = window_fd(control, format) {
        assert(window_fd_in(control, format, found));
        assert forall|j: int| 0 <= j < found implies (#[trigger] control[j]).level
            != format.rights_level || control[j].kind != format.rights_kind by {
            assert(!passes_fds(control[j], format));
        }
    } else {
        assert forall|i: int|
            0 <= i < control.len() && (#[trigger] control[i]).level == format.rights_level
                && control[i].kind == format.rights_kind && control[i].len >= format.header_len
                + format.fd_len implies exists|j: int|
            0 <= j < i && (#[trigger] control[j]).level == format.rights_level && control[j].kind
                == format.rights_kind by {
            assert(!window_fd_in(control, format, i));
            let j = choose|j: int| 0 <= j < i && passes_fds(#[trigger] control[j], format);
            assert(control[j].level == format.rights_level);
        }
    }
}

/// The message that holds the descriptor of the window is the first that passes descriptors, and
/// has room for one.
pub proof fn law_window_fd_first(control: Seq<ControlMessage>, format: ControlFormat, i: int)
    ensures
        window_fd_in(control, format, i) <==> {
            &&& 0 <= i < control.len()
            &&& control[i].level == format.rights_level
            &&& control[i].kind == format.rights_kind
            &&& control[i].len >= format.header_len + format.fd_len
            &&& forall|j: int|
                0 <= j < i ==> (#[trigger] control[j]).level != format.rights_level
                    || control[j].kind != format.rights_kind
        },
{
    if window_fd_in(control, format, i) {
        assert forall|j: int| 0 <= j < i implies (#[trigger] control[j]).level
            != format.rights_level || control[j].kind != format.rights_kind by {
            assert(!passes_fds(control[j], format));
        }
    }
}

} // verus!
