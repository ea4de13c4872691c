use vmm::number::{
    deserialize_u64_from_number_or_str, serialize_u64_as_hex, NumberOrStr,
};
use vmm::vmm_config::{
    default_doorbell_size, is_default_doorbell_size, VmshmDeviceConfig, VmshmNotifyConfig,
    VmshmRoleConfig,
};

#[test]
fn roles_on_the_wire() {
    assert_eq!(VmshmRoleConfig::Client.as_wire(), 1);
    assert_eq!(VmshmRoleConfig::Proxy.as_wire(), 2);
}

#[test]
fn doorbell_size_defaults_to_a_page() {
    assert_eq!(default_doorbell_size(), 4096);
    assert!(is_default_doorbell_size(&4096));
    assert!(!is_default_doorbell_size(&0));
    assert!(!is_default_doorbell_size(&8192));
}

#[test]
fn doorbell_size_is_read_back() {
    for size in [0, 1, 4095, 4096, 4097, u64::MAX] {
        let written = if is_default_doorbell_size(&size) {
            None
        } else {
            Some(serialize_u64_as_hex(&size))
        };
        let read = match written {
            None => default_doorbell_size(),
            Some(text) => {
                deserialize_u64_from_number_or_str(&NumberOrStr::Str(text)).unwrap()
            }
        };
        assert_eq!(read, size);
    }
}

#[test]
fn configurations_are_cloned_whole() {
    let config = VmshmDeviceConfig {
        socket_path: "/run/broker.sock".to_string(),
        name: "guest".to_string(),
        role: VmshmRoleConfig::Proxy,
        guest_phys_addr: 0xd000_0000,
        slot: 7,
        expected_size: Some(0x2000),
        fdt_node_name: Some("vmshm@d0000000".to_string()),
        fdt_compatible: None,
        client_vmid: Some(3),
        notify: Some(VmshmNotifyConfig { doorbell_addr: 0xe000_0000, doorbell_size: 4096, irq: 40 }),
    };
    assert_eq!(config.clone(), config);
}
