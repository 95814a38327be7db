use wassette::server::{server_info, PeerSlot, DEFAULT_INSTRUCTIONS};

#[test]
fn test_default_instructions_content() {
    let info = server_info(None);
    assert!(info.tools_list_changed);
    assert_eq!(info.instructions, DEFAULT_INSTRUCTIONS);
    assert!(info.instructions.contains("sandboxed WebAssembly"));
    assert!(info.instructions.contains("grant permissions"));
}

#[test]
fn test_get_info_returns_custom_instructions_when_set() {
    let info = server_info(Some("Custom instructions"));
    assert_eq!(info.instructions, "Custom instructions");
    assert!(info.tools_list_changed);
}

#[test]
fn test_get_peer_returns_none_initially() {
    let slot: PeerSlot<u32> = PeerSlot::new();
    assert!(slot.get().is_none());
    assert!(!slot.should_notify());
}

#[test]
fn background_load_notifies_once_a_client_is_known() {
    let mut slot = PeerSlot::new();
    slot.store_if_empty(7u32);
    slot.store_if_empty(9u32);
    assert_eq!(slot.get(), Some(&7));
    assert!(slot.should_notify());
}
