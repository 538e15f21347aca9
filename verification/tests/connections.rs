//! The registry of connected devices.

use arcrelay_protocol::connection_registry::{ActiveConnection, ConnectionRegistry};
use std::collections::HashMap;

#[test]
fn register_and_list() {
    let mut reg = ConnectionRegistry::<u8>::new();
    let _notify = reg.register("iPad");
    let list = reg.list_connected();
    assert_eq!(list.len(), 1);
    assert!(list.contains(&"iPad".to_string()));
}

#[test]
fn unregister_removes_device() {
    let mut reg = ConnectionRegistry::<u8>::new();
    let notify = reg.register("iPad");
    reg.unregister("iPad", notify.token);
    assert!(reg.list_connected().is_empty());
}

#[test]
fn disconnect_returns_false_for_unknown() {
    let reg = ConnectionRegistry::<u8>::default();
    assert_eq!(reg.disconnect("nonexistent"), None);
}

#[test]
fn disconnect_signals_notify() {
    let mut reg = ConnectionRegistry::<u8>::new();
    let notify = reg.register("iPad");
    assert_eq!(notify.replaced, None);
    assert_eq!(reg.disconnect("iPad"), Some(notify.token));
}

#[test]
fn a_replacement_disconnects_the_previous_connection() {
    let mut reg = ConnectionRegistry::<u8>::new();
    let first = reg.register("device-id");
    let second = reg.register("device-id");

    assert_eq!(second.replaced, Some(first.token));
    assert_eq!(reg.disconnect("device-id"), Some(second.token));

    reg.unregister("device-id", first.token);
    assert_eq!(reg.list_connected(), vec!["device-id".to_string()]);
    reg.unregister("device-id", second.token);
    assert!(reg.list_connected().is_empty());
}

#[test]
fn feature_versions_must_match_exactly() {
    let active = ActiveConnection::<u8> {
        token: 0,
        transport: None,
        negotiated_features: HashMap::from([(12, 2)]),
    };

    assert!(active.supports_feature(12, 2));
    assert!(!active.supports_feature(12, 1));
    assert!(!active.supports_feature(13, 2));
}

#[test]
fn a_transport_is_found_by_device_and_feature() {
    let mut reg = ConnectionRegistry::new();
    reg.register_transport("phone", 'p');
    reg.register_transport_with_features("tablet", 't', HashMap::from([(12, 2)]));
    reg.register("watch");
    assert_eq!(reg.transport("phone"), Some(&'p'));
    assert_eq!(reg.transport("watch"), None);
    assert_eq!(reg.transport("unknown"), None);
    assert_eq!(reg.transport_for_feature("tablet", 12, 2), Some(&'t'));
    assert_eq!(reg.transport_for_feature("tablet", 12, 1), None);
    assert_eq!(reg.transport_for_feature("phone", 12, 2), None);
    assert_eq!(reg.list_connected_with_feature(12, 2), vec!["tablet".to_string()]);
    assert_eq!(reg.list_connected().len(), 3);
}
