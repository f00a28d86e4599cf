use clipmagic::config::ClipEntry;
use clipmagic::dispatcher::{handle_fire, ActionOutcome};
use clipmagic::doubles::{FakeClipboard, FakeInjector};
use clipmagic::ports::PortPair;
use clipmagic::registry::{
    HotkeyBinding, HotkeyRegistry, RegistrationError, MOD_ALT, MOD_CONTROL, MOD_SHIFT,
};
use clipmagic::store::ActionStore;

fn binding(key_code: u16, slot_index: usize) -> HotkeyBinding {
    HotkeyBinding { modifiers: MOD_ALT | MOD_SHIFT | MOD_CONTROL, key_code, slot_index }
}

fn scenario_store() -> ActionStore {
    let mut store = ActionStore::new();
    store.replace_all(vec![
        ClipEntry::new(String::from("hello"), true),
        ClipEntry::new(String::from("world"), false),
    ]);
    store
}

#[test]
fn register_hands_out_fresh_ids() {
    let mut registry = HotkeyRegistry::new();
    let first = registry.register(binding(1, 0), true).unwrap();
    let second = registry.register(binding(2, 1), true).unwrap();
    assert_ne!(first, second);
    assert_eq!(registry.find_binding(first), Some(binding(1, 0)));
    assert_eq!(registry.find_binding(second), Some(binding(2, 1)));
}

#[test]
fn register_rejects_claimed_combination() {
    let mut registry = HotkeyRegistry::new();
    registry.register(binding(1, 0), true).unwrap();
    let result = registry.register(binding(1, 2), true);
    assert_eq!(result, Err(RegistrationError::AlreadyClaimed));
}

#[test]
fn register_reports_os_refusal() {
    let mut registry = HotkeyRegistry::new();
    let result = registry.register(binding(1, 0), false);
    assert_eq!(result, Err(RegistrationError::OsRefused));
    assert_eq!(registry.find_binding(0), None);
}

#[test]
fn unregister_releases_one_binding() {
    let mut registry = HotkeyRegistry::new();
    let first = registry.register(binding(1, 0), true).unwrap();
    let second = registry.register(binding(2, 1), true).unwrap();
    registry.unregister(first).unwrap();
    assert_eq!(registry.find_binding(first), None);
    assert_eq!(registry.find_binding(second), Some(binding(2, 1)));
    // the freed combination can be claimed again
    let third = registry.register(binding(1, 2), true).unwrap();
    assert_ne!(third, first);
    assert_eq!(registry.find_binding(third), Some(binding(1, 2)));
}

#[test]
fn registry_fails_closed_after_shutdown() {
    let mut registry = HotkeyRegistry::new();
    let id = registry.register(binding(1, 0), true).unwrap();
    registry.shutdown();
    assert!(registry.is_closed());
    assert_eq!(registry.find_binding(id), None);
    assert_eq!(registry.register(binding(2, 1), true), Err(RegistrationError::RegistryClosed));
    assert_eq!(registry.unregister(id), Err(RegistrationError::RegistryClosed));
}

#[test]
fn one_fire_emits_exactly_one_outcome() {
    let mut registry = HotkeyRegistry::new();
    let id = registry.register(binding(1, 0), true).unwrap();
    let store = scenario_store();
    let mut ports = PortPair::new(FakeClipboard::new(false), FakeInjector::new(false));
    let emitted = handle_fire(&registry, &store, id, &mut ports);
    assert_eq!(emitted, Some(ActionOutcome::Success));
    assert_eq!(ports.injector.attempts, vec![String::from("hello")]);
    assert_eq!(ports.clipboard.attempts, vec![String::from("hello")]);
}

#[test]
fn unknown_id_fires_nothing() {
    let mut registry = HotkeyRegistry::new();
    registry.register(binding(1, 0), true).unwrap();
    let store = scenario_store();
    let mut ports = PortPair::new(FakeClipboard::new(false), FakeInjector::new(false));
    let emitted = handle_fire(&registry, &store, 999, &mut ports);
    assert_eq!(emitted, None);
    assert!(ports.clipboard.attempts.is_empty());
    assert!(ports.injector.attempts.is_empty());
}

#[test]
fn fire_after_shutdown_dispatches_nothing() {
    let mut registry = HotkeyRegistry::new();
    let id = registry.register(binding(1, 0), true).unwrap();
    registry.shutdown();
    let store = scenario_store();
    let mut ports = PortPair::new(FakeClipboard::new(false), FakeInjector::new(false));
    let emitted = handle_fire(&registry, &store, id, &mut ports);
    assert_eq!(emitted, None);
    assert!(ports.clipboard.attempts.is_empty());
    assert!(ports.injector.attempts.is_empty());
}
