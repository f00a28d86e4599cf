use clipmagic::config::ClipEntry;
use clipmagic::dispatcher::{
    dispatch, dispatch_contains_clipboard_failure, dispatch_twice_same_slot, ActionOutcome,
};
use clipmagic::doubles::{FakeClipboard, FakeInjector};
use clipmagic::ports::{ClipboardError, InjectionError, PortPair, CLIPBOARD_RETRY_LIMIT};
use clipmagic::store::ActionStore;

fn entry(text: &str, push_to_clipboard: bool) -> ClipEntry {
    ClipEntry::new(String::from(text), push_to_clipboard)
}

fn scenario_store() -> ActionStore {
    let mut store = ActionStore::new();
    store.replace_all(vec![entry("hello", true), entry("world", false), entry("", false)]);
    store
}

#[test]
fn scenario_three_slots() {
    let store = scenario_store();
    let mut ports = PortPair::new(FakeClipboard::new(false), FakeInjector::new(false));

    let outcome = dispatch(&store, 0, &mut ports);
    assert_eq!(outcome, ActionOutcome::Success);
    assert_eq!(ports.clipboard.clipboard_text, "hello");
    assert_eq!(ports.injector.accepted, vec![String::from("hello")]);

    let outcome = dispatch(&store, 1, &mut ports);
    assert_eq!(outcome, ActionOutcome::Success);
    assert_eq!(ports.clipboard.clipboard_text, "hello");
    assert_eq!(ports.injector.accepted, vec![String::from("hello"), String::from("world")]);

    let outcome = dispatch(&store, 2, &mut ports);
    assert_eq!(outcome, ActionOutcome::Success);
    assert_eq!(ports.clipboard.clipboard_text, "hello");
    assert_eq!(
        ports.injector.accepted,
        vec![String::from("hello"), String::from("world"), String::from("")]
    );
    assert_eq!(ports.clipboard.attempts, vec![String::from("hello")]);
}

#[test]
fn clipboard_not_invoked_when_flag_is_off() {
    let store = scenario_store();
    let mut ports = PortPair::new(FakeClipboard::new(false), FakeInjector::new(false));
    let outcome = dispatch(&store, 1, &mut ports);
    assert_eq!(outcome, ActionOutcome::Success);
    assert!(ports.clipboard.attempts.is_empty());
    assert!(ports.clipboard.accepted.is_empty());
}

#[test]
fn dispatching_twice_gives_identical_successes() {
    let store = scenario_store();
    let mut ports = PortPair::new(FakeClipboard::new(false), FakeInjector::new(false));
    let first = dispatch(&store, 0, &mut ports);
    let second = dispatch(&store, 0, &mut ports);
    assert_eq!(first, second);
    assert_eq!(first, ActionOutcome::Success);
    assert_eq!(ports.injector.accepted, vec![String::from("hello"), String::from("hello")]);
    assert_eq!(ports.clipboard.accepted, vec![String::from("hello"), String::from("hello")]);
}

#[test]
fn dispatch_twice_law_on_doubles() {
    let store = scenario_store();
    let mut ports = PortPair::new(FakeClipboard::new(false), FakeInjector::new(false));
    let (first, second) = dispatch_twice_same_slot(&store, 0, &mut ports);
    assert_eq!(first, second);
    assert_eq!(first, ActionOutcome::Success);
    assert_eq!(ports.clipboard.clipboard_text, "hello");
}

#[test]
fn clipboard_failure_does_not_block_injection() {
    let store = scenario_store();
    let mut ports = PortPair::new(FakeClipboard::new(true), FakeInjector::new(false));
    let outcome = dispatch_contains_clipboard_failure(&store, 0, &mut ports);
    assert_eq!(
        outcome,
        ActionOutcome::Failure {
            clipboard: Some(ClipboardError { retries_exhausted: CLIPBOARD_RETRY_LIMIT }),
            injection: None,
        }
    );
    // the clipboard write was attempted but nothing was kept
    assert_eq!(ports.clipboard.attempts, vec![String::from("hello")]);
    assert!(ports.clipboard.accepted.is_empty());
    assert_eq!(ports.clipboard.clipboard_text, "");
    // the injection was still attempted and succeeded
    assert_eq!(ports.injector.accepted, vec![String::from("hello")]);
}

#[test]
fn injection_failure_is_reported() {
    let store = scenario_store();
    let mut ports = PortPair::new(FakeClipboard::new(false), FakeInjector::new(true));
    let outcome = dispatch(&store, 0, &mut ports);
    assert_eq!(
        outcome,
        ActionOutcome::Failure { clipboard: None, injection: Some(InjectionError::CallRejected) }
    );
    // the clipboard stage still completed
    assert_eq!(ports.clipboard.clipboard_text, "hello");
    assert!(ports.injector.accepted.is_empty());
    assert_eq!(ports.injector.attempts, vec![String::from("hello")]);
}

#[test]
fn both_stages_can_fail_in_one_outcome() {
    let store = scenario_store();
    let mut ports = PortPair::new(FakeClipboard::new(true), FakeInjector::new(true));
    let outcome = dispatch(&store, 0, &mut ports);
    assert_eq!(
        outcome,
        ActionOutcome::Failure {
            clipboard: Some(ClipboardError { retries_exhausted: CLIPBOARD_RETRY_LIMIT }),
            injection: Some(InjectionError::CallRejected),
        }
    );
}
