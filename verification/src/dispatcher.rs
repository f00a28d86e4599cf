//! The dispatcher: turns one hotkey notification into one action execution
//! against the two ports, in the specified order (clipboard first, then
//! injection), containing each stage's failure so the other stage still runs,
//! and reporting exactly one outcome per notification.

use vstd::prelude::*;

use crate::config::CAPACITY;
use crate::ports::{ClipboardError, ClipboardPort, InjectionError, InputInjectionPort, PortPair};
use crate::registry::HotkeyRegistry;
use crate::store::ActionStore;

verus! {

/// Result of one dispatch: success, or the failed stages with their causes.
/// A failure in one stage never aborts the other; both causes can be present.
#[derive(Clone, Copy, Debug, PartialEq, Eq)]
pub enum ActionOutcome {
    Success,
    Failure { clipboard: Option<ClipboardError>, injection: Option<InjectionError> },
}

/// The clipboard-stage cause an outcome carries, if any.
pub open spec fn clipboard_failure_of(outcome: ActionOutcome) -> Option<ClipboardError> {
    match outcome {
        ActionOutcome::Success => None,
        ActionOutcome::Failure { clipboard, .. } => clipboard,
    }
}

/// The injection-stage cause an outcome carries, if any.
pub open spec fn injection_failure_of(outcome: ActionOutcome) -> Option<InjectionError> {
    match outcome {
        ActionOutcome::Success => None,
        ActionOutcome::Failure { injection, .. } => injection,
    }
}

/// The port events one dispatch of an entry appends to the shared trace: the
/// clipboard write first when the entry asks for it, then exactly one
/// injection of the same text.
pub open spec fn dispatch_events(entry_text: Seq<char>, push_to_clipboard: bool) -> Seq<
    (bool, Seq<char>),
> {
    if push_to_clipboard {
        seq![(true, entry_text), (false, entry_text)]
    } else {
        seq![(false, entry_text)]
    }
}

/// Everything one dispatch of an entry guarantees about the two ports (their
/// values before, `c0`/`i0`, and after, `c1`/`i1`) and the reported outcome:
///
/// - the clipboard is written exactly once when `push_to_clipboard` is set
///   and never otherwise;
/// - injection is attempted exactly once regardless of the clipboard stage;
/// - a reported clipboard failure means the clipboard kept its prior
///   contents, and a reported injection failure means nothing was injected;
/// - with no reported failure the side effect happened;
/// - a port that always succeeds yields no failure, one that always fails
///   yields one, and the outcome is `Success` exactly when no stage failed.
///
/// The order of the two calls is not visible in the two ports' separate
/// histories; `dispatch` states it over the pair's shared `events()` trace.
pub open spec fn dispatch_post<C: ClipboardPort, I: InputInjectionPort>(
    entry_text: Seq<char>,
    push_to_clipboard: bool,
    c0: C,
    c1: C,
    i0: I,
    i1: I,
    outcome: ActionOutcome,
) -> bool {
    &&& (push_to_clipboard ==> c1.attempted() == c0.attempted().push(entry_text))
    &&& (!push_to_clipboard ==> c1.attempted() == c0.attempted()
        && c1.completed() == c0.completed()
        && c1.contents() == c0.contents()
        && clipboard_failure_of(outcome) is None)
    &&& (match clipboard_failure_of(outcome) {
        Some(_) => push_to_clipboard
            && c1.completed() == c0.completed()
            && c1.contents() == c0.contents(),
        None => push_to_clipboard ==> c1.completed() == c0.completed().push(entry_text)
            && c1.contents() == entry_text,
    })
    &&& c1.always_ok() == c0.always_ok()
    &&& c1.always_fails() == c0.always_fails()
    &&& (c0.always_ok() ==> clipboard_failure_of(outcome) is None)
    &&& (c0.always_fails() && push_to_clipboard ==> clipboard_failure_of(outcome) is Some)
    &&& i1.attempted() == i0.attempted().push(entry_text)
    &&& (match injection_failure_of(outcome) {
        Some(_) => i1.completed() == i0.completed(),
        None => i1.completed() == i0.completed().push(entry_text),
    })
    &&& i1.always_ok() == i0.always_ok()
    &&& i1.always_fails() == i0.always_fails()
    &&& (i0.always_ok() ==> injection_failure_of(outcome) is None)
    &&& (i0.always_fails() ==> injection_failure_of(outcome) is Some)
    &&& ((clipboard_failure_of(outcome) is None && injection_failure_of(outcome) is None)
        <==> outcome == ActionOutcome::Success)
}

/// Executes the entry in `slot_index`: writes the clipboard when the entry
/// asks for it, then injects the text, letting a clipboard failure fall
/// through to the injection stage rather than aborting, and reports the
/// combined outcome. The shared trace pins the order: the clipboard write,
/// where owed, precedes the injection. Never panics and never loses a
/// stage's cause.
pub fn dispatch<C: ClipboardPort, I: InputInjectionPort>(
    store: &ActionStore,
    slot_index: usize,
    ports: &mut PortPair<C, I>,
) -> (outcome: ActionOutcome)
    requires
        store.wf(),
        slot_index < CAPACITY,
    ensures
        dispatch_post(
            store@[slot_index as int].text@,
            store@[slot_index as int].push_to_clipboard,
            old(ports).clipboard,
            final(ports).clipboard,
            old(ports).injector,
            final(ports).injector,
            outcome,
        ),
        final(ports).events() == old(ports).events() + dispatch_events(
            store@[slot_index as int].text@,
            store@[slot_index as int].push_to_clipboard,
        ),
{
    let entry = store.get(slot_index);
    let clipboard_failure: Option<ClipboardError> = if entry.push_to_clipboard {
        match ports.write(entry.text.as_str()) {
            Ok(()) => None,
            Err(cause) => Some(cause),
        }
    } else {
        None
    };
    let injection_failure: Option<InjectionError> = match ports.type_text(entry.text.as_str()) {
        Ok(()) => None,
        Err(cause) => Some(cause),
    };
    proof {
        assert(ports.events() =~= old(ports).events() + dispatch_events(
            store@[slot_index as int].text@,
            store@[slot_index as int].push_to_clipboard,
        ));
    }
    if clipboard_failure.is_none() && injection_failure.is_none() {
        ActionOutcome::Success
    } else {
        ActionOutcome::Failure { clipboard: clipboard_failure, injection: injection_failure }
    }
}

/// Maps one key-down notification to its action and executes it: after
/// shutdown, or for an identifier no live registration carries, nothing is
/// dispatched, the ports are untouched and no outcome is emitted; for a live
/// registration exactly one outcome is emitted, and the dispatch behaves as
/// `dispatch_post` and the event-trace clause of `dispatch` say for the
/// bound slot.
pub fn handle_fire<C: ClipboardPort, I: InputInjectionPort>(
    registry: &HotkeyRegistry,
    store: &ActionStore,
    registration_id: u64,
    ports: &mut PortPair<C, I>,
) -> (emitted: Option<ActionOutcome>)
    requires
        registry.wf(),
        store.wf(),
    ensures
        registry.is_shut_down() || registry.lookup(registration_id) is None ==> emitted is None
            && *final(ports) == *old(ports),
        !registry.is_shut_down() ==> (match registry.lookup(registration_id) {
            Some(binding) => emitted matches Some(outcome) && dispatch_post(
                store@[binding.slot_index as int].text@,
                store@[binding.slot_index as int].push_to_clipboard,
                old(ports).clipboard,
                final(ports).clipboard,
                old(ports).injector,
                final(ports).injector,
                outcome,
            ) && final(ports).events() == old(ports).events() + dispatch_events(
                store@[binding.slot_index as int].text@,
                store@[binding.slot_index as int].push_to_clipboard,
            ),
            None => emitted is None,
        }),
{
    if registry.is_closed() {
        return None;
    }
    match registry.find_binding(registration_id) {
        Some(binding) => {
            proof {
                registry.lemma_lookup_slot_bound(registration_id);
            }
            Some(dispatch(store, binding.slot_index, ports))
        },
        None => None,
    }
}

/// Law: dispatching the same slot twice in a row, with the store unchanged in
/// between and deterministic ports that always succeed, produces two
/// structurally identical successful outcomes, and performs the slot's side
/// effects twice over: two ordered rounds in the trace, the text injected
/// twice, and the clipboard written twice (ending with the text) when the
/// entry asks for it and left untouched otherwise.
pub fn dispatch_twice_same_slot<C: ClipboardPort, I: InputInjectionPort>(
    store: &ActionStore,
    slot_index: usize,
    ports: &mut PortPair<C, I>,
) -> (outcomes: (ActionOutcome, ActionOutcome))
    requires
        store.wf(),
        slot_index < CAPACITY,
        old(ports).clipboard.always_ok(),
        old(ports).injector.always_ok(),
    ensures
        outcomes.0 == outcomes.1,
        outcomes.0 == ActionOutcome::Success,
        ({
            let entry_text = store@[slot_index as int].text@;
            let round = dispatch_events(entry_text, store@[slot_index as int].push_to_clipboard);
            &&& final(ports).events() == old(ports).events() + round + round
            &&& final(ports).injector.attempted() == old(ports).injector.attempted().push(
                entry_text,
            ).push(entry_text)
            &&& final(ports).injector.completed() == old(ports).injector.completed().push(
                entry_text,
            ).push(entry_text)
            &&& (store@[slot_index as int].push_to_clipboard
                ==> final(ports).clipboard.attempted()
                    == old(ports).clipboard.attempted().push(entry_text).push(entry_text)
                && final(ports).clipboard.completed()
                    == old(ports).clipboard.completed().push(entry_text).push(entry_text)
                && final(ports).clipboard.contents() == entry_text)
            &&& (!store@[slot_index as int].push_to_clipboard
                ==> final(ports).clipboard.attempted() == old(ports).clipboard.attempted()
                && final(ports).clipboard.completed() == old(ports).clipboard.completed()
                && final(ports).clipboard.contents() == old(ports).clipboard.contents())
        }),
{
    let first = dispatch(store, slot_index, ports);
    let second = dispatch(store, slot_index, ports);
    (first, second)
}

/// Law: with a clipboard port that always fails and an injection port that
/// always succeeds, dispatching a slot that asks for the clipboard yields a
/// clipboard-stage failure paired with the injection having been attempted
/// and succeeded; the action is never fully aborted, and the clipboard keeps
/// its prior contents.
pub fn dispatch_contains_clipboard_failure<C: ClipboardPort, I: InputInjectionPort>(
    store: &ActionStore,
    slot_index: usize,
    ports: &mut PortPair<C, I>,
) -> (outcome: ActionOutcome)
    requires
        store.wf(),
        slot_index < CAPACITY,
        store@[slot_index as int].push_to_clipboard,
        old(ports).clipboard.always_fails(),
        old(ports).injector.always_ok(),
    ensures
        outcome matches ActionOutcome::Failure { clipboard: Some(_), injection: None },
        final(ports).clipboard.attempted() == old(ports).clipboard.attempted().push(
            store@[slot_index as int].text@,
        ),
        final(ports).clipboard.completed() == old(ports).clipboard.completed(),
        final(ports).clipboard.contents() == old(ports).clipboard.contents(),
        final(ports).injector.completed() == old(ports).injector.completed().push(
            store@[slot_index as int].text@,
        ),
        final(ports).events() == old(ports).events() + dispatch_events(
            store@[slot_index as int].text@,
            true,
        ),
{
    dispatch(store, slot_index, ports)
}

} // verus!
