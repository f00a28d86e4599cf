//! The hotkey registry: an owned table of live global-hotkey registrations,
//! each a key combination bound to a store slot under a fresh registration
//! identifier. The OS-level claim on a combination happens outside the core;
//! its verdict is handed to `register` as a plain event, and the registry
//! keeps the bookkeeping exact: fresh distinct identifiers, no duplicate
//! combination, nothing registered once the registry is shut down.

use vstd::prelude::*;

use crate::config::CAPACITY;

verus! {

pub const MOD_ALT: u8 = 1;

pub const MOD_CONTROL: u8 = 2;

pub const MOD_SHIFT: u8 = 4;

/// One global key combination (a set of modifier bits and one key code)
/// bound to a store slot.
#[derive(Clone, Copy, Debug, PartialEq, Eq, Structural)]
pub struct HotkeyBinding {
    pub modifiers: u8,
    pub key_code: u16,
    pub slot_index: usize,
}

/// Two bindings ask for the same key combination, whatever their slots.
pub open spec fn same_combination(a: HotkeyBinding, b: HotkeyBinding) -> bool {
    a.modifiers == b.modifiers && a.key_code == b.key_code
}

/// Why a registration call failed. A failed registration is fatal to that one
/// binding only; the registry stays usable for the others.
#[derive(Clone, Copy, Debug, PartialEq, Eq, Structural)]
pub enum RegistrationError {
    /// The combination is already claimed by a live registration.
    AlreadyClaimed,
    /// The operating system refused the binding.
    OsRefused,
    /// The registry was used after shutdown.
    RegistryClosed,
}

/// The binding of the first table entry carrying `id`, if any.
pub open spec fn first_match(pairs: Seq<(u64, HotkeyBinding)>, id: u64) -> Option<HotkeyBinding>
    decreases pairs.len(),
{
    if pairs.len() == 0 {
        None
    } else if pairs[0].0 == id {
        Some(pairs[0].1)
    } else {
        first_match(pairs.subrange(1, pairs.len() as int), id)
    }
}

/// The table with every entry carrying `id` removed, order kept.
pub open spec fn without_id(pairs: Seq<(u64, HotkeyBinding)>, id: u64) -> Seq<(u64, HotkeyBinding)>
    decreases pairs.len(),
{
    if pairs.len() == 0 {
        pairs
    } else {
        let rest = without_id(pairs.drop_last(), id);
        if pairs.last().0 == id {
            rest
        } else {
            rest.push(pairs.last())
        }
    }
}

/// No two table entries carry the same registration identifier.
pub open spec fn distinct_ids(pairs: Seq<(u64, HotkeyBinding)>) -> bool {
    forall|i: int, j: int|
        0 <= i < j < pairs.len() ==> (#[trigger] pairs[i]).0 != (#[trigger] pairs[j]).0
}

/// Every entry of `without_id(pairs, id)` comes from `pairs` and does not
/// carry `id`.
pub proof fn lemma_without_id_elements(pairs: Seq<(u64, HotkeyBinding)>, id: u64)
    ensures
        forall|i: int|
            0 <= i < without_id(pairs, id).len() ==> (#[trigger] without_id(pairs, id)[i]).0 != id
                && exists|j: int| 0 <= j < pairs.len() && without_id(pairs, id)[i] == #[trigger] pairs[j],
    decreases pairs.len(),
{
    if pairs.len() > 0 {
        lemma_without_id_elements(pairs.drop_last(), id);
        let rest = without_id(pairs.drop_last(), id);
        let out = without_id(pairs, id);
        assert forall|i: int|
            0 <= i < out.len() implies (#[trigger] out[i]).0 != id
                && exists|j: int| 0 <= j < pairs.len() && out[i] == #[trigger] pairs[j] by {
            if i < rest.len() {
                assert(out[i] == rest[i]);
                let j = choose|j: int| 0 <= j < pairs.drop_last().len() && rest[i] == #[trigger] pairs.drop_last()[j];
                assert(out[i] == pairs[j]);
            } else {
                assert(out[i] == pairs.last());
                assert(out[i] == pairs[pairs.len() - 1]);
            }
        }
    }
}

/// Removing the entries of one identifier keeps the remaining identifiers
/// distinct.
pub proof fn lemma_without_id_distinct(pairs: Seq<(u64, HotkeyBinding)>, id: u64)
    requires
        distinct_ids(pairs),
    ensures
        distinct_ids(without_id(pairs, id)),
    decreases pairs.len(),
{
    if pairs.len() > 0 {
        let head = pairs.drop_last();
        assert(distinct_ids(head)) by {
            assert forall|i: int, j: int|
                0 <= i < j < head.len() implies (#[trigger] head[i]).0 != (#[trigger] head[j]).0 by {
                assert(head[i] == pairs[i]);
                assert(head[j] == pairs[j]);
            }
        }
        lemma_without_id_distinct(head, id);
        if pairs.last().0 != id {
            lemma_without_id_elements(head, id);
            let rest = without_id(head, id);
            let out = without_id(pairs, id);
            assert forall|i: int, j: int|
                0 <= i < j < out.len() implies (#[trigger] out[i]).0 != (#[trigger] out[j]).0 by {
                if j < rest.len() {
                    assert(out[i] == rest[i]);
                    assert(out[j] == rest[j]);
                } else {
                    assert(out[j] == pairs.last());
                    assert(out[i] == rest[i]);
                    let k = choose|k: int| 0 <= k < head.len() && rest[i] == #[trigger] head[k];
                    assert(head[k] == pairs[k]);
                    assert(pairs[k].0 != pairs[pairs.len() - 1].0);
                }
            }
        }
    }
}

/// Appending an entry under an identifier no existing entry carries makes
/// that identifier resolve to the appended binding.
pub proof fn lemma_first_match_push_fresh(
    pairs: Seq<(u64, HotkeyBinding)>,
    id: u64,
    binding: HotkeyBinding,
)
    requires
        forall|i: int| 0 <= i < pairs.len() ==> (#[trigger] pairs[i]).0 != id,
    ensures
        first_match(pairs.push((id, binding)), id) == Some(binding),
    decreases pairs.len(),
{
    let grown = pairs.push((id, binding));
    if pairs.len() == 0 {
        assert(grown[0] == (id, binding));
    } else {
        assert(grown[0] == pairs[0]);
        let tail = pairs.subrange(1, pairs.len() as int);
        lemma_first_match_push_fresh(tail, id, binding);
        assert(grown.subrange(1, grown.len() as int) =~= tail.push((id, binding)));
    }
}

/// A found first match is a table entry; a missing one means no entry
/// carries the identifier.
pub proof fn lemma_first_match_is_element(pairs: Seq<(u64, HotkeyBinding)>, id: u64)
    ensures
        match first_match(pairs, id) {
            Some(binding) => exists|i: int|
                0 <= i < pairs.len() && #[trigger] pairs[i] == (id, binding),
            None => forall|i: int| 0 <= i < pairs.len() ==> (#[trigger] pairs[i]).0 != id,
        },
    decreases pairs.len(),
{
    if pairs.len() > 0 && pairs[0].0 != id {
        let tail = pairs.subrange(1, pairs.len() as int);
        lemma_first_match_is_element(tail, id);
        match first_match(pairs, id) {
            Some(binding) => {
                let i = choose|i: int| 0 <= i < tail.len() && #[trigger] tail[i] == (id, binding);
                assert(pairs[i + 1] == (id, binding));
            },
            None => {
                assert forall|i: int| 0 <= i < pairs.len() implies (#[trigger] pairs[i]).0 != id by {
                    if i >= 1 {
                        assert(tail[i - 1] == pairs[i]);
                    }
                }
            },
        }
    }
}

/// Wraps global-hotkey registration: the owned table of live bindings, the
/// next fresh registration identifier, and the shutdown flag. After
/// `shutdown` every registration is released and every further call fails
/// with `RegistryClosed`.
pub struct HotkeyRegistry {
    bindings: Vec<(u64, HotkeyBinding)>,
    next_id: u64,
    closed: bool,
}

impl HotkeyRegistry {
    /// The live registrations, in registration order.
    pub closed spec fn table(self) -> Seq<(u64, HotkeyBinding)> {
        self.bindings@
    }

    pub closed spec fn is_shut_down(self) -> bool {
        self.closed
    }

    /// The identifier the next accepted registration will get.
    pub closed spec fn next_registration_id(self) -> u64 {
        self.next_id
    }

    pub open spec fn wf(self) -> bool {
        &&& forall|i: int|
            0 <= i < self.table().len() ==> (#[trigger] self.table()[i]).0
                < self.next_registration_id()
        &&& forall|i: int|
            0 <= i < self.table().len() ==> (#[trigger] self.table()[i]).1.slot_index < CAPACITY
        &&& distinct_ids(self.table())
    }

    /// The binding a live registration identifier maps to, if any.
    pub open spec fn lookup(self, registration_id: u64) -> Option<HotkeyBinding> {
        first_match(self.table(), registration_id)
    }

    /// Some live registration already claims this combination.
    pub open spec fn claims_combination(self, binding: HotkeyBinding) -> bool {
        exists|i: int|
            0 <= i < self.table().len() && same_combination(
                (#[trigger] self.table()[i]).1,
                binding,
            )
    }

    /// An open registry with no registrations.
    pub fn new() -> (registry: HotkeyRegistry)
        ensures
            registry.wf(),
            !registry.is_shut_down(),
            registry.table().len() == 0,
            registry.next_registration_id() == 0,
    {
        HotkeyRegistry { bindings: Vec::new(), next_id: 0, closed: false }
    }

    pub fn is_closed(&self) -> (closed_now: bool)
        ensures
            closed_now == self.is_shut_down(),
    {
        self.closed
    }

    /// Whether the supply of fresh registration identifiers is used up;
    /// callers check it before `register`.
    pub fn ids_exhausted(&self) -> (exhausted: bool)
        ensures
            exhausted == (self.next_registration_id() == u64::MAX),
    {
        self.next_id == u64::MAX
    }

    fn has_combination(&self, binding: &HotkeyBinding) -> (claimed: bool)
        ensures
            claimed == self.claims_combination(*binding),
    {
        let mut k: usize = 0;
        while k < self.bindings.len()
            invariant
                k <= self.table().len(),
                forall|j: int|
                    0 <= j < k as int ==> !same_combination((#[trigger] self.table()[j]).1, *binding),
            decreases self.table().len() - k as int,
        {
            let pair = self.bindings[k];
            if pair.1.modifiers == binding.modifiers && pair.1.key_code == binding.key_code {
                assert(same_combination(self.table()[k as int].1, *binding));
                return true;
            }
            k = k + 1;
            assert(self.table()[k - 1] == pair);
        }
        false
    }

    /// Records a registration. The call fails with `RegistryClosed` after
    /// shutdown, with `AlreadyClaimed` when a live registration holds the
    /// same combination, and with `OsRefused` when the operating system
    /// refused the binding (`os_accepted` carries its verdict); each failure
    /// leaves the registry unchanged. Otherwise the binding is appended
    /// under a fresh identifier, which is returned.
    pub fn register(&mut self, binding: HotkeyBinding, os_accepted: bool) -> (r: Result<
        u64,
        RegistrationError,
    >)
        requires
            old(self).wf(),
            binding.slot_index < CAPACITY,
            old(self).next_registration_id() < u64::MAX,
        ensures
            final(self).wf(),
            old(self).is_shut_down() ==> r == Err::<u64, RegistrationError>(
                RegistrationError::RegistryClosed,
            ) && *final(self) == *old(self),
            !old(self).is_shut_down() && old(self).claims_combination(binding) ==> r == Err::<
                u64,
                RegistrationError,
            >(RegistrationError::AlreadyClaimed) && *final(self) == *old(self),
            !old(self).is_shut_down() && !old(self).claims_combination(binding) && !os_accepted
                ==> r == Err::<u64, RegistrationError>(RegistrationError::OsRefused) && *final(self)
                == *old(self),
            !old(self).is_shut_down() && !old(self).claims_combination(binding) && os_accepted
                ==> ({
                &&& r == Ok::<u64, RegistrationError>(old(self).next_registration_id())
                &&& final(self).table() == old(self).table().push(
                    (old(self).next_registration_id(), binding),
                )
                &&& final(self).next_registration_id() == old(self).next_registration_id() + 1
                &&& !final(self).is_shut_down()
                &&& final(self).lookup(old(self).next_registration_id()) == Some(binding)
            }),
    {
        if self.closed {
            return Err(RegistrationError::RegistryClosed);
        }
        if self.has_combination(&binding) {
            return Err(RegistrationError::AlreadyClaimed);
        }
        if !os_accepted {
            return Err(RegistrationError::OsRefused);
        }
        let registration_id = self.next_id;
        self.bindings.push((registration_id, binding));
        self.next_id = self.next_id + 1;
        proof {
            let t0 = old(self).table();
            let t1 = self.table();
            assert forall|i: int|
                0 <= i < t1.len() implies (#[trigger] t1[i]).0 < self.next_registration_id() && (
            t1[i]).1.slot_index < CAPACITY by {
                if i < t0.len() {
                    assert(t1[i] == t0[i]);
                }
            }
            assert forall|i: int, j: int|
                0 <= i < j < t1.len() implies (#[trigger] t1[i]).0 != (#[trigger] t1[j]).0 by {
                if j < t0.len() {
                    assert(t1[i] == t0[i]);
                    assert(t1[j] == t0[j]);
                } else {
                    assert(t1[i] == t0[i]);
                    assert(t1[j].0 == old(self).next_registration_id());
                }
            }
            lemma_first_match_push_fresh(t0, registration_id, binding);
        }
        Ok(registration_id)
    }

    /// Releases every registration carrying this identifier; the rest of the
    /// table keeps its order. After shutdown the call fails with
    /// `RegistryClosed` and changes nothing.
    pub fn unregister(&mut self, registration_id: u64) -> (r: Result<(), RegistrationError>)
        requires
            old(self).wf(),
        ensures
            final(self).wf(),
            old(self).is_shut_down() ==> r == Err::<(), RegistrationError>(
                RegistrationError::RegistryClosed,
            ) && *final(self) == *old(self),
            !old(self).is_shut_down() ==> ({
                &&& r == Ok::<(), RegistrationError>(())
                &&& final(self).table() == without_id(old(self).table(), registration_id)
                &&& final(self).lookup(registration_id) is None
                &&& final(self).next_registration_id() == old(self).next_registration_id()
                &&& !final(self).is_shut_down()
            }),
    {
        if self.closed {
            return Err(RegistrationError::RegistryClosed);
        }
        let mut kept: Vec<(u64, HotkeyBinding)> = Vec::new();
        let mut k: usize = 0;
        while k < self.bindings.len()
            invariant
                *self == *old(self),
                k <= self.bindings@.len(),
                kept@ == without_id(self.bindings@.subrange(0, k as int), registration_id),
            decreases self.bindings@.len() - k as int,
        {
            let pair = self.bindings[k];
            let ghost prefix = self.bindings@.subrange(0, k as int);
            if pair.0 != registration_id {
                kept.push(pair);
            }
            k = k + 1;
            proof {
                let prefix1 = self.bindings@.subrange(0, k as int);
                assert(prefix1.drop_last() =~= prefix);
                assert(prefix1.last() == pair);
            }
        }
        proof {
            assert(self.bindings@.subrange(0, self.bindings@.len() as int) =~= self.bindings@);
        }
        self.bindings = kept;
        proof {
            let t0 = old(self).table();
            let t1 = self.table();
            lemma_without_id_elements(t0, registration_id);
            lemma_without_id_distinct(t0, registration_id);
            assert forall|i: int|
                0 <= i < t1.len() implies (#[trigger] t1[i]).0 < self.next_registration_id() && (
            t1[i]).1.slot_index < CAPACITY by {
                let j = choose|j: int| 0 <= j < t0.len() && t1[i] == #[trigger] t0[j];
                assert(t0[j].0 < old(self).next_registration_id());
            }
            lemma_first_match_is_element(t1, registration_id);
            match first_match(t1, registration_id) {
                Some(found) => {
                    let i = choose|i: int| 0 <= i < t1.len() && #[trigger] t1[i] == (
                    registration_id,
                    found,
                    );
                    assert(t1[i].0 != registration_id);
                    assert(false);
                },
                None => {},
            }
        }
        Ok(())
    }

    /// Releases every registration and closes the registry for good.
    pub fn shutdown(&mut self)
        ensures
            final(self).wf(),
            final(self).is_shut_down(),
            final(self).table().len() == 0,
    {
        self.bindings = Vec::new();
        self.closed = true;
    }

    /// The binding a fired registration identifier maps to, if any.
    pub fn find_binding(&self, registration_id: u64) -> (found: Option<HotkeyBinding>)
        ensures
            found == self.lookup(registration_id),
    {
        proof {
            assert(self.bindings@.subrange(0, self.bindings@.len() as int) =~= self.bindings@);
        }
        let mut k: usize = 0;
        while k < self.bindings.len()
            invariant
                k <= self.bindings@.len(),
                first_match(self.bindings@, registration_id) == first_match(
                    self.bindings@.subrange(k as int, self.bindings@.len() as int),
                    registration_id,
                ),
            decreases self.bindings@.len() - k as int,
        {
            let pair = self.bindings[k];
            if pair.0 == registration_id {
                proof {
                    let tail = self.bindings@.subrange(k as int, self.bindings@.len() as int);
                    assert(tail[0] == pair);
                }
                return Some(pair.1);
            }
            k = k + 1;
            proof {
                let len = self.bindings@.len() as int;
                let tail0 = self.bindings@.subrange(k as int - 1, len);
                let tail1 = self.bindings@.subrange(k as int, len);
                assert(tail0[0] == pair);
                assert(tail0.subrange(1, tail0.len() as int) =~= tail1);
            }
        }
        proof {
            assert(self.bindings@.subrange(
                self.bindings@.len() as int,
                self.bindings@.len() as int,
            ).len() == 0);
        }
        None
    }

    /// A looked-up binding always points at a valid store slot.
    pub proof fn lemma_lookup_slot_bound(&self, registration_id: u64)
        requires
            self.wf(),
        ensures
            match self.lookup(registration_id) {
                Some(binding) => binding.slot_index < CAPACITY,
                None => true,
            },
    {
        lemma_first_match_is_element(self.table(), registration_id);
        match self.lookup(registration_id) {
            Some(binding) => {
                let i = choose|i: int|
                    0 <= i < self.table().len() && #[trigger] self.table()[i] == (
                    registration_id,
                    binding,
                );
                assert(self.table()[i].1.slot_index < CAPACITY);
            },
            None => {},
        }
    }
}

} // verus!
