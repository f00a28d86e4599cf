//! Capability interfaces over the two OS side-effect targets: the system
//! clipboard and the synthetic-input stream. The dispatcher is verified
//! against these contracts alone, so the guarantees about ordering and
//! failure containment hold for any implementation that meets them, whether
//! a recording double here or an OS-backed port outside the verified core.

use vstd::prelude::*;

verus! {

/// Attempts a clipboard port makes before giving up on a busy clipboard.
pub const CLIPBOARD_RETRY_LIMIT: u32 = 10;

/// The system clipboard could not be acquired after a bounded number of
/// attempts; `retries_exhausted` says how many were made.
#[derive(Clone, Copy, Debug, PartialEq, Eq, Structural)]
pub struct ClipboardError {
    pub retries_exhausted: u32,
}

/// The OS input-simulation subsystem could not be initialized, or rejected
/// the injection call.
#[derive(Clone, Copy, Debug, PartialEq, Eq, Structural)]
pub enum InjectionError {
    InitFailed,
    CallRejected,
}

/// The views of a list of owned texts, in order.
pub open spec fn texts_of(texts: Seq<String>) -> Seq<Seq<char>> {
    texts.map_values(|s: String| s@)
}

pub proof fn lemma_texts_of_push(texts: Seq<String>, s: String)
    ensures
        texts_of(texts.push(s)) == texts_of(texts).push(s@),
{
    assert(texts_of(texts.push(s)) =~= texts_of(texts).push(s@));
}

/// Writes text to the system clipboard. A port keeps three histories in its
/// model: every text handed to it, every text whose write completed, and the
/// text the clipboard currently holds. A failed write leaves the prior
/// clipboard contents in place; whether a write succeeds is the port's own
/// affair (the OS clipboard is a shared resource), except that a port claiming
/// `always_ok` must accept every write.
pub trait ClipboardPort {
    /// Texts handed to `write`, in order, whether or not the write succeeded.
    /// The default model is the empty history; a port inside the verified
    /// core overrides it with its real one.
    open spec fn attempted(&self) -> Seq<Seq<char>> {
        Seq::empty()
    }

    /// Texts whose write completed, in order.
    open spec fn completed(&self) -> Seq<Seq<char>> {
        Seq::empty()
    }

    /// The text the clipboard holds now.
    open spec fn contents(&self) -> Seq<char> {
        Seq::empty()
    }

    /// Whether every write on this port succeeds (a deterministic port).
    open spec fn always_ok(&self) -> bool {
        false
    }

    /// Whether every write on this port fails (a deterministic failing port,
    /// such as a test double built to be refused).
    open spec fn always_fails(&self) -> bool {
        false
    }

    fn write(&mut self, text: &str) -> (r: Result<(), ClipboardError>)
        ensures
            final(self).attempted() == old(self).attempted().push(text@),
            r is Ok ==> final(self).completed() == old(self).completed().push(text@)
                && final(self).contents() == text@,
            r is Err ==> final(self).completed() == old(self).completed()
                && final(self).contents() == old(self).contents(),
            old(self).always_ok() ==> r is Ok,
            old(self).always_fails() ==> r is Err,
            final(self).always_ok() == old(self).always_ok(),
            final(self).always_fails() == old(self).always_fails(),
    ;
}

/// Synthesizes keystrokes that type a text into whatever holds input focus.
/// The model mirrors the clipboard port's: attempted and completed histories,
/// and an `always_ok` claim for deterministic ports. Where focus actually is
/// lies outside the model: the injected characters land wherever the OS says.
pub trait InputInjectionPort {
    /// Texts handed to `type_text`, in order, whether or not injection
    /// succeeded. The default model is the empty history; a port inside the
    /// verified core overrides it with its real one.
    open spec fn attempted(&self) -> Seq<Seq<char>> {
        Seq::empty()
    }

    /// Texts whose injection completed, in order.
    open spec fn completed(&self) -> Seq<Seq<char>> {
        Seq::empty()
    }

    /// Whether every injection on this port succeeds (a deterministic port).
    open spec fn always_ok(&self) -> bool {
        false
    }

    /// Whether every injection on this port fails (a deterministic failing
    /// port, such as a test double built to be refused).
    open spec fn always_fails(&self) -> bool {
        false
    }

    fn type_text(&mut self, text: &str) -> (r: Result<(), InjectionError>)
        ensures
            final(self).attempted() == old(self).attempted().push(text@),
            r is Ok ==> final(self).completed() == old(self).completed().push(text@),
            r is Err ==> final(self).completed() == old(self).completed(),
            old(self).always_ok() ==> r is Ok,
            old(self).always_fails() ==> r is Err,
            final(self).always_ok() == old(self).always_ok(),
            final(self).always_fails() == old(self).always_fails(),
    ;
}

/// The two ports of one dispatcher, held together so that the order of their
/// side effects can be stated. Each port keeps its own history, but those
/// histories cannot order one port's call against the other's; `events()` is
/// the shared trace that can. Every `write` appends `(true, text)` and every
/// `type_text` appends `(false, text)`, and each trace entry is tied by the
/// contract to the matching growth of the inner port's own attempted history,
/// so no call can be traced without happening nor happen without being traced.
pub struct PortPair<C: ClipboardPort, I: InputInjectionPort> {
    pub clipboard: C,
    pub injector: I,
    /// The shared side-effect trace behind `events()`.
    pub recorded: Ghost<Seq<(bool, Seq<char>)>>,
}

impl<C: ClipboardPort, I: InputInjectionPort> PortPair<C, I> {
    /// The shared side-effect trace: one entry per port call, in call order;
    /// `true` marks a clipboard write, `false` an injection.
    pub open spec fn events(self) -> Seq<(bool, Seq<char>)> {
        self.recorded@
    }

    pub fn new(clipboard: C, injector: I) -> (ports: PortPair<C, I>)
        ensures
            ports.clipboard == clipboard,
            ports.injector == injector,
            ports.events() == Seq::<(bool, Seq<char>)>::empty(),
    {
        PortPair { clipboard, injector, recorded: Ghost(Seq::empty()) }
    }

    /// Writes through the clipboard port and traces the call.
    pub fn write(&mut self, text: &str) -> (r: Result<(), ClipboardError>)
        ensures
            final(self).events() == old(self).events().push((true, text@)),
            final(self).injector == old(self).injector,
            final(self).clipboard.attempted() == old(self).clipboard.attempted().push(text@),
            r is Ok ==> final(self).clipboard.completed() == old(self).clipboard.completed().push(
                text@,
            ) && final(self).clipboard.contents() == text@,
            r is Err ==> final(self).clipboard.completed() == old(self).clipboard.completed()
                && final(self).clipboard.contents() == old(self).clipboard.contents(),
            old(self).clipboard.always_ok() ==> r is Ok,
            old(self).clipboard.always_fails() ==> r is Err,
            final(self).clipboard.always_ok() == old(self).clipboard.always_ok(),
            final(self).clipboard.always_fails() == old(self).clipboard.always_fails(),
    {
        let r = self.clipboard.write(text);
        self.recorded = Ghost(self.recorded@.push((true, text@)));
        r
    }

    /// Injects through the input port and traces the call.
    pub fn type_text(&mut self, text: &str) -> (r: Result<(), InjectionError>)
        ensures
            final(self).events() == old(self).events().push((false, text@)),
            final(self).clipboard == old(self).clipboard,
            final(self).injector.attempted() == old(self).injector.attempted().push(text@),
            r is Ok ==> final(self).injector.completed() == old(self).injector.completed().push(
                text@,
            ),
            r is Err ==> final(self).injector.completed() == old(self).injector.completed(),
            old(self).injector.always_ok() ==> r is Ok,
            old(self).injector.always_fails() ==> r is Err,
            final(self).injector.always_ok() == old(self).injector.always_ok(),
            final(self).injector.always_fails() == old(self).injector.always_fails(),
    {
        let r = self.injector.type_text(text);
        self.recorded = Ghost(self.recorded@.push((false, text@)));
        r
    }
}

} // verus!
