//! Recording in-memory implementations of the two ports. They exist so the
//! dispatcher's ordering and failure-containment guarantees can be exercised
//! without touching real OS state: each records every call, and each can be
//! built to fail every call.

use vstd::prelude::*;

use crate::ports::{
    lemma_texts_of_push, texts_of, ClipboardError, ClipboardPort, InjectionError,
    InputInjectionPort, CLIPBOARD_RETRY_LIMIT,
};

verus! {

/// An in-memory clipboard that records every write. When `fail_always` is
/// set it refuses every write, reporting the retry budget as exhausted.
pub struct FakeClipboard {
    /// The text the fake clipboard currently holds.
    pub clipboard_text: String,
    /// Every text handed to `write`, in order.
    pub attempts: Vec<String>,
    /// Every text whose write was accepted, in order.
    pub accepted: Vec<String>,
    /// Refuse every write when set.
    pub fail_always: bool,
}

impl FakeClipboard {
    pub fn new(fail_always: bool) -> (c: FakeClipboard)
        ensures
            c.attempted() == Seq::<Seq<char>>::empty(),
            c.completed() == Seq::<Seq<char>>::empty(),
            c.contents() == Seq::<char>::empty(),
            c.always_ok() == !fail_always,
            c.always_fails() == fail_always,
    {
        let c = FakeClipboard {
            clipboard_text: String::new(),
            attempts: Vec::new(),
            accepted: Vec::new(),
            fail_always,
        };
        proof {
            assert(c.attempted() =~= Seq::<Seq<char>>::empty());
            assert(c.completed() =~= Seq::<Seq<char>>::empty());
        }
        c
    }
}

impl ClipboardPort for FakeClipboard {
    open spec fn attempted(&self) -> Seq<Seq<char>> {
        texts_of(self.attempts@)
    }

    open spec fn completed(&self) -> Seq<Seq<char>> {
        texts_of(self.accepted@)
    }

    open spec fn contents(&self) -> Seq<char> {
        self.clipboard_text@
    }

    open spec fn always_ok(&self) -> bool {
        !self.fail_always
    }

    open spec fn always_fails(&self) -> bool {
        self.fail_always
    }

    fn write(&mut self, text: &str) -> (r: Result<(), ClipboardError>) {
        let ghost attempts0 = self.attempts@;
        let owned = String::from_str(text);
        let ghost pushed = owned;
        self.attempts.push(owned);
        proof {
            lemma_texts_of_push(attempts0, pushed);
        }
        if self.fail_always {
            Err(ClipboardError { retries_exhausted: CLIPBOARD_RETRY_LIMIT })
        } else {
            let ghost accepted0 = self.accepted@;
            let kept = String::from_str(text);
            let ghost kept_value = kept;
            self.accepted.push(kept);
            proof {
                lemma_texts_of_push(accepted0, kept_value);
            }
            self.clipboard_text = String::from_str(text);
            Ok(())
        }
    }
}

/// An in-memory input-injection port that records every requested text. When
/// `fail_always` is set it rejects every call.
pub struct FakeInjector {
    /// Every text handed to `type_text`, in order.
    pub attempts: Vec<String>,
    /// Every text whose injection was accepted, in order.
    pub accepted: Vec<String>,
    /// Reject every injection when set.
    pub fail_always: bool,
}

impl FakeInjector {
    pub fn new(fail_always: bool) -> (inj: FakeInjector)
        ensures
            inj.attempted() == Seq::<Seq<char>>::empty(),
            inj.completed() == Seq::<Seq<char>>::empty(),
            inj.always_ok() == !fail_always,
            inj.always_fails() == fail_always,
    {
        let inj = FakeInjector { attempts: Vec::new(), accepted: Vec::new(), fail_always };
        proof {
            assert(inj.attempted() =~= Seq::<Seq<char>>::empty());
            assert(inj.completed() =~= Seq::<Seq<char>>::empty());
        }
        inj
    }
}

impl InputInjectionPort for FakeInjector {
    open spec fn attempted(&self) -> Seq<Seq<char>> {
        texts_of(self.attempts@)
    }

    open spec fn completed(&self) -> Seq<Seq<char>> {
        texts_of(self.accepted@)
    }

    open spec fn always_ok(&self) -> bool {
        !self.fail_always
    }

    open spec fn always_fails(&self) -> bool {
        self.fail_always
    }

    fn type_text(&mut self, text: &str) -> (r: Result<(), InjectionError>) {
        let ghost attempts0 = self.attempts@;
        let owned = String::from_str(text);
        let ghost pushed = owned;
        self.attempts.push(owned);
        proof {
            lemma_texts_of_push(attempts0, pushed);
        }
        if self.fail_always {
            Err(InjectionError::CallRejected)
        } else {
            let ghost accepted0 = self.accepted@;
            let kept = String::from_str(text);
            let ghost kept_value = kept;
            self.accepted.push(kept);
            proof {
                lemma_texts_of_push(accepted0, kept_value);
            }
            Ok(())
        }
    }
}

} // verus!
