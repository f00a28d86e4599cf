//! Clip entries and the resolved configuration the core consumes.

use vstd::prelude::*;

verus! {

/// Number of action slots the store always holds. Empty slots carry a default
/// entry rather than being absent, so a lookup never has a missing case.
pub const CAPACITY: usize = 3;

/// One reusable snippet: the text to emit when its hotkey fires, and whether
/// the text should also be pushed to the system clipboard.
#[derive(Debug, PartialEq, Eq)]
pub struct ClipEntry {
    pub text: String,
    pub push_to_clipboard: bool,
}

/// The entry an empty slot holds: empty text, clipboard disabled.
pub open spec fn is_default_entry(e: ClipEntry) -> bool {
    e.text@.len() == 0 && !e.push_to_clipboard
}

impl ClipEntry {
    pub fn new(text: String, push_to_clipboard: bool) -> (e: ClipEntry)
        ensures
            e.text == text,
            e.push_to_clipboard == push_to_clipboard,
    {
        ClipEntry { text, push_to_clipboard }
    }
}

impl Default for ClipEntry {
    fn default() -> (e: ClipEntry)
        ensures
            is_default_entry(e),
    {
        ClipEntry { text: String::new(), push_to_clipboard: false }
    }
}

/// The resolved in-memory configuration: an ordered list of clip entries.
/// The store normalizes it to exactly `CAPACITY` entries on `replace_all`,
/// so a shorter or longer list here is not an error.
#[derive(Debug, PartialEq, Eq)]
pub struct Config {
    pub entries: Vec<ClipEntry>,
}

impl Config {
    pub fn new(entries: Vec<ClipEntry>) -> (c: Config)
        ensures
            c.entries@ == entries@,
    {
        Config { entries }
    }
}

impl Default for Config {
    /// A configuration of `CAPACITY` default entries.
    fn default() -> (c: Config)
        ensures
            c.entries@.len() == CAPACITY as int,
            forall|i: int| 0 <= i < c.entries@.len() ==> is_default_entry(#[trigger] c.entries@[i]),
    {
        let mut entries: Vec<ClipEntry> = Vec::new();
        while entries.len() < CAPACITY
            invariant
                entries@.len() <= CAPACITY as int,
                forall|i: int| 0 <= i < entries@.len() ==> is_default_entry(#[trigger] entries@[i]),
            decreases CAPACITY as int - entries@.len(),
        {
            entries.push(ClipEntry::default());
        }
        Config { entries }
    }
}

} // verus!
