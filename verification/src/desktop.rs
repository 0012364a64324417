//! KDE/Wayland text insertion through the clipboard and an authorized paste chord.

use crate::text::{owned, texts};
use vstd::prelude::*;
use vstd::string::*;

verus! {

#[derive(Clone, Copy, Debug, Eq, PartialEq)]
pub struct InsertionResult {
    pub clipboard_restored: bool,
    pub backend: &'static str,
}

#[derive(Clone, Copy, Debug, Eq, PartialEq, Structural)]
pub struct ClipboardInserter {
    restore_delay_millis: u64,
    restore_clipboard: bool,
}

impl Default for ClipboardInserter {
    fn default() -> (inserter: Self)
        ensures
            inserter.delay() == 250,
            inserter.restores(),
    {
        ClipboardInserter { restore_delay_millis: 250, restore_clipboard: true }
    }
}

/// What becomes of the clipboard after the text was pasted.
#[derive(Debug, Eq, PartialEq)]
pub enum RestoreStep {
    /// It is left as it is.
    Leave,
    /// It gets its former contents back.
    Write(Vec<u8>),
    /// It had none that could be read, and is cleared.
    Clear,
}

impl ClipboardInserter {
    /// The milliseconds that the paste has before the clipboard changes again.
    pub closed spec fn delay(self) -> u64 {
        self.restore_delay_millis
    }

    /// The clipboard gets its former contents back.
    pub closed spec fn restores(self) -> bool {
        self.restore_clipboard
    }

    pub fn with_restore(self, restore_clipboard: bool) -> (inserter: Self)
        ensures
            inserter.delay() == self.delay(),
            inserter.restores() == restore_clipboard,
    {
        ClipboardInserter { restore_delay_millis: self.restore_delay_millis, restore_clipboard }
    }

    pub fn restore_delay_millis(&self) -> (r: u64)
        ensures
            r == self.delay(),
    {
        self.restore_delay_millis
    }

    /// Whether a text may be inserted, or why not.
    pub fn insert(&self, text: &str) -> (r: Result<(), &'static str>)
        ensures
            match r {
                Ok(_) => text@.len() > 0,
                Err(reason) => text@.len() == 0 && reason@ == "refusing to insert empty text"@,
            },
    {
        if text.unicode_len() == 0 {
            Err("refusing to insert empty text")
        } else {
            Ok(())
        }
    }

    /// What becomes of the clipboard, which held `previous` before, or nothing that could be read.
    pub fn restore_step(&self, previous: Option<Vec<u8>>) -> (step: RestoreStep)
        ensures
            if !self.restores() {
                step is Leave
            } else {
                match previous {
                    Some(contents) => step matches RestoreStep::Write(bytes) && bytes@
                        == contents@,
                    None => step is Clear,
                }
            },
    {
        if !self.restore_clipboard {
            return RestoreStep::Leave;
        }
        match previous {
            Some(contents) => RestoreStep::Write(contents),
            None => RestoreStep::Clear,
        }
    }

    /// The result of an insertion; `restored` says whether the step that was asked for succeeded.
    pub fn inserted(&self, restored: bool) -> (result: InsertionResult)
        ensures
            result.clipboard_restored == (self.restores() && restored),
            result.backend@ == "wl-copy+ydotool"@,
    {
        InsertionResult {
            clipboard_restored: self.restore_clipboard && restored,
            backend: "wl-copy+ydotool",
        }
    }

    /// The result of copying a text without synthesizing keyboard input, or why it is refused.
    pub fn copy(&self, text: &str) -> (r: Result<InsertionResult, &'static str>)
        ensures
            match r {
                Ok(result) => {
                    &&& text@.len() > 0
                    &&& !result.clipboard_restored
                    &&& result.backend@ == "copy-only"@
                },
                Err(reason) => text@.len() == 0 && reason@ == "refusing to copy empty text"@,
            },
    {
        if text.unicode_len() == 0 {
            Err("refusing to copy empty text")
        } else {
            Ok(InsertionResult { clipboard_restored: false, backend: "copy-only" })
        }
    }
}

/// The arguments of `ydotool` for the paste chord: the input-event codes of the left control key
/// and of V, pressed and released in turn.
pub fn paste_chord() -> (arguments: Vec<String>)
    ensures
        texts(arguments@) == seq!["key"@, "29:1"@, "47:1"@, "47:0"@, "29:0"@],
{
    let mut arguments: Vec<String> = Vec::new();
    arguments.push(owned("key"));
    arguments.push(owned("29:1"));
    arguments.push(owned("47:1"));
    arguments.push(owned("47:0"));
    arguments.push(owned("29:0"));
    assert(texts(arguments@) =~= seq!["key"@, "29:1"@, "47:1"@, "47:0"@, "29:0"@]);
    arguments
}

/// The Qt 6 QML runtime: the configured one, or a distribution-standard one that exists, or the
/// one on the search path.
pub fn runtime(configured: Option<&str>, has_lib: bool, has_libexec: bool) -> (path: String)
    ensures
        path@ == (match configured {
            Some(path) => path@,
            None => if has_lib {
                "/usr/lib/qt6/bin/qml6"@
            } else if has_libexec {
                "/usr/libexec/qt6/qml6"@
            } else {
                "qml6"@
            },
        }),
{
    match configured {
        Some(path) => owned(path),
        None => if has_lib {
            owned("/usr/lib/qt6/bin/qml6")
        } else if has_libexec {
            owned("/usr/libexec/qt6/qml6")
        } else {
            owned("qml6")
        },
    }
}

} // verus!
