//! Input methods. The protocol buffers a composition preview and a committed
//! text until `done` applies both, the commit first.
use crate::text::same_text;
use crate::wayland::keyboard::{is_printable, printable};
use crate::text::spec_is_control;
use vstd::prelude::*;

verus! {

pub struct TextInput {
    pub pending_preedit: Option<String>,
    pub pending_commit: Option<String>,
    /// The composition preview that the widget shows.
    pub last_preedit: String,
}

/// What `done` applies, in this order.
pub struct Applied {
    /// Text to enter in place of the preview.
    pub commit: Option<String>,
    /// A new preview; empty to clear it.
    pub preedit: Option<String>,
}

/// A text that may be absent.
pub open spec fn text_or_empty(s: Option<String>) -> Seq<char> {
    match s {
        Some(t) => t@,
        None => Seq::empty(),
    }
}

impl TextInput {
    pub fn new() -> (r: TextInput)
        ensures
            r.pending_preedit is None,
            r.pending_commit is None,
            r.last_preedit@ == Seq::<char>::empty(),
    {
        TextInput { pending_preedit: None, pending_commit: None, last_preedit: String::new() }
    }

    pub fn preedit_string(&mut self, text: Option<String>)
        ensures
            *final(self) == (TextInput { pending_preedit: text, ..*old(self) }),
    {
        self.pending_preedit = text;
    }

    pub fn commit_string(&mut self, text: Option<String>)
        ensures
            *final(self) == (TextInput { pending_commit: text, ..*old(self) }),
    {
        self.pending_commit = text;
    }

    /// The text that `done` commits: one that holds more than control
    /// characters.
    pub open spec fn commits(self) -> Option<String> {
        match self.pending_commit {
            Some(text) if printable(text@) => Some(text),
            _ => None,
        }
    }

    /// What the widget shows as preview after the commit, which clears it.
    pub open spec fn shown_after_commit(self) -> Seq<char> {
        if self.commits() is Some {
            Seq::empty()
        } else {
            self.last_preedit@
        }
    }

    /// Applies what has come since the last `done`. The pending state starts
    /// anew, so a `done` without a preview clears the preview. A preview that
    /// the widget already shows is not sent again.
    pub fn done(&mut self) -> (r: Applied)
        ensures
            r.commit == old(self).commits(),
            final(self).last_preedit@ == text_or_empty(old(self).pending_preedit),
            r.preedit is Some <==> old(self).shown_after_commit() != text_or_empty(
                old(self).pending_preedit,
            ),
            r.preedit matches Some(text) ==> text@ == text_or_empty(old(self).pending_preedit),
            final(self).pending_preedit is None,
            final(self).pending_commit is None,
    {
        let commit = match self.pending_commit.take() {
            Some(text) => if is_printable(text.as_str()) {
                Some(text)
            } else {
                None
            },
            None => None,
        };
        if commit.is_some() {
            self.last_preedit = String::new();
        }
        let preedit = match self.pending_preedit.take() {
            Some(text) => text,
            None => String::new(),
        };
        if same_text(preedit.as_str(), self.last_preedit.as_str()) {
            Applied { commit, preedit: None }
        } else {
            self.last_preedit = preedit.clone();
            Applied { commit, preedit: Some(preedit) }
        }
    }
}

/// An empty text is not printable: `done` never commits one.
pub proof fn empty_text_is_never_committed(s: TextInput)
    ensures
        s.commits() matches Some(text) ==> text@.len() > 0,
{
}

/// Text that shows is committed as it came, and clears what was being composed.
pub proof fn text_is_committed_as_it_came(s: TextInput, text: String)
    requires
        s.pending_commit == Some(text),
        exists|i: int| 0 <= i < text@.len() && 'a' <= #[trigger] text@[i] <= 'z',
    ensures
        s.commits() == Some(text),
        s.shown_after_commit().len() == 0,
        (TextInput { pending_commit: None, ..s }).commits() is None,
        (TextInput { pending_commit: None, ..s }).shown_after_commit() == s.last_preedit@,
{
    let i = choose|i: int| 0 <= i < text@.len() && 'a' <= #[trigger] text@[i] <= 'z';
    assert(!spec_is_control(text@[i]));
}

} // verus!
