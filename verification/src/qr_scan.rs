//! What a QR scanner's window says.
use crate::number::{decimal, spec_decimal};
use crate::text::{push_all, push_text, to_chars, to_text};
use vstd::prelude::*;
use vstd::string::StringSliceAdditionalSpecFns;

verus! {

/// How often scans were cancelled.
pub struct ScanState {
    pub cancel_count: usize,
}

/// What is said of a code: how long it is.
pub open spec fn scanned_text(chars: nat, bytes: nat) -> Seq<char> {
    "Scanned "@ + spec_decimal(chars) + " chars ("@ + spec_decimal(bytes) + " bytes)"@
}

/// What is said of a cancelled scan: how many there were, and why the last was.
pub open spec fn cancelled_text(count: nat, reason: Seq<char>) -> Seq<char> {
    "Cancelled: "@ + spec_decimal(count) + " (last reason: "@ + reason + ")"@
}

/// A code was scanned.
pub fn scanned(text: &str) -> (r: String)
    ensures
        r@ == scanned_text(text@.len(), text.spec_bytes().len()),
{
    let chars = to_chars(text);
    let n = decimal(chars.len() as u64);
    let bytes = text.as_bytes();
    let m = decimal(bytes.len() as u64);
    let mut out: Vec<char> = Vec::new();
    push_text(&mut out, "Scanned ");
    push_all(&mut out, n.as_slice());
    push_text(&mut out, " chars (");
    push_all(&mut out, m.as_slice());
    push_text(&mut out, " bytes)");
    assert(out@ =~= scanned_text(text@.len(), text.spec_bytes().len()));
    to_text(out.as_slice())
}

impl ScanState {
    /// A scan was cancelled.
    pub fn cancelled(&mut self, reason: &str) -> (r: String)
        requires
            old(self).cancel_count < usize::MAX,
        ensures
            final(self).cancel_count == old(self).cancel_count + 1,
            r@ == cancelled_text((old(self).cancel_count + 1) as nat, reason@),
    {
        self.cancel_count = self.cancel_count + 1;
        let n = decimal(self.cancel_count as u64);
        let mut out: Vec<char> = Vec::new();
        push_text(&mut out, "Cancelled: ");
        push_all(&mut out, n.as_slice());
        push_text(&mut out, " (last reason: ");
        push_text(&mut out, reason);
        push_text(&mut out, ")");
        assert(out@ =~= cancelled_text(self.cancel_count as nat, reason@));
        to_text(out.as_slice())
    }
}

} // verus!
