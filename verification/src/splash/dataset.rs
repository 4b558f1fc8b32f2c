//! The dataset that a host may hold for its cards. A card names it, never a path.
use crate::text::{push_text, same_text, to_chars, to_text};
use vstd::prelude::*;

verus! {

/// The most bytes that a dataset has.
pub const DATASET_LIMIT: u64 = 131072;

/// The dataset as it was read, which it is once.
pub struct DatasetSnapshot {
    pub loaded: bool,
    pub json: String,
}

impl DatasetSnapshot {
    pub fn new() -> (r: DatasetSnapshot)
        ensures
            !r.loaded,
            r.json@ == Seq::<char>::empty(),
    {
        DatasetSnapshot { loaded: false, json: String::new() }
    }

    /// The dataset is asked for: whether it is to be read now, which is so the first
    /// time.
    pub fn asked(&mut self) -> (r: bool)
        ensures
            r == !old(self).loaded,
            *final(self) == (DatasetSnapshot { loaded: true, ..*old(self) }),
    {
        let first = !self.loaded;
        self.loaded = true;
        first
    }

    /// What was read of the dataset's file; nothing where there is none, or it is too
    /// long or no text.
    pub fn read(&mut self, text: Option<String>)
        ensures
            final(self).loaded == old(self).loaded,
            final(self).json@ == match text {
                Some(t) => t@,
                None => Seq::<char>::empty(),
            },
    {
        self.json = match text {
            Some(t) => t,
            None => String::new(),
        };
    }
}

/// Whether a dataset of this size is read.
pub fn dataset_fits(len: u64) -> (r: bool)
    ensures
        r == (len <= DATASET_LIMIT),
{
    len <= DATASET_LIMIT
}

/// A letter or digit of ASCII, or an underscore.
pub open spec fn field_char(c: char) -> bool {
    let n = c as u32;
    0x30 <= n <= 0x39 || 0x41 <= n <= 0x5a || 0x61 <= n <= 0x7a || n == 0x5f
}

/// Whether a text is the name of a field.
pub open spec fn field_name(field: Seq<char>) -> bool {
    field.len() > 0 && forall|i: int| 0 <= i < field.len() ==> field_char(#[trigger] field[i])
}

fn is_field_name(field: &Vec<char>) -> (r: bool)
    ensures
        r == field_name(field@),
{
    if field.len() == 0 {
        return false;
    }
    let mut i: usize = 0;
    while i < field.len()
        invariant
            i <= field.len(),
            forall|j: int| 0 <= j < i ==> field_char(#[trigger] field@[j]),
        decreases field.len() - i,
    {
        let n: u32 = field[i] as u32;
        if !((0x30 <= n && n <= 0x39) || (0x41 <= n && n <= 0x5a) || (0x61 <= n && n <= 0x7a) || n
            == 0x5f) {
            assert(!field_char(field@[i as int]));
            return false;
        }
        i = i + 1;
    }
    true
}

/// Where a field of the dataset is in the document that holds it, for a card that
/// names the dataset by its own name; `held` is the name in the document.
pub fn dataset_path(id: &str, field: &str, held: Option<&str>) -> (r: Option<String>)
    ensures
        match r {
            Some(path) => field_name(field@) && (held matches Some(h) && h@ == id@) && path@
                == "data."@ + field@,
            None => !field_name(field@) || (match held {
                Some(h) => h@ != id@,
                None => true,
            }),
        },
{
    let chars = to_chars(field);
    if !is_field_name(&chars) {
        return None;
    }
    match held {
        Some(h) => {
            if same_text(h, id) {
                let mut out: Vec<char> = Vec::new();
                push_text(&mut out, "data.");
                push_text(&mut out, field);
                assert(out@ =~= "data."@ + field@);
                Some(to_text(out.as_slice()))
            } else {
                None
            }
        },
        None => None,
    }
}

} // verus!
