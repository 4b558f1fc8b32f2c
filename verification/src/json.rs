//! JSON documents, as `serde_json` reads and writes them.
//!
//! A document is seen as a map from JSON pointers to what stands there.
use vstd::prelude::*;

verus! {

/// `serde_json::Value`, a document that was read.
#[verifier::external_type_specification]
#[verifier::external_body]
pub struct ExValue(serde_json::Value);

/// What stands at one place of a document.
pub enum JsonLeaf {
    Null,
    Bool(bool),
    /// A number, as a signed and as an unsigned integer where it is one, and by its
    /// bits as a floating point one.
    Number { signed: Option<i64>, unsigned: Option<u64>, bits: Option<u64> },
    Text(String),
    /// A list, with its length.
    List(usize),
    /// An object, with its keys.
    Object(Vec<String>),
}

pub enum LeafView {
    Null,
    Bool(bool),
    Number { signed: Option<i64>, unsigned: Option<u64>, bits: Option<u64> },
    Text(Seq<char>),
    List(usize),
    Object(Seq<Seq<char>>),
}

impl View for JsonLeaf {
    type V = LeafView;

    open spec fn view(&self) -> LeafView {
        match self {
            JsonLeaf::Null => LeafView::Null,
            JsonLeaf::Bool(b) => LeafView::Bool(*b),
            JsonLeaf::Number { signed, unsigned, bits } => LeafView::Number {
                signed: *signed,
                unsigned: *unsigned,
                bits: *bits,
            },
            JsonLeaf::Text(t) => LeafView::Text(t@),
            JsonLeaf::List(n) => LeafView::List(*n),
            JsonLeaf::Object(keys) => LeafView::Object(crate::text::strings(keys@)),
        }
    }
}

/// What stands in a document: for each JSON pointer that leads to a value, that
/// value.
pub uninterp spec fn contents(value: serde_json::Value) -> Map<Seq<char>, LeafView>;

/// What stands in the document that a text is; nothing for a text that is none.
pub uninterp spec fn document(text: Seq<char>) -> Option<Map<Seq<char>, LeafView>>;

/// Whether the values of two keys of a document are equal.
pub uninterp spec fn fields_agree(m: Map<Seq<char>, LeafView>, a: Seq<char>, b: Seq<char>) -> bool;

/// A hexadecimal digit.
pub open spec fn hex_digit(n: int) -> char {
    if n < 10 {
        (0x30 + n) as u8 as char
    } else {
        (0x57 + n) as u8 as char
    }
}

/// A character inside a JSON string: quotes, backslashes and the control characters
/// of ASCII are escaped.
pub open spec fn escaped(c: char) -> Seq<char> {
    let n = c as u32 as int;
    if c == '"' || c == '\\' {
        seq!['\\', c]
    } else if n == 0x08 {
        seq!['\\', 'b']
    } else if n == 0x09 {
        seq!['\\', 't']
    } else if n == 0x0a {
        seq!['\\', 'n']
    } else if n == 0x0c {
        seq!['\\', 'f']
    } else if n == 0x0d {
        seq!['\\', 'r']
    } else if n < 0x20 {
        seq!['\\', 'u', '0', '0', hex_digit(n / 16), hex_digit(n % 16)]
    } else {
        seq![c]
    }
}

/// The characters of a text inside a JSON string.
pub open spec fn escaped_all(text: Seq<char>) -> Seq<char>
    decreases text.len(),
{
    if text.len() == 0 {
        seq![]
    } else {
        escaped_all(text.drop_last()) + escaped(text.last())
    }
}

/// A text as a JSON string.
pub open spec fn encoded(text: Seq<char>) -> Seq<char> {
    seq!['"'] + escaped_all(text) + seq!['"']
}

/// What a JSON pointer leads to.
pub open spec fn leaf_at(m: Map<Seq<char>, LeafView>, pointer: Seq<char>) -> Option<LeafView> {
    if m.contains_key(pointer) {
        Some(m[pointer])
    } else {
        None
    }
}

/// Whether a key is made of lower case letters and underscores.
pub open spec fn plain_key(key: Seq<char>) -> bool {
    key.len() > 0 && forall|i: int|
        0 <= i < key.len() ==> #[trigger] key[i] == '_' || 'a' <= key[i] <= 'z'
}

/// Whether nothing, or `null`, is at a pointer.
pub open spec fn nothing_at(m: Map<Seq<char>, LeafView>, pointer: Seq<char>) -> bool {
    match leaf_at(m, pointer) {
        None => true,
        Some(leaf) => leaf is Null,
    }
}

/// The signed integer at a pointer.
pub open spec fn signed_at(m: Map<Seq<char>, LeafView>, pointer: Seq<char>) -> Option<i64> {
    match leaf_at(m, pointer) {
        Some(LeafView::Number { signed, .. }) => signed,
        _ => None,
    }
}

/// Whether an answer on two places of a document fits: where both are empty they
/// are equal, an integer is not equal to an empty place, and two integers are
/// equal where their numbers are.
pub open spec fn compared(m: Map<Seq<char>, LeafView>, p: Seq<char>, q: Seq<char>, equal: bool) -> bool {
    match (signed_at(m, p), signed_at(m, q)) {
        (Some(x), Some(y)) => equal == (x == y),
        (Some(_), None) => nothing_at(m, q) ==> !equal,
        (None, Some(_)) => nothing_at(m, p) ==> !equal,
        (None, None) => nothing_at(m, p) && nothing_at(m, q) ==> equal,
    }
}

/// `serde_json::from_str`, into a `serde_json::Value`: the document that the text
/// is, or nothing for a text that is none. What makes a text a document is not
/// spelt out.
#[verifier::external_body]
pub(crate) fn parse(text: &str) -> (r: Option<serde_json::Value>)
    ensures
        match r {
            Some(value) => document(text@) == Some(contents(value)),
            None => document(text@) is None,
        },
{
    serde_json::from_str(text).ok()
}

/// `serde_json::Value::pointer`: what a JSON pointer leads to, each kind of value
/// told apart.
#[verifier::external_body]
pub(crate) fn look(value: &serde_json::Value, pointer: &str) -> (r: Option<JsonLeaf>)
    ensures
        match r {
            Some(leaf) => leaf_at(contents(*value), pointer@) == Some(leaf@),
            None => leaf_at(contents(*value), pointer@) is None,
        },
{
    Some(match value.pointer(pointer)? {
        serde_json::Value::Null => JsonLeaf::Null,
        serde_json::Value::Bool(b) => JsonLeaf::Bool(*b),
        serde_json::Value::Number(n) => JsonLeaf::Number {
            signed: n.as_i64(),
            unsigned: n.as_u64(),
            bits: n.as_f64().map(|x| x.to_bits()),
        },
        serde_json::Value::String(s) => JsonLeaf::Text(s.clone()),
        serde_json::Value::Array(list) => JsonLeaf::List(list.len()),
        serde_json::Value::Object(map) => JsonLeaf::Object(map.keys().cloned().collect()),
    })
}

/// The indexing of a `serde_json::Value` by two keys, and the comparison of what
/// they give. A key that is missing counts as `null`. Two integers are equal where
/// their numbers are; an integer and `null` are not.
#[verifier::external_body]
pub(crate) fn same_fields(value: &serde_json::Value, a: &str, b: &str) -> (r: bool)
    ensures
        r == fields_agree(contents(*value), a@, b@),
        plain_key(a@) && plain_key(b@) ==> compared(contents(*value), "/"@ + a@, "/"@ + b@, r),
{
    value[a] == value[b]
}

/// `serde_json::to_string` of a string: the text in quotes, with quotes, backslashes
/// and the control characters of ASCII escaped, by a letter where JSON has one for
/// them and else by their number. A string can always be written.
#[verifier::external_body]
pub(crate) fn write_string(text: &str) -> (r: String)
    ensures
        r@ == encoded(text@),
{
    serde_json::to_string(text).expect("a string can be written")
}

} // verus!
