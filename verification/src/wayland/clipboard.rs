//! The clipboard: what the selection offers, which of its types to ask for,
//! what a paste enters, and copies that wait for a serial; and the primary
//! selection.
use crate::text::{same_text, strings};
use vstd::prelude::*;
use vstd::utf8::{
    decode_utf8, encode_scalar, encode_utf8, encode_utf8_decode_utf8, encode_utf8_valid_utf8,
    valid_utf8,
};

verus! {

/// The text types that this client offers and asks for, the best first.
pub open spec fn text_types() -> Seq<Seq<char>> {
    seq![
        "text/plain;charset=utf-8"@,
        "text/plain"@,
        "UTF8_STRING"@,
        "STRING"@,
        "TEXT"@,
    ]
}

/// The text types that this client offers and asks for, the best first.
pub fn text_mime_types() -> (r: Vec<&'static str>)
    ensures
        r@.map_values(|s: &'static str| s@) == text_types(),
{
    let r: Vec<&'static str> = vec![
        "text/plain;charset=utf-8",
        "text/plain",
        "UTF8_STRING",
        "STRING",
        "TEXT",
    ];
    assert(r@.map_values(|s: &'static str| s@) =~= text_types());
    r
}

/// Whether a type is one that the clipboard text is sent as.
pub fn is_text_mime_type(mime_type: &str) -> (r: bool)
    ensures
        r == text_types().contains(mime_type@),
{
    let types = text_mime_types();
    let ghost all = types@.map_values(|s: &'static str| s@);
    let mut i: usize = 0;
    while i < types.len()
        invariant
            i <= types.len(),
            all == types@.map_values(|s: &'static str| s@),
            all == text_types(),
            forall|j: int| 0 <= j < i ==> #[trigger] all[j] != mime_type@,
        decreases types.len() - i,
    {
        assert(all[i as int] == types@[i as int]@);
        if same_text(types[i], mime_type) {
            return true;
        }
        i = i + 1;
    }
    false
}

fn position(list: &Vec<String>, text: &str) -> (r: Option<usize>)
    ensures
        match r {
            Some(i) => i < list.len() && list@[i as int]@ == text@ && strings(list@).contains(text@),
            None => !strings(list@).contains(text@),
        },
{
    let mut i: usize = 0;
    while i < list.len()
        invariant
            i <= list.len(),
            forall|j: int| 0 <= j < i ==> (#[trigger] strings(list@)[j]) != text@,
        decreases list.len() - i,
    {
        assert(strings(list@)[i as int] == list@[i as int]@);
        if same_text(list[i].as_str(), text) {
            return Some(i);
        }
        i = i + 1;
    }
    None
}

/// The first of `wanted`, from index `k` on, that is offered.
pub open spec fn first_offered(wanted: Seq<Seq<char>>, offered: Seq<Seq<char>>, k: int) -> Option<
    Seq<char>,
>
    decreases wanted.len() - k,
{
    if k < 0 || k >= wanted.len() {
        None
    } else if offered.contains(wanted[k]) {
        Some(wanted[k])
    } else {
        first_offered(wanted, offered, k + 1)
    }
}

/// The type to ask for: the best text type that is offered, else whatever is
/// offered first.
pub open spec fn preferred(offered: Seq<Seq<char>>) -> Option<Seq<char>> {
    match first_offered(text_types(), offered, 0) {
        Some(t) => Some(t),
        None => if offered.len() > 0 {
            Some(offered[0])
        } else {
            None
        },
    }
}

/// The type to ask for.
pub fn preferred_clipboard_mime_type(offered: &Vec<String>) -> (r: Option<&str>)
    ensures
        match r {
            Some(t) => preferred(strings(offered@)) == Some(t@),
            None => preferred(strings(offered@)) is None,
        },
{
    let types = text_mime_types();
    let ghost all = types@.map_values(|s: &'static str| s@);
    let mut k: usize = 0;
    while k < types.len()
        invariant
            k <= types.len(),
            all == types@.map_values(|s: &'static str| s@),
            all == text_types(),
            first_offered(all, strings(offered@), 0) == first_offered(all, strings(offered@), k as int),
        decreases types.len() - k,
    {
        assert(all[k as int] == types@[k as int]@);
        if let Some(i) = position(offered, types[k]) {
            return Some(offered[i].as_str());
        }
        k = k + 1;
    }
    if offered.len() > 0 {
        Some(offered[0].as_str())
    } else {
        None
    }
}

// ---------------------------------------------------------------------------
// Offers
// ---------------------------------------------------------------------------

/// A data offer and the types it comes in.
pub struct ClipboardOffer {
    pub offer: u32,
    pub mime_types: Vec<String>,
}

#[verifier::ext_equal]
pub struct OfferView {
    pub offer: u32,
    pub mime_types: Seq<Seq<char>>,
}

impl View for ClipboardOffer {
    type V = OfferView;

    open spec fn view(&self) -> OfferView {
        OfferView { offer: self.offer, mime_types: strings(self.mime_types@) }
    }
}

impl OfferView {
    /// With one more type, unless it is there already.
    pub open spec fn with_type(self, mime_type: Seq<char>) -> OfferView {
        if self.mime_types.contains(mime_type) {
            self
        } else {
            OfferView { mime_types: self.mime_types.push(mime_type), ..self }
        }
    }
}

impl ClipboardOffer {
    fn add_type(self, mime_type: &String) -> (r: ClipboardOffer)
        ensures
            r@ == self@.with_type(mime_type@),
    {
        let mut r = self;
        if position(&r.mime_types, mime_type.as_str()).is_none() {
            let ghost before = r.mime_types@;
            r.mime_types.push(mime_type.clone());
            assert(strings(r.mime_types@) =~= strings(before).push(mime_type@));
        }
        r
    }
}

/// The selection's offer, and offers that no selection has named yet.
pub struct Offers {
    pub active: Option<ClipboardOffer>,
    pub pending: Vec<ClipboardOffer>,
}

/// What a list of offers holds.
pub open spec fn offers(v: Seq<ClipboardOffer>) -> Seq<OfferView> {
    v.map_values(|o: ClipboardOffer| o@)
}

/// The index of the first offer with this id.
pub open spec fn offer_index(v: Seq<OfferView>, id: u32, from: int) -> Option<int>
    decreases v.len() - from,
{
    if from < 0 || from >= v.len() {
        None
    } else if v[from].offer == id {
        Some(from)
    } else {
        offer_index(v, id, from + 1)
    }
}

impl Offers {
    pub open spec fn spec_active(&self) -> Option<OfferView> {
        match self.active {
            Some(o) => Some(o@),
            None => None,
        }
    }

    pub fn new() -> (r: Offers)
        ensures
            r.active is None,
            r.pending@.len() == 0,
    {
        Offers { active: None, pending: Vec::new() }
    }

    fn find(&self, id: u32) -> (r: Option<usize>)
        ensures
            match r {
                Some(i) => i < self.pending.len() && offer_index(offers(self.pending@), id, 0)
                    == Some(i as int) && self.pending@[i as int].offer == id,
                None => offer_index(offers(self.pending@), id, 0) is None,
            },
    {
        let mut i: usize = 0;
        while i < self.pending.len()
            invariant
                i <= self.pending.len(),
                offer_index(offers(self.pending@), id, 0) == offer_index(
                    offers(self.pending@),
                    id,
                    i as int,
                ),
            decreases self.pending.len() - i,
        {
            if self.pending[i].offer == id {
                return Some(i);
            }
            i = i + 1;
        }
        None
    }

    /// A new offer, of which nothing is known yet.
    pub fn data_offer(&mut self, id: u32)
        ensures
            final(self).active == old(self).active,
            offers(final(self).pending@) == if offer_index(offers(old(self).pending@), id, 0)
                is Some {
                offers(old(self).pending@)
            } else {
                offers(old(self).pending@).push(OfferView { offer: id, mime_types: Seq::empty() })
            },
    {
        if self.find(id).is_none() {
            let ghost before = self.pending@;
            let o = ClipboardOffer { offer: id, mime_types: Vec::new() };
            assert(strings(o.mime_types@) =~= Seq::empty());
            self.pending.push(o);
            assert(offers(self.pending@) =~= offers(before).push(o@));
        }
    }

    /// The selection changed: its offer with the types named so far becomes the
    /// active one, and all other offers are dropped.
    pub fn selection(&mut self, id: Option<u32>)
        ensures
            final(self).pending@.len() == 0,
            final(self).spec_active() == match id {
                Some(id) => match offer_index(offers(old(self).pending@), id, 0) {
                    Some(i) => Some(offers(old(self).pending@)[i]),
                    None => Some(OfferView { offer: id, mime_types: Seq::empty() }),
                },
                None => None,
            },
    {
        match id {
            Some(id) => match self.find(id) {
                Some(i) => {
                    let o = self.pending.swap_remove(i);
                    self.active = Some(o);
                },
                None => {
                    let o = ClipboardOffer { offer: id, mime_types: Vec::new() };
                    assert(strings(o.mime_types@) =~= Seq::empty());
                    self.active = Some(o);
                },
            },
            None => {
                self.active = None;
            },
        }
        self.pending.clear();
    }

    /// An offer names one of its types; a type named twice counts once.
    pub fn offer_type(&mut self, id: u32, mime_type: String)
        ensures
            final(self).spec_active() == match old(self).spec_active() {
                Some(o) if o.offer == id => Some(o.with_type(mime_type@)),
                other => other,
            },
            offers(final(self).pending@) == match offer_index(offers(old(self).pending@), id, 0) {
                Some(i) => offers(old(self).pending@).update(
                    i,
                    offers(old(self).pending@)[i].with_type(mime_type@),
                ),
                None => offers(old(self).pending@),
            },
    {
        match self.active.take() {
            Some(o) => {
                self.active = Some(
                    if o.offer == id {
                        o.add_type(&mime_type)
                    } else {
                        o
                    },
                );
            },
            None => {},
        }
        if let Some(i) = self.find(id) {
            let ghost before = self.pending@;
            let mut o = ClipboardOffer { offer: id, mime_types: Vec::new() };
            core::mem::swap(&mut self.pending[i], &mut o);
            let o = o.add_type(&mime_type);
            self.pending.set(i, o);
            assert(offers(self.pending@) =~= offers(before).update(
                i as int,
                offers(before)[i as int].with_type(mime_type@),
            ));
        }
    }
}

// ---------------------------------------------------------------------------
// Text in and out
// ---------------------------------------------------------------------------

/// The text that bytes decode to which are not UTF-8, with replacement characters for
/// what is not.
pub uninterp spec fn utf8_lossy(bytes: Seq<u8>) -> Seq<char>;

/// The text that bytes decode to.
pub open spec fn decoded(bytes: Seq<u8>) -> Seq<char> {
    if valid_utf8(bytes) {
        decode_utf8(bytes)
    } else {
        utf8_lossy(bytes)
    }
}

/// `String::from_utf8_lossy`: the text that the bytes decode to. Where the bytes are
/// not UTF-8, which of them are replaced is not spelt out.
#[verifier::external_body]
fn lossy_text(bytes: &[u8]) -> (r: String)
    ensures
        valid_utf8(bytes@) ==> r@ == decode_utf8(bytes@),
        !valid_utf8(bytes@) ==> r@ == utf8_lossy(bytes@),
{
    String::from_utf8_lossy(bytes).into_owned()
}

/// Without trailing zero bytes.
pub open spec fn without_nuls(bytes: Seq<u8>) -> Seq<u8>
    decreases bytes.len(),
{
    if bytes.len() > 0 && bytes.last() == 0 {
        without_nuls(bytes.drop_last())
    } else {
        bytes
    }
}

/// Takes trailing zero bytes off.
pub fn strip_nuls(bytes: Vec<u8>) -> (r: Vec<u8>)
    ensures
        r@ == without_nuls(bytes@),
{
    let mut r = bytes;
    let ghost all = r@;
    while r.len() > 0 && r[r.len() - 1] == 0
        invariant
            without_nuls(r@) == without_nuls(all),
        decreases r.len(),
    {
        let ghost before = r@;
        r.pop();
        assert(r@ =~= before.drop_last());
    }
    r
}

/// What a paste of these bytes enters, once they are decoded to `text`:
/// nothing if that is empty.
pub fn pasted(text: String) -> (r: Option<String>)
    ensures
        r == if text@.len() > 0 {
            Some(text)
        } else {
            None
        },
{
    if text.as_str().is_empty() {
        None
    } else {
        Some(text)
    }
}

/// What a request to paste does.
pub enum Paste<'a> {
    Nothing,
    /// Read the selection as this type.
    Read(&'a str),
    /// Enter this client's own copied text.
    Own(&'a str),
}

/// What pasting does.
pub enum PasteView {
    Nothing,
    Read(Seq<char>),
    Own(Seq<char>),
}

/// What pasting does with what is offered, and with this client's own text.
pub open spec fn paste_of(active: Option<OfferView>, own: Seq<char>) -> PasteView {
    match active {
        Some(o) => match preferred(o.mime_types) {
            Some(t) => PasteView::Read(t),
            None => PasteView::Nothing,
        },
        None => if own.len() > 0 {
            PasteView::Own(own)
        } else {
            PasteView::Nothing
        },
    }
}

/// The clipboard of this client.
pub struct Clipboard {
    pub offers: Offers,
    /// The text that this client copied.
    pub text: String,
    /// A copy that waits for a serial.
    pub pending_copy: Option<String>,
    /// The text that a finished paste enters next.
    pub pending_paste: Option<String>,
    /// The data source through which the copied text is sent.
    pub source: Option<u32>,
}

impl Clipboard {
    pub fn new() -> (r: Clipboard)
        ensures
            r.offers.active is None,
            r.offers.pending@.len() == 0,
            r.text@ == Seq::<char>::empty(),
            r.pending_copy is None,
            r.pending_paste is None,
            r.source is None,
    {
        Clipboard {
            offers: Offers::new(),
            text: String::new(),
            pending_copy: None,
            pending_paste: None,
            source: None,
        }
    }

    /// The bytes of a paste have come: trailing zero bytes are dropped, and a
    /// text that is not empty waits to be entered.
    pub fn dispatch_paste_bytes(&mut self, bytes: Vec<u8>)
        ensures
            final(self).offers == old(self).offers,
            final(self).text == old(self).text,
            final(self).pending_copy == old(self).pending_copy,
            final(self).source == old(self).source,
            ({
                let text = decoded(without_nuls(bytes@));
                if text.len() > 0 {
                    final(self).pending_paste matches Some(p) && p@ == text
                } else {
                    final(self).pending_paste == old(self).pending_paste
                }
            }),
    {
        let stripped = strip_nuls(bytes);
        if let Some(text) = pasted(lossy_text(stripped.as_slice())) {
            self.pending_paste = Some(text);
        }
    }

    /// A read of the selection came to an end of what there is for now: with
    /// nothing read it is tried again later (`true`), else what was read is
    /// pasted.
    pub fn read_ended(&mut self, bytes: Vec<u8>) -> (r: bool)
        ensures
            r == (bytes@.len() == 0),
            r ==> *final(self) == *old(self),
            !r ==> ({
                let text = decoded(without_nuls(bytes@));
                if text.len() > 0 {
                    final(self).pending_paste matches Some(p) && p@ == text
                } else {
                    final(self).pending_paste == old(self).pending_paste
                }
            }),
            final(self).offers == old(self).offers,
            final(self).text == old(self).text,
            final(self).pending_copy == old(self).pending_copy,
            final(self).source == old(self).source,
    {
        if bytes.len() == 0 {
            true
        } else {
            self.dispatch_paste_bytes(bytes);
            false
        }
    }

    pub fn take_pending_paste_text_input(&mut self) -> (r: Option<String>)
        ensures
            r == old(self).pending_paste,
            *final(self) == (Clipboard { pending_paste: None, ..*old(self) }),
    {
        self.pending_paste.take()
    }

    /// A copy is wanted before any event has brought a serial.
    pub fn queue_copy(&mut self, text: String)
        ensures
            *final(self) == (Clipboard { pending_copy: Some(text), ..*old(self) }),
    {
        self.pending_copy = Some(text);
    }

    /// A serial has come: the copy to make with it, if one was waiting.
    pub fn flush_pending_clipboard_copy(&mut self) -> (r: Option<String>)
        ensures
            r == old(self).pending_copy,
            *final(self) == (Clipboard { pending_copy: None, ..*old(self) }),
    {
        self.pending_copy.take()
    }

    /// A copy is made: with a new source through which the selection was claimed, its
    /// text is the one that is sent. A copy for which nothing could be claimed is
    /// forgotten.
    pub fn set_clipboard_text(&mut self, source: Option<u32>, text: String)
        ensures
            *final(self) == (if source is Some {
                Clipboard { source, text, ..*old(self) }
            } else {
                *old(self)
            }),
    {
        if source.is_some() {
            self.source = source;
            self.text = text;
        }
    }

    /// Whether a request for this type is answered with the copied text.
    pub fn sends(&self, mime_type: &str) -> (r: Option<&str>)
        ensures
            r matches Some(t) ==> t@ == self.text@,
            r is Some <==> text_types().contains(mime_type@),
    {
        if is_text_mime_type(mime_type) {
            Some(self.text.as_str())
        } else {
            None
        }
    }

    /// A source was replaced by another client's.
    pub fn source_cancelled(&mut self, source: u32)
        ensures
            *final(self) == (Clipboard {
                source: if old(self).source == Some(source) {
                    None
                } else {
                    old(self).source
                },
                ..*old(self)
            }),
    {
        let own = match self.source {
            Some(s) => s == source,
            None => false,
        };
        if own {
            self.source = None;
        }
    }

    /// What pasting does: read the selection in its preferred type, or enter
    /// this client's own text where there is no selection.
    pub fn request_clipboard_paste(&self) -> (r: Paste<'_>)
        ensures
            match self.offers.spec_active() {
                Some(o) => match preferred(o.mime_types) {
                    Some(t) => r matches Paste::Read(m) && m@ == t,
                    None => r is Nothing,
                },
                None => if self.text@.len() > 0 {
                    r matches Paste::Own(t) && t@ == self.text@
                } else {
                    r is Nothing
                },
            },
            (match r {
                Paste::Nothing => PasteView::Nothing,
                Paste::Read(m) => PasteView::Read(m@),
                Paste::Own(t) => PasteView::Own(t@),
            }) == paste_of(self.offers.spec_active(), self.text@),
    {
        match &self.offers.active {
            Some(o) => match preferred_clipboard_mime_type(&o.mime_types) {
                Some(t) => Paste::Read(t),
                None => Paste::Nothing,
            },
            None => if self.text.as_str().is_empty() {
                Paste::Nothing
            } else {
                Paste::Own(self.text.as_str())
            },
        }
    }
}

/// The primary selection of this client: what a middle click elsewhere pastes.
pub struct PrimarySelection {
    pub text: String,
    /// The source through which the text is sent.
    pub source: Option<u32>,
}

impl PrimarySelection {
    pub fn new() -> (r: PrimarySelection)
        ensures
            r.text@ == Seq::<char>::empty(),
            r.source is None,
    {
        PrimarySelection { text: String::new(), source: None }
    }

    /// A text was selected: it is the one that is sent, also through the source of an
    /// earlier one where nothing new could be claimed.
    pub fn set_primary_selection_text(&mut self, source: Option<u32>, text: String)
        ensures
            final(self).text == text,
            final(self).source == (if source is Some {
                source
            } else {
                old(self).source
            }),
    {
        self.text = text;
        if source.is_some() {
            self.source = source;
        }
    }

    /// What a request for the selection is answered with, whatever type it names.
    pub fn sends(&self) -> (r: &str)
        ensures
            r@ == self.text@,
    {
        self.text.as_str()
    }

    /// The selection is now another client's.
    pub fn source_cancelled(&mut self)
        ensures
            final(self).text == old(self).text,
            final(self).source is None,
    {
        self.source = None;
    }
}

/// The preferred type of an offer is one that it offers.
pub proof fn preferred_is_offered(offered: Seq<Seq<char>>)
    ensures
        preferred(offered) matches Some(t) ==> offered.contains(t),
        preferred(offered) is None <==> offered.len() == 0,
{
    first_offered_is_offered(text_types(), offered, 0);
    if offered.len() == 0 {
        assert forall|t: Seq<char>| !offered.contains(t) by {}
    }
}

proof fn first_offered_is_offered(wanted: Seq<Seq<char>>, offered: Seq<Seq<char>>, k: int)
    requires
        0 <= k,
    ensures
        first_offered(wanted, offered, k) matches Some(t) ==> offered.contains(t),
    decreases wanted.len() - k,
{
    if k < wanted.len() && !offered.contains(wanted[k]) {
        first_offered_is_offered(wanted, offered, k + 1);
    }
}

proof fn last_byte_is_not_zero(c: char)
    requires
        c != '\0',
    ensures
        encode_scalar(c as u32).len() > 0,
        encode_scalar(c as u32).last() != 0,
{
    let n: u32 = c as u32;
    assert(0x80u8 | (n & 0x3F) as u8 != 0) by (bit_vector);
    assert(n != 0 && n <= 0x7F ==> (n & 0x7F) as u8 != 0) by (bit_vector);
}

proof fn no_trailing_nul(text: Seq<char>)
    requires
        text.len() > 0,
        text.last() != '\0',
    ensures
        encode_utf8(text).len() > 0,
        encode_utf8(text).last() != 0,
    decreases text.len(),
{
    let rest = text.drop_first();
    if text.len() == 1 {
        assert(encode_utf8(rest) =~= Seq::<u8>::empty());
        assert(encode_utf8(text) =~= encode_scalar(text[0] as u32));
        last_byte_is_not_zero(text[0]);
    } else {
        assert(rest.last() == text.last());
        no_trailing_nul(rest);
    }
}

/// What is copied is pasted: the bytes of a text, sent as UTF-8, are entered as that
/// text. A text that ends in a zero character loses it.
pub proof fn copied_text_is_pasted(text: Seq<char>)
    requires
        text.len() > 0,
        text.last() != '\0',
    ensures
        decoded(without_nuls(encode_utf8(text))) == text,
{
    no_trailing_nul(text);
    encode_utf8_valid_utf8(text);
    encode_utf8_decode_utf8(text);
}

proof fn wanted_comes_first(wanted: Seq<Seq<char>>, offered: Seq<Seq<char>>, k: int, n: int)
    requires
        0 <= k <= n < wanted.len(),
        offered.contains(wanted[n]),
    ensures
        first_offered(wanted, offered, k) matches Some(t) && wanted.contains(t),
        first_offered(wanted, offered, k) matches Some(t) && exists|i: int|
            k <= i <= n && t == #[trigger] wanted[i],
    decreases n - k,
{
    if !offered.contains(wanted[k]) {
        wanted_comes_first(wanted, offered, k + 1, n);
    }
}

proof fn nothing_wanted(wanted: Seq<Seq<char>>, offered: Seq<Seq<char>>, k: int)
    requires
        0 <= k,
        forall|i: int| 0 <= i < wanted.len() ==> !offered.contains(#[trigger] wanted[i]),
    ensures
        first_offered(wanted, offered, k) is None,
    decreases wanted.len() - k,
{
    if k < wanted.len() {
        nothing_wanted(wanted, offered, k + 1);
    }
}

/// Text is taken wherever it stands among what is offered: as UTF-8 where it is offered so,
/// else as plain text, else by an older name of text. Only where there is none, what is
/// offered first is taken.
pub proof fn text_is_preferred(offered: Seq<Seq<char>>)
    ensures
        offered.contains("text/plain;charset=utf-8"@) ==> preferred(offered) == Some(
            "text/plain;charset=utf-8"@,
        ),
        !offered.contains("text/plain;charset=utf-8"@) && offered.contains("text/plain"@)
            ==> preferred(offered) == Some("text/plain"@),
        offered.contains("UTF8_STRING"@) || offered.contains("STRING"@) || offered.contains(
            "TEXT"@,
        ) ==> (preferred(offered) matches Some(t) && text_types().contains(t)),
        offered.len() > 0 && (forall|i: int|
            0 <= i < text_types().len() ==> !offered.contains(#[trigger] text_types()[i]))
            ==> preferred(offered) == Some(offered[0]),
{
    let w = text_types();
    assert(w[0] == "text/plain;charset=utf-8"@ && w[1] == "text/plain"@ && w[2] == "UTF8_STRING"@
        && w[3] == "STRING"@ && w[4] == "TEXT"@);
    if offered.contains(w[1]) {
        wanted_comes_first(w, offered, 0, 1);
        assert(first_offered(w, offered, 1) == Some(w[1]));
    }
    if offered.contains(w[2]) {
        wanted_comes_first(w, offered, 0, 2);
    }
    if offered.contains(w[3]) {
        wanted_comes_first(w, offered, 0, 3);
    }
    if offered.contains(w[4]) {
        wanted_comes_first(w, offered, 0, 4);
    }
    if forall|i: int| 0 <= i < w.len() ==> !offered.contains(#[trigger] w[i]) {
        nothing_wanted(w, offered, 0);
    }
}

/// Only zeros at the end of what is pasted are taken off, however many there are.
pub proof fn zeros_at_the_end_are_taken_off(bytes: Seq<u8>, n: nat)
    requires
        bytes.len() > 0 ==> bytes.last() != 0,
    ensures
        without_nuls(bytes + Seq::new(n, |i: int| 0u8)) == bytes,
    decreases n,
{
    let all = bytes + Seq::new(n, |i: int| 0u8);
    if n > 0 {
        let fewer = (n - 1) as nat;
        zeros_at_the_end_are_taken_off(bytes, fewer);
        assert(all.drop_last() =~= bytes + Seq::new(fewer, |i: int| 0u8));
        assert(all.last() == 0);
    } else {
        assert(all =~= bytes);
    }
}

/// A type that is offered twice counts once, and none is lost.
pub proof fn offered_types_are_kept(o: OfferView, mime_type: Seq<char>, other: Seq<char>)
    ensures
        o.with_type(mime_type).mime_types.contains(mime_type),
        o.mime_types.contains(other) ==> o.with_type(mime_type).mime_types.contains(other),
        o.with_type(mime_type).mime_types.contains(other) && other != mime_type
            ==> o.mime_types.contains(other),
        o.with_type(mime_type).with_type(mime_type) == o.with_type(mime_type),
        o.with_type(mime_type).offer == o.offer,
        o.mime_types.len() > 0 ==> o.with_type(mime_type).mime_types[0] == o.mime_types[0],
{
    let new = o.with_type(mime_type).mime_types;
    if !o.mime_types.contains(mime_type) {
        assert(new.last() == mime_type);
        if o.mime_types.contains(other) {
            let i = o.mime_types.index_of(other);
            assert(new[i] == other);
        }
        if new.contains(other) && other != mime_type {
            let i = new.index_of(other);
            assert(o.mime_types[i] == other);
        }
    }
}

/// What another client offers goes before this client's own text, and text before all else
/// of what is offered; the own text is pasted where nothing is offered.
pub proof fn what_is_offered_goes_before_the_own_text(o: OfferView, own: Seq<char>)
    ensures
        o.mime_types.contains("text/plain;charset=utf-8"@) ==> paste_of(Some(o), own)
            == PasteView::Read("text/plain;charset=utf-8"@),
        o.mime_types.len() == 0 ==> paste_of(Some(o), own) is Nothing,
        o.mime_types.len() > 0 ==> (paste_of(Some(o), own) matches PasteView::Read(t)
            && o.mime_types.contains(t)),
        own.len() > 0 ==> paste_of(None, own) == PasteView::Own(own),
        paste_of(None, Seq::empty()) is Nothing,
{
    text_is_preferred(o.mime_types);
    preferred_is_offered(o.mime_types);
}

} // verus!
