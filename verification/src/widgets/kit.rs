//! Components of a design: their events and their public state.
//!
//! A component's contract is a JSON document. It names the component's children by
//! role, lists the items that can be selected, and gives the colors in which
//! selected and other items are painted.
use crate::json::{
    contents, document, fields_agree, leaf_at, look, parse, same_fields, signed_at, JsonLeaf,
    LeafView,
};
use crate::number::{decimal, signed_decimal, spec_decimal, spec_signed_decimal};
use crate::text::{
    push_all, push_text, replace, same_text, spec_replace, strings, text_of, to_chars, to_text,
};
use vstd::prelude::*;

verus! {

// ---------------------------------------------------------------------------
// Contracts
// ---------------------------------------------------------------------------

/// What stands in a contract; nothing in a text that is no document.
pub open spec fn contract_of(config: Option<serde_json::Value>) -> Map<Seq<char>, LeafView> {
    match config {
        Some(value) => contents(value),
        None => Map::empty(),
    }
}

/// What stands in the contract that a text is.
pub open spec fn contract(text: Seq<char>) -> Map<Seq<char>, LeafView> {
    match document(text) {
        Some(m) => m,
        None => Map::empty(),
    }
}

/// The text at a pointer.
pub open spec fn text_at(m: Map<Seq<char>, LeafView>, pointer: Seq<char>) -> Option<Seq<char>> {
    match leaf_at(m, pointer) {
        Some(LeafView::Text(t)) => Some(t),
        _ => None,
    }
}

/// The length of the list at a pointer.
pub open spec fn list_at(m: Map<Seq<char>, LeafView>, pointer: Seq<char>) -> Option<usize> {
    match leaf_at(m, pointer) {
        Some(LeafView::List(n)) => Some(n),
        _ => None,
    }
}

/// Whether a number is at a pointer.
pub open spec fn number_at(m: Map<Seq<char>, LeafView>, pointer: Seq<char>) -> bool {
    match leaf_at(m, pointer) {
        Some(LeafView::Number { .. }) => true,
        _ => false,
    }
}

/// The keys of the object at a pointer; none where there is no object.
pub open spec fn keys_at(m: Map<Seq<char>, LeafView>, pointer: Seq<char>) -> Seq<Seq<char>> {
    match leaf_at(m, pointer) {
        Some(LeafView::Object(keys)) => keys,
        _ => seq![],
    }
}

/// The color at a pointer, its alpha in the highest byte; a blue where there is
/// none.
pub open spec fn color_at(m: Map<Seq<char>, LeafView>, pointer: Seq<char>) -> u32 {
    match leaf_at(m, pointer) {
        Some(LeafView::Number { unsigned: Some(n), .. }) => n as u32,
        _ => 0xff4c5fef,
    }
}

/// A name as a step of a JSON pointer.
pub open spec fn step(name: Seq<char>) -> Seq<char> {
    spec_replace(spec_replace(name, "~"@, "~0"@), "/"@, "~1"@)
}

/// Where the child of a role is named.
pub open spec fn role(name: Seq<char>) -> Seq<char> {
    "/bindings/"@ + step(name)
}

/// The child of a role: a role is one key of the bindings, and there are none where
/// these are no object.
pub open spec fn child_of(m: Map<Seq<char>, LeafView>, name: Seq<char>) -> Option<Seq<char>> {
    match leaf_at(m, "/bindings"@) {
        Some(LeafView::Object(_)) => text_at(m, role(name)),
        _ => None,
    }
}

/// Where a part of an item is described.
pub open spec fn item_part(i: int, part: Seq<char>) -> Seq<char> {
    "/items/"@ + spec_decimal(i as nat) + "/"@ + part
}

/// An element of a list.
pub open spec fn element(list: Seq<char>, k: int) -> Seq<char> {
    list + "/"@ + spec_decimal(k as nat)
}

/// Where the child of a named action is named.
pub open spec fn action_part(name: Seq<char>) -> Seq<char> {
    "/action_bindings/"@ + step(name)
}

fn look_in(config: &Option<serde_json::Value>, pointer: &str) -> (r: Option<JsonLeaf>)
    ensures
        match r {
            Some(leaf) => leaf_at(contract_of(*config), pointer@) == Some(leaf@),
            None => leaf_at(contract_of(*config), pointer@) is None,
        },
{
    match config {
        Some(value) => look(value, pointer),
        None => None,
    }
}

fn find_text(config: &Option<serde_json::Value>, pointer: &str) -> (r: Option<String>)
    ensures
        text_of(r) == text_at(contract_of(*config), pointer@),
{
    match look_in(config, pointer) {
        Some(JsonLeaf::Text(t)) => Some(t),
        _ => None,
    }
}

fn find_list(config: &Option<serde_json::Value>, pointer: &str) -> (r: Option<usize>)
    ensures
        r == list_at(contract_of(*config), pointer@),
{
    match look_in(config, pointer) {
        Some(JsonLeaf::List(n)) => Some(n),
        _ => None,
    }
}

fn find_keys(config: &Option<serde_json::Value>, pointer: &str) -> (r: Vec<String>)
    ensures
        strings(r@) == keys_at(contract_of(*config), pointer@),
{
    match look_in(config, pointer) {
        Some(JsonLeaf::Object(keys)) => keys,
        _ => {
            let none: Vec<String> = Vec::new();
            assert(strings(none@) =~= seq![]);
            none
        },
    }
}

/// The color that a contract gives, and whether it gives a number.
fn find_color(config: &Option<serde_json::Value>, pointer: &str) -> (r: (bool, u32))
    ensures
        r.0 == number_at(contract_of(*config), pointer@),
        r.1 == color_at(contract_of(*config), pointer@),
{
    match look_in(config, pointer) {
        Some(JsonLeaf::Number { unsigned, .. }) => match unsigned {
            Some(n) => (
                true,
                #[verifier::truncate]
                (n as u32),
            ),
            None => (true, 0xff4c5fef),
        },
        _ => (false, 0xff4c5fef),
    }
}

/// A name under a pointer.
fn step_pointer(list: &str, name: &str) -> (r: String)
    ensures
        r@ == list@ + step(name@),
{
    proof {
        reveal_strlit("~");
        reveal_strlit("/");
    }
    let chars = to_chars(name);
    let tilde = replace(chars.as_slice(), "~", "~0");
    let slash = replace(tilde.as_slice(), "/", "~1");
    let mut out: Vec<char> = Vec::new();
    push_text(&mut out, list);
    push_all(&mut out, slash.as_slice());
    assert(out@ =~= list@ + step(name@));
    to_text(out.as_slice())
}

fn item_pointer(i: usize, part: &str) -> (r: String)
    ensures
        r@ == item_part(i as int, part@),
{
    let n = decimal(i as u64);
    let mut out: Vec<char> = Vec::new();
    push_text(&mut out, "/items/");
    push_all(&mut out, n.as_slice());
    push_text(&mut out, "/");
    push_text(&mut out, part);
    assert(out@ =~= item_part(i as int, part@));
    to_text(out.as_slice())
}

fn element_pointer(list: &str, k: usize) -> (r: String)
    ensures
        r@ == element(list@, k as int),
{
    let n = decimal(k as u64);
    let mut out: Vec<char> = Vec::new();
    push_text(&mut out, list);
    push_text(&mut out, "/");
    push_all(&mut out, n.as_slice());
    assert(out@ =~= element(list@, k as int));
    to_text(out.as_slice())
}

fn action_pointer(name: &str) -> (r: String)
    ensures
        r@ == action_part(name@),
{
    step_pointer("/action_bindings/", name)
}

/// The bytes of a color.
#[derive(Clone, Copy, PartialEq, Eq, Structural, Debug)]
pub struct Ink {
    pub red: u8,
    pub green: u8,
    pub blue: u8,
    pub alpha: u8,
}

/// The bytes of a color whose alpha is in the highest byte.
pub fn ink(color: u32) -> (r: Ink)
    ensures
        color == r.alpha * 0x100_0000 + r.red * 0x1_0000 + r.green * 0x100 + r.blue,
{
    Ink {
        red: ((color / 0x1_0000) % 0x100) as u8,
        green: ((color / 0x100) % 0x100) as u8,
        blue: (color % 0x100) as u8,
        alpha: (color / 0x100_0000) as u8,
    }
}

// ---------------------------------------------------------------------------
// Selection
// ---------------------------------------------------------------------------

/// What a component tells the host to do to its children. A child without a name
/// is none, and nothing is done to it.
pub enum PaintCall {
    /// An item's root shows whether it is selected.
    Mark { id: Option<String>, on: bool },
    /// An item's control is on or off.
    Radio { id: Option<String>, on: bool },
    /// A surface has a color.
    Fill { id: Option<String>, color: u32 },
    /// A label or a drawing has a color.
    Ink { id: Option<String>, color: u32 },
}

pub enum PaintView {
    Mark { id: Option<Seq<char>>, on: bool },
    Radio { id: Option<Seq<char>>, on: bool },
    Fill { id: Option<Seq<char>>, color: u32 },
    Ink { id: Option<Seq<char>>, color: u32 },
}

impl View for PaintCall {
    type V = PaintView;

    open spec fn view(&self) -> PaintView {
        match self {
            PaintCall::Mark { id, on } => PaintView::Mark { id: text_of(*id), on: *on },
            PaintCall::Radio { id, on } => PaintView::Radio { id: text_of(*id), on: *on },
            PaintCall::Fill { id, color } => PaintView::Fill { id: text_of(*id), color: *color },
            PaintCall::Ink { id, color } => PaintView::Ink { id: text_of(*id), color: *color },
        }
    }
}

/// What a list of calls says.
pub open spec fn paints(v: Seq<PaintCall>) -> Seq<PaintView> {
    v.map_values(|c: PaintCall| c@)
}

/// The surfaces of a list in a color.
pub open spec fn fills(m: Map<Seq<char>, LeafView>, list: Seq<char>, n: int, color: u32) -> Seq<
    PaintView,
> {
    Seq::new(
        n as nat,
        |k: int| PaintView::Fill { id: text_at(m, element(list, k)), color },
    )
}

/// The labels and drawings of a list in a color.
pub open spec fn inks(m: Map<Seq<char>, LeafView>, list: Seq<char>, n: int, color: u32) -> Seq<
    PaintView,
> {
    Seq::new(n as nat, |k: int| PaintView::Ink { id: text_at(m, element(list, k)), color })
}

/// The surfaces of an item in the color of a key, where the contract gives it.
pub open spec fn surface_calls(m: Map<Seq<char>, LeafView>, i: int, part: Seq<char>, key: Seq<char>) -> Seq<
    PaintView,
> {
    match list_at(m, item_part(i, part)) {
        Some(n) if number_at(m, key) => fills(m, item_part(i, part), n as int, color_at(m, key)),
        _ => seq![],
    }
}

/// The labels and drawings of an item in the color of a key.
pub open spec fn paint_calls(m: Map<Seq<char>, LeafView>, i: int, key: Seq<char>) -> Seq<PaintView> {
    match list_at(m, item_part(i, "paint"@)) {
        Some(n) => inks(m, item_part(i, "paint"@), n as int, color_at(m, key)),
        None => seq![],
    }
}

/// The key of a color, for a selected item or another.
pub open spec fn key_of(on: bool, active: Seq<char>, inactive: Seq<char>) -> Seq<char> {
    if on {
        active
    } else {
        inactive
    }
}

/// How an item that is not disabled is painted.
#[verifier::opaque]
pub open spec fn item_paint(m: Map<Seq<char>, LeafView>, i: int, on: bool) -> Seq<PaintView> {
    surface_calls(m, i, "surfaces"@, key_of(on, "/active_surface"@, "/inactive_surface"@))
        + surface_calls(
        m,
        i,
        "indicators"@,
        key_of(on, "/active_indicator"@, "/inactive_indicator"@),
    ) + paint_calls(m, i, key_of(on, "/active_color"@, "/inactive_color"@))
}

/// How an item shows whether it is selected. A disabled item keeps its own paint.
#[verifier::opaque]
pub open spec fn item_calls(m: Map<Seq<char>, LeafView>, i: int, on: bool, disabled: bool) -> Seq<
    PaintView,
> {
    seq![
        PaintView::Mark { id: text_at(m, item_part(i, "root"@)), on },
        PaintView::Radio { id: text_at(m, item_part(i, "control"@)), on },
    ] + if disabled {
        seq![]
    } else {
        item_paint(m, i, on)
    }
}

/// Whether an item is disabled.
pub open spec fn disabled_at(disabled: Seq<bool>, i: int) -> bool {
    0 <= i < disabled.len() && disabled[i]
}

/// How the first `n` items show which one is selected.
pub open spec fn all_calls(
    m: Map<Seq<char>, LeafView>,
    selected: int,
    disabled: Seq<bool>,
    n: int,
) -> Seq<PaintView>
    decreases n,
{
    if n <= 0 {
        seq![]
    } else {
        all_calls(m, selected, disabled, n - 1) + item_calls(
            m,
            n - 1,
            n - 1 == selected,
            disabled_at(disabled, n - 1),
        )
    }
}

/// Whether an item, or none, can be selected.
pub open spec fn selectable(m: Map<Seq<char>, LeafView>, selected: int, disabled: Seq<bool>) -> bool {
    match list_at(m, "/items"@) {
        Some(n) => -1 <= selected < n && !disabled_at(disabled, selected),
        None => false,
    }
}

fn push_fills(
    config: &Option<serde_json::Value>,
    i: usize,
    part: &str,
    key: &str,
    out: &mut Vec<PaintCall>,
)
    ensures
        paints(final(out)@) == paints(old(out)@) + surface_calls(
            contract_of(*config),
            i as int,
            part@,
            key@,
        ),
{
    let ghost m = contract_of(*config);
    let ghost before = paints(out@);
    let (given, color) = find_color(config, key);
    let list = item_pointer(i, part);
    assert(paints(out@) =~= before + Seq::<PaintView>::empty());
    if !given {
        return;
    }
    if let Some(n) = find_list(config, list.as_str()) {
        let mut k: usize = 0;
        assert(paints(out@) =~= before + fills(m, list@, 0, color));
        while k < n
            invariant
                k <= n,
                m == contract_of(*config),
                paints(out@) == before + fills(m, list@, k as int, color),
            decreases n - k,
        {
            let ghost now = out@;
            let p = element_pointer(list.as_str(), k);
            let id = find_text(config, p.as_str());
            out.push(PaintCall::Fill { id, color });
            assert(paints(out@) =~= paints(now).push(out@.last()@));
            k = k + 1;
            assert(paints(out@) =~= before + fills(m, list@, k as int, color));
        }
    }
}

fn push_inks(config: &Option<serde_json::Value>, i: usize, key: &str, out: &mut Vec<PaintCall>)
    ensures
        paints(final(out)@) == paints(old(out)@) + paint_calls(
            contract_of(*config),
            i as int,
            key@,
        ),
{
    let ghost m = contract_of(*config);
    let ghost before = paints(out@);
    let (_, color) = find_color(config, key);
    let list = item_pointer(i, "paint");
    assert(paints(out@) =~= before + Seq::<PaintView>::empty());
    if let Some(n) = find_list(config, list.as_str()) {
        let mut k: usize = 0;
        assert(paints(out@) =~= before + inks(m, list@, 0, color));
        while k < n
            invariant
                k <= n,
                m == contract_of(*config),
                paints(out@) == before + inks(m, list@, k as int, color),
            decreases n - k,
        {
            let ghost now = out@;
            let p = element_pointer(list.as_str(), k);
            let id = find_text(config, p.as_str());
            out.push(PaintCall::Ink { id, color });
            assert(paints(out@) =~= paints(now).push(out@.last()@));
            k = k + 1;
            assert(paints(out@) =~= before + inks(m, list@, k as int, color));
        }
    }
}

fn push_item(
    config: &Option<serde_json::Value>,
    i: usize,
    on: bool,
    disabled: bool,
    out: &mut Vec<PaintCall>,
)
    ensures
        paints(final(out)@) == paints(old(out)@) + item_calls(
            contract_of(*config),
            i as int,
            on,
            disabled,
        ),
{
    reveal(item_calls);
    reveal(item_paint);
    let ghost m = contract_of(*config);
    let ghost before = paints(out@);
    let root = item_pointer(i, "root");
    let control = item_pointer(i, "control");
    let root_id = find_text(config, root.as_str());
    let control_id = find_text(config, control.as_str());
    out.push(PaintCall::Mark { id: root_id, on });
    out.push(PaintCall::Radio { id: control_id, on });
    let ghost marked = seq![
        PaintView::Mark { id: text_at(m, item_part(i as int, "root"@)), on },
        PaintView::Radio { id: text_at(m, item_part(i as int, "control"@)), on },
    ];
    assert(paints(out@) =~= before + marked);
    if disabled {
        assert(paints(out@) =~= before + (marked + Seq::<PaintView>::empty()));
        return;
    }
    if on {
        push_fills(config, i, "surfaces", "/active_surface", out);
        push_fills(config, i, "indicators", "/active_indicator", out);
        push_inks(config, i, "/active_color", out);
    } else {
        push_fills(config, i, "surfaces", "/inactive_surface", out);
        push_fills(config, i, "indicators", "/inactive_indicator", out);
        push_inks(config, i, "/inactive_color", out);
    }
    assert(paints(out@) =~= before + (marked + item_paint(m, i as int, on)));
}

pub struct Controller {
    /// The text of the contract.
    pub source: String,
    pub config: Option<serde_json::Value>,
    /// The item that is selected, or -1.
    pub selected: i64,
    /// The items are painted for another selection than the contract's.
    pub reconcile_selection: bool,
}

/// The item that a contract selects, or -1.
pub open spec fn initial_selection(m: Map<Seq<char>, LeafView>) -> i64 {
    match signed_at(m, "/selected_index"@) {
        Some(n) => n,
        None => -1i64,
    }
}

impl Controller {
    pub fn new() -> (r: Controller)
        ensures
            r.source@.len() == 0,
            r.config is None,
            r.selected == 0,
            !r.reconcile_selection,
    {
        Controller { source: String::new(), config: None, selected: 0, reconcile_selection: false }
    }

    /// What a component reads of its contract, once the contract has been read.
    pub fn read(&mut self, contract: &str, config: Option<serde_json::Value>)
        ensures
            final(self).source@ == contract@,
            final(self).config == config,
            final(self).selected == initial_selection(contract_of(config)),
            final(self).reconcile_selection == (match config {
                Some(_) => !fields_agree(
                    contract_of(config),
                    "selected_index"@,
                    "source_selected_index"@,
                ),
                None => false,
            }),
            config is Some && signed_at(contract_of(config), "/selected_index"@) is Some
                && signed_at(contract_of(config), "/source_selected_index"@) is Some
                ==> final(self).reconcile_selection == (signed_at(
                contract_of(config),
                "/selected_index"@,
            ) != signed_at(contract_of(config), "/source_selected_index"@)),
    {
        self.source = contract.to_owned();
        self.selected = match look_in(&config, "/selected_index") {
            Some(JsonLeaf::Number { signed: Some(n), .. }) => n,
            _ => -1,
        };
        proof {
            reveal_strlit("/");
            reveal_strlit("selected_index");
            reveal_strlit("source_selected_index");
            reveal_strlit("/selected_index");
            reveal_strlit("/source_selected_index");
            assert("/"@ + "selected_index"@ =~= "/selected_index"@);
            assert("/"@ + "source_selected_index"@ =~= "/source_selected_index"@);
        }
        self.reconcile_selection = match &config {
            Some(value) => !same_fields(value, "selected_index", "source_selected_index"),
            None => false,
        };
        self.config = config;
    }

    /// The component's contract is read, if it is another than before. One that is
    /// unchanged keeps the selection that the person made.
    pub fn refresh(&mut self, contract: &str)
        ensures
            contract@ == old(self).source@ ==> *final(self) == *old(self),
            contract@ != old(self).source@ ==> {
                let m = self::contract(contract@);
                &&& final(self).source@ == contract@
                &&& contract_of(final(self).config) == m
                &&& final(self).selected == initial_selection(m)
                &&& final(self).reconcile_selection == (document(contract@) is Some && !fields_agree(
                    m,
                    "selected_index"@,
                    "source_selected_index"@,
                ))
            },
    {
        if same_text(self.source.as_str(), contract) {
            return;
        }
        let config = parse(contract);
        self.read(contract, config);
    }

    /// Selects an item, or none with -1, where that can be: whether it could, and
    /// how the items show it. `disabled` says which of the items are.
    pub fn select(&mut self, selected: i64, disabled: &Vec<bool>) -> (r: (bool, Vec<PaintCall>))
        ensures
            final(self).source == old(self).source,
            final(self).config == old(self).config,
            final(self).reconcile_selection == old(self).reconcile_selection,
            ({
                let m = contract_of(old(self).config);
                &&& r.0 == selectable(m, selected as int, disabled@)
                &&& r.0 ==> final(self).selected == selected && paints(r.1@) == all_calls(
                    m,
                    selected as int,
                    disabled@,
                    list_at(m, "/items"@)->0 as int,
                )
                &&& !r.0 ==> final(self).selected == old(self).selected && r.1@.len() == 0
            }),
    {
        let ghost m = contract_of(self.config);
        let mut out: Vec<PaintCall> = Vec::new();
        let n = match find_list(&self.config, "/items") {
            Some(n) => n,
            None => {
                return (false, out);
            },
        };
        if selected < -1 || selected as i128 >= n as i128 {
            return (false, out);
        }
        if selected >= 0 && (selected as usize) < disabled.len() && disabled[selected as usize] {
            return (false, out);
        }
        self.selected = selected;
        let mut i: usize = 0;
        assert(paints(out@) =~= all_calls(m, selected as int, disabled@, 0));
        while i < n
            invariant
                i <= n,
                m == contract_of(self.config),
                self.config == old(self).config,
                self.source == old(self).source,
                self.reconcile_selection == old(self).reconcile_selection,
                self.selected == selected,
                paints(out@) == all_calls(m, selected as int, disabled@, i as int),
            decreases n - i,
        {
            let on = i as i128 == selected as i128;
            let off = i < disabled.len() && disabled[i];
            push_item(&self.config, i, on, off, &mut out);
            i = i + 1;
        }
        (true, out)
    }
}

// ---------------------------------------------------------------------------
// Events
// ---------------------------------------------------------------------------

/// What a component reports.
pub enum KitAction {
    Activated,
    Action(String),
    Changed(String),
    Selected(usize),
    Nothing,
}

pub enum ActionView {
    Activated,
    Action(Seq<char>),
    Changed(Seq<char>),
    Selected(int),
    Nothing,
}

impl View for KitAction {
    type V = ActionView;

    open spec fn view(&self) -> ActionView {
        match self {
            KitAction::Activated => ActionView::Activated,
            KitAction::Action(name) => ActionView::Action(name@),
            KitAction::Changed(text) => ActionView::Changed(text@),
            KitAction::Selected(i) => ActionView::Selected(*i as int),
            KitAction::Nothing => ActionView::Nothing,
        }
    }
}

/// What a list of reports says.
pub open spec fn reports(v: Seq<KitAction>) -> Seq<ActionView> {
    v.map_values(|a: KitAction| a@)
}

/// Whether a child is among some children.
pub open spec fn among(id: Option<Seq<char>>, ids: Seq<Seq<char>>) -> bool {
    match id {
        Some(t) => ids.contains(t),
        None => false,
    }
}

/// Reports of the first `n` named actions whose child was activated.
pub open spec fn named_actions(
    m: Map<Seq<char>, LeafView>,
    activated: Seq<Seq<char>>,
    n: int,
) -> Seq<ActionView>
    decreases n,
{
    if n <= 0 {
        seq![]
    } else {
        let name = keys_at(m, "/action_bindings"@)[n - 1];
        let before = named_actions(m, activated, n - 1);
        if among(text_at(m, action_part(name)), activated) {
            before.push(ActionView::Action(name))
        } else {
            before
        }
    }
}

/// The first item, `from` or later, whose control was activated.
pub open spec fn chosen_item(
    m: Map<Seq<char>, LeafView>,
    activated: Seq<Seq<char>>,
    n: int,
    from: int,
) -> Option<int>
    decreases n - from,
{
    if from < 0 || from >= n {
        None
    } else if among(text_at(m, item_part(from, "control"@)), activated) {
        Some(from)
    } else {
        chosen_item(m, activated, n, from + 1)
    }
}

/// The item that was chosen, of those that there are.
pub open spec fn chosen(m: Map<Seq<char>, LeafView>, activated: Seq<Seq<char>>) -> Option<int> {
    match list_at(m, "/items"@) {
        Some(n) => chosen_item(m, activated, n as int, 0),
        None => None,
    }
}

/// What a component reports of an event: `activated` are the children that were,
/// `before` and `after` are its content's text.
pub open spec fn event_reports(
    m: Map<Seq<char>, LeafView>,
    activated: Seq<Seq<char>>,
    disabled: Seq<bool>,
    before: Seq<char>,
    after: Seq<char>,
) -> Seq<ActionView> {
    let control = if among(child_of(m, "control"@), activated) {
        seq![ActionView::Activated]
    } else {
        seq![]
    };
    let named = named_actions(m, activated, keys_at(m, "/action_bindings"@).len() as int);
    let selected = match chosen(m, activated) {
        Some(i) if i <= i64::MAX && selectable(m, i, disabled) => seq![ActionView::Selected(i)],
        _ => seq![],
    };
    let changed = if before != after && child_of(m, "input"@) is Some {
        seq![ActionView::Changed(after)]
    } else {
        seq![]
    };
    control + named + selected + changed
}

fn is_among(id: &Option<String>, ids: &Vec<String>) -> (r: bool)
    ensures
        r == among(text_of(*id), strings(ids@)),
{
    let t = match id {
        Some(t) => t,
        None => {
            return false;
        },
    };
    let mut i: usize = 0;
    while i < ids.len()
        invariant
            i <= ids.len(),
            *id == Some(*t),
            forall|j: int| 0 <= j < i ==> (#[trigger] ids@[j])@ != t@,
        decreases ids.len() - i,
    {
        if same_text(ids[i].as_str(), t.as_str()) {
            assert(strings(ids@)[i as int] == t@);
            return true;
        }
        i = i + 1;
    }
    assert forall|j: int| 0 <= j < strings(ids@).len() implies strings(ids@)[j] != t@ by {
        assert(ids@[j]@ != t@);
    }
    false
}

/// What a component does on an event.
pub struct EventAnswer {
    pub reports: Vec<KitAction>,
    /// How the items show a new selection.
    pub paint: Vec<PaintCall>,
}

/// Whether a component takes an event: one that is off takes only those that do
/// not need it to be seen.
pub fn takes_event(enabled: bool, requires_visibility: bool) -> (r: bool)
    ensures
        r == (enabled || !requires_visibility),
{
    enabled || !requires_visibility
}

impl Controller {
    fn bound(&self, name: &str) -> (r: Option<String>)
        ensures
            text_of(r) == child_of(contract_of(self.config), name@),
    {
        match look_in(&self.config, "/bindings") {
            Some(JsonLeaf::Object(_)) => {
                let p = step_pointer("/bindings/", name);
                find_text(&self.config, p.as_str())
            },
            _ => None,
        }
    }

    fn action_reports(&self, activated: &Vec<String>, out: &mut Vec<KitAction>)
        ensures
            reports(final(out)@) == reports(old(out)@) + named_actions(
                contract_of(self.config),
                strings(activated@),
                keys_at(contract_of(self.config), "/action_bindings"@).len() as int,
            ),
    {
        let ghost m = contract_of(self.config);
        let ghost before = reports(out@);
        let names = find_keys(&self.config, "/action_bindings");
        assert(strings(names@).len() == names@.len());
        let mut i: usize = 0;
        assert(reports(out@) =~= before + named_actions(m, strings(activated@), 0));
        while i < names.len()
            invariant
                i <= names.len(),
                m == contract_of(self.config),
                strings(names@) == keys_at(m, "/action_bindings"@),
                reports(out@) == before + named_actions(m, strings(activated@), i as int),
            decreases names.len() - i,
        {
            let ghost now = out@;
            assert(strings(names@)[i as int] == names@[i as int]@);
            let p = action_pointer(names[i].as_str());
            let id = find_text(&self.config, p.as_str());
            if is_among(&id, activated) {
                out.push(KitAction::Action(names[i].clone()));
                assert(reports(out@) =~= reports(now).push(ActionView::Action(names@[i as int]@)));
            }
            i = i + 1;
            assert(reports(out@) =~= before + named_actions(m, strings(activated@), i as int));
        }
    }

    fn chosen_control(&self, activated: &Vec<String>) -> (r: Option<usize>)
        ensures
            match r {
                Some(i) => chosen(contract_of(self.config), strings(activated@)) == Some(i as int),
                None => chosen(contract_of(self.config), strings(activated@)) is None,
            },
    {
        let ghost m = contract_of(self.config);
        let n = match find_list(&self.config, "/items") {
            Some(n) => n,
            None => {
                return None;
            },
        };
        let mut i: usize = 0;
        while i < n
            invariant
                i <= n,
                m == contract_of(self.config),
                list_at(m, "/items"@) == Some(n),
                chosen(m, strings(activated@)) == chosen_item(
                    m,
                    strings(activated@),
                    n as int,
                    i as int,
                ),
            decreases n - i,
        {
            let p = item_pointer(i, "control");
            let id = find_text(&self.config, p.as_str());
            if is_among(&id, activated) {
                return Some(i);
            }
            i = i + 1;
        }
        None
    }

    /// An event has reached the component's children. `activated` are those that
    /// were, `disabled` says which items are, and `before` and `after` are the text
    /// of the component's content before the event and after it.
    pub fn event(
        &mut self,
        activated: &Vec<String>,
        disabled: &Vec<bool>,
        before: &str,
        after: &str,
    ) -> (r: EventAnswer)
        ensures
            final(self).source == old(self).source,
            final(self).config == old(self).config,
            final(self).reconcile_selection == old(self).reconcile_selection,
            ({
                let m = contract_of(old(self).config);
                let ids = strings(activated@);
                &&& reports(r.reports@) == event_reports(m, ids, disabled@, before@, after@)
                &&& match chosen(m, ids) {
                    Some(i) if i <= i64::MAX && selectable(m, i, disabled@) => final(self).selected == i && paints(
                        r.paint@,
                    ) == all_calls(m, i, disabled@, list_at(m, "/items"@)->0 as int),
                    _ => final(self).selected == old(self).selected && r.paint@.len() == 0,
                }
            }),
    {
        let ghost m = contract_of(self.config);
        let ghost ids = strings(activated@);
        let mut out: Vec<KitAction> = Vec::new();
        let mut paint: Vec<PaintCall> = Vec::new();
        let ghost control = if among(child_of(m, "control"@), ids) {
            seq![ActionView::Activated]
        } else {
            seq![]
        };
        let id = self.bound("control");
        if is_among(&id, activated) {
            out.push(KitAction::Activated);
        }
        assert(reports(out@) =~= control);
        self.action_reports(activated, &mut out);
        let ghost named_ones = named_actions(m, ids, keys_at(m, "/action_bindings"@).len() as int);
        let ghost selected = match chosen(m, ids) {
            Some(i) if i <= i64::MAX && selectable(m, i, disabled@) => seq![ActionView::Selected(i)],
            _ => seq![],
        };
        let ghost so_far = out@;
        if let Some(i) = self.chosen_control(activated) {
            proof {
                chosen_in_range(m, ids, list_at(m, "/items"@)->0 as int, 0);
            }
            if i as u128 <= i64::MAX as u128 {
                let (ok, calls) = self.select(i as i64, disabled);
                if ok {
                    paint = calls;
                    out.push(KitAction::Selected(i));
                    assert(reports(out@) =~= reports(so_far).push(ActionView::Selected(i as int)));
                }
            }
        }
        assert(reports(out@) =~= control + named_ones + selected);
        let ghost so_far = out@;
        let input = self.bound("input");
        if input.is_some() && !same_text(before, after) {
            out.push(KitAction::Changed(after.to_owned()));
            assert(reports(out@) =~= reports(so_far).push(ActionView::Changed(after@)));
        }
        assert(reports(out@) =~= event_reports(m, ids, disabled@, before@, after@));
        EventAnswer { reports: out, paint }
    }
}

proof fn chosen_in_range(m: Map<Seq<char>, LeafView>, activated: Seq<Seq<char>>, n: int, from: int)
    requires
        0 <= from,
    ensures
        chosen_item(m, activated, n, from) matches Some(i) ==> from <= i < n,
    decreases n - from,
{
    if from < n {
        chosen_in_range(m, activated, n, from + 1);
    }
}

// ---------------------------------------------------------------------------
// Public state
// ---------------------------------------------------------------------------

/// The child that holds a component's content: of those that are mounted, its
/// input, else its title, else its label.
pub open spec fn content_of(m: Map<Seq<char>, LeafView>, mounted: Seq<Seq<char>>) -> Option<Seq<char>> {
    if among(child_of(m, "input"@), mounted) {
        child_of(m, "input"@)
    } else if among(child_of(m, "title"@), mounted) {
        child_of(m, "title"@)
    } else if among(child_of(m, "label"@), mounted) {
        child_of(m, "label"@)
    } else {
        None
    }
}

/// A child that is turned off or on.
pub struct Disabling {
    pub id: Option<String>,
    pub disabled: bool,
}

pub struct DisablingView {
    pub id: Option<Seq<char>>,
    pub disabled: bool,
}

impl View for Disabling {
    type V = DisablingView;

    open spec fn view(&self) -> DisablingView {
        DisablingView { id: text_of(self.id), disabled: self.disabled }
    }
}

/// What a list of such children says.
pub open spec fn disablings(v: Seq<Disabling>) -> Seq<DisablingView> {
    v.map_values(|d: Disabling| d@)
}

/// Whether an item is off in the design.
pub open spec fn source_disabled(m: Map<Seq<char>, LeafView>, i: int) -> bool {
    leaf_at(m, item_part(i, "source_enabled"@)) == Some(LeafView::Bool(false))
}

/// The children that are turned off or on with a component: those that it acts
/// with, and the items, but for those that are off in the design.
pub open spec fn all_disablings(m: Map<Seq<char>, LeafView>, disabled: bool) -> Seq<DisablingView> {
    let names = keys_at(m, "/action_bindings"@);
    seq![
        DisablingView { id: child_of(m, "control"@), disabled },
        DisablingView { id: child_of(m, "input"@), disabled },
    ] + Seq::new(
        names.len(),
        |k: int| DisablingView { id: text_at(m, action_part(names[k])), disabled },
    ) + (match list_at(m, "/items"@) {
        Some(n) => Seq::new(
            n as nat,
            |k: int|
                DisablingView {
                    id: text_at(m, item_part(k, "control"@)),
                    disabled: disabled || source_disabled(m, k),
                },
        ),
        None => seq![],
    })
}

/// What is drawn of a component.
pub struct DrawAnswer {
    /// The component is drawn in an overlay.
    pub overlay: bool,
    /// How the items show the selection, where they are painted for another.
    pub paint: Vec<PaintCall>,
}

impl Controller {
    /// The child that holds the component's content, of those that are mounted.
    pub fn content(&self, mounted: &Vec<String>) -> (r: Option<String>)
        ensures
            text_of(r) == content_of(contract_of(self.config), strings(mounted@)),
    {
        let input = self.bound("input");
        if is_among(&input, mounted) {
            return input;
        }
        let title = self.bound("title");
        if is_among(&title, mounted) {
            return title;
        }
        let label = self.bound("label");
        if is_among(&label, mounted) {
            return label;
        }
        None
    }

    /// The child of a role whose text is set, if it is mounted.
    pub fn set_content(&self, name: &str, mounted: &Vec<String>) -> (r: Option<String>)
        ensures
            text_of(r) == if among(
                child_of(contract_of(self.config), name@),
                strings(mounted@),
            ) {
                child_of(contract_of(self.config), name@)
            } else {
                None
            },
    {
        let id = self.bound(name);
        if is_among(&id, mounted) {
            id
        } else {
            None
        }
    }

    /// Selects an item by its place.
    pub fn select_index(&mut self, index: usize, disabled: &Vec<bool>) -> (r: (bool, Vec<PaintCall>))
        ensures
            final(self).source == old(self).source,
            final(self).config == old(self).config,
            final(self).reconcile_selection == old(self).reconcile_selection,
            ({
                let m = contract_of(old(self).config);
                &&& r.0 == (index <= i64::MAX && selectable(m, index as int, disabled@))
                &&& r.0 ==> final(self).selected == index && paints(r.1@) == all_calls(
                    m,
                    index as int,
                    disabled@,
                    list_at(m, "/items"@)->0 as int,
                )
                &&& !r.0 ==> final(self).selected == old(self).selected && r.1@.len() == 0
            }),
    {
        if index as u128 > i64::MAX as u128 {
            return (false, Vec::new());
        }
        self.select(index as i64, disabled)
    }

    /// The component is drawn; `glass` is whether it is see-through, and
    /// `in_overlay` whether an overlay is being drawn.
    pub fn draw(&mut self, glass: bool, in_overlay: bool, disabled: &Vec<bool>) -> (r: DrawAnswer)
        ensures
            r.overlay == (glass && !in_overlay),
            final(self).source == old(self).source,
            final(self).config == old(self).config,
            !final(self).reconcile_selection,
            final(self).selected == old(self).selected,
            ({
                let m = contract_of(old(self).config);
                paints(r.paint@) == if old(self).reconcile_selection && selectable(
                    m,
                    old(self).selected as int,
                    disabled@,
                ) {
                    all_calls(
                        m,
                        old(self).selected as int,
                        disabled@,
                        list_at(m, "/items"@)->0 as int,
                    )
                } else {
                    seq![]
                }
            }),
    {
        let overlay = glass && !in_overlay;
        let mut paint: Vec<PaintCall> = Vec::new();
        assert(paints(paint@) =~= seq![]);
        if self.reconcile_selection {
            self.reconcile_selection = false;
            let (_, calls) = self.select(self.selected, disabled);
            paint = calls;
            if paint.len() == 0 {
                assert(paints(paint@) =~= seq![]);
            }
        }
        DrawAnswer { overlay, paint }
    }

    /// The child whose being off turns the component off: its input, else its
    /// control.
    pub fn primary(&self) -> (r: Option<String>)
        ensures
            text_of(r) == match child_of(contract_of(self.config), "input"@) {
                Some(id) => Some(id),
                None => child_of(contract_of(self.config), "control"@),
            },
    {
        match self.bound("input") {
            Some(id) => Some(id),
            None => self.bound("control"),
        }
    }

    /// Whether the component is off; `primary_disabled` is whether its primary
    /// child is.
    pub fn disabled(&self, enabled: bool, primary_disabled: bool) -> (r: bool)
        ensures
            r == (!enabled || (primary_disabled && (child_of(contract_of(self.config), "input"@) is Some || child_of(contract_of(self.config), "control"@) is Some))),
    {
        !enabled || (primary_disabled && self.primary().is_some())
    }

    /// The children that are turned off or on with the component.
    pub fn set_disabled(&self, disabled: bool) -> (r: Vec<Disabling>)
        ensures
            disablings(r@) == all_disablings(contract_of(self.config), disabled),
    {
        let ghost m = contract_of(self.config);
        let ghost keys = keys_at(m, "/action_bindings"@);
        let mut out: Vec<Disabling> = Vec::new();
        let control = self.bound("control");
        out.push(Disabling { id: control, disabled });
        let input = self.bound("input");
        out.push(Disabling { id: input, disabled });
        let ghost first = seq![
            DisablingView { id: child_of(m, "control"@), disabled },
            DisablingView { id: child_of(m, "input"@), disabled },
        ];
        let ghost second = Seq::new(
            keys.len(),
            |k: int| DisablingView { id: text_at(m, action_part(keys[k])), disabled },
        );
        assert(disablings(out@) =~= first);
        let names = find_keys(&self.config, "/action_bindings");
        assert(strings(names@).len() == names@.len());
        let mut i: usize = 0;
        assert(disablings(out@) =~= first + second.take(0));
        while i < names.len()
            invariant
                i <= names.len(),
                m == contract_of(self.config),
                keys == keys_at(m, "/action_bindings"@),
                strings(names@) == keys,
                names@.len() == keys.len(),
                second == Seq::new(
                    keys.len(),
                    |k: int| DisablingView { id: text_at(m, action_part(keys[k])), disabled },
                ),
                disablings(out@) == first + second.take(i as int),
            decreases names.len() - i,
        {
            let ghost now = out@;
            assert(strings(names@)[i as int] == names@[i as int]@);
            let p = action_pointer(names[i].as_str());
            let id = find_text(&self.config, p.as_str());
            out.push(Disabling { id, disabled });
            assert(disablings(out@) =~= disablings(now).push(second[i as int]));
            i = i + 1;
            assert(disablings(out@) =~= first + second.take(i as int));
        }
        assert(second.take(i as int) =~= second);
        let ghost rest = first + second;
        if let Some(n) = find_list(&self.config, "/items") {
            let ghost third = Seq::new(
                n as nat,
                |k: int|
                    DisablingView {
                        id: text_at(m, item_part(k, "control"@)),
                        disabled: disabled || source_disabled(m, k),
                    },
            );
            let mut k: usize = 0;
            assert(disablings(out@) =~= rest + third.take(0));
            while k < n
                invariant
                    k <= n,
                    m == contract_of(self.config),
                    third == Seq::new(
                        n as nat,
                        |k: int|
                            DisablingView {
                                id: text_at(m, item_part(k, "control"@)),
                                disabled: disabled || source_disabled(m, k),
                            },
                    ),
                    disablings(out@) == rest + third.take(k as int),
                decreases n - k,
            {
                let ghost now = out@;
                let p = item_pointer(k, "control");
                let id = find_text(&self.config, p.as_str());
                let q = item_pointer(k, "source_enabled");
                let off = match look_in(&self.config, q.as_str()) {
                    Some(JsonLeaf::Bool(on)) => !on,
                    _ => false,
                };
                out.push(Disabling { id, disabled: disabled || off });
                assert(disablings(out@) =~= disablings(now).push(third[k as int]));
                k = k + 1;
                assert(disablings(out@) =~= rest + third.take(k as int));
            }
            assert(third.take(k as int) =~= third);
            assert(disablings(out@) =~= all_disablings(m, disabled));
        } else {
            assert(disablings(out@) =~= all_disablings(m, disabled));
        }
        out
    }

    /// What the component's selection reads as: the place of the selected item;
    /// for a component without items, whether its own view is selected.
    pub fn selected_value(&self, view_selected: Option<bool>) -> (r: Option<String>)
        ensures
            text_of(r) == if list_at(contract_of(self.config), "/items"@) is Some {
                Some(spec_signed_decimal(self.selected as int))
            } else {
                match view_selected {
                    Some(true) => Some("true"@),
                    Some(false) => Some("false"@),
                    None => None,
                }
            },
    {
        if find_list(&self.config, "/items").is_some() {
            let n = signed_decimal(self.selected);
            return Some(to_text(n.as_slice()));
        }
        match view_selected {
            Some(on) => {
                if on {
                    Some("true".to_owned())
                } else {
                    Some("false".to_owned())
                }
            },
            None => None,
        }
    }

    /// Whether a person can act on the component.
    pub fn is_interactive(&self, enabled: bool) -> (r: bool)
        ensures
            r == (enabled && (list_at(contract_of(self.config), "/items"@) is Some || child_of(contract_of(self.config), "control"@) is Some || child_of(contract_of(self.config), "input"@) is Some)),
    {
        enabled && (find_list(&self.config, "/items").is_some() || self.bound("control").is_some()
            || self.bound("input").is_some())
    }
}

impl KitAction {
    pub fn activated(&self) -> (r: bool)
        ensures
            r == (self is Activated),
    {
        match self {
            KitAction::Activated => true,
            _ => false,
        }
    }

    pub fn changed(&self) -> (r: Option<&String>)
        ensures
            r == match self {
                KitAction::Changed(text) => Some(text),
                _ => None,
            },
    {
        match self {
            KitAction::Changed(text) => Some(text),
            _ => None,
        }
    }

    pub fn action(&self) -> (r: Option<&String>)
        ensures
            r == match self {
                KitAction::Action(name) => Some(name),
                _ => None,
            },
    {
        match self {
            KitAction::Action(name) => Some(name),
            _ => None,
        }
    }

    pub fn selected(&self) -> (r: Option<usize>)
        ensures
            r == match *self {
                KitAction::Selected(index) => Some(index),
                _ => None,
            },
    {
        match self {
            KitAction::Selected(index) => Some(*index),
            _ => None,
        }
    }
}

/// A draw list that is cleared, with the generations of what is recorded next.
#[derive(Clone, Copy, PartialEq, Eq, Structural, Debug)]
pub struct ClearedOverlay {
    pub list: u64,
    pub redraw_id: u64,
    pub recording_gen: u64,
    pub uniforms_gen: u64,
}

/// The counter of the generations of what is drawn.
pub struct Generations {
    pub last: u64,
}

/// The overlay of a component that is retired is cleared before another screen is
/// mounted. It takes generations that were not used before, so that nothing
/// attaches again to what was cleared.
pub fn retire_overlay(overlay: Option<u64>, redraw_id: u64, generations: &mut Generations) -> (r:
    Option<ClearedOverlay>)
    requires
        old(generations).last <= u64::MAX - 2,
    ensures
        match overlay {
            Some(list) => r == Some(
                ClearedOverlay {
                    list,
                    redraw_id,
                    recording_gen: (old(generations).last + 1) as u64,
                    uniforms_gen: (old(generations).last + 2) as u64,
                },
            ) && final(generations).last == old(generations).last + 2,
            None => r is None && *final(generations) == *old(generations),
        },
{
    match overlay {
        Some(list) => {
            let recording_gen: u64 = generations.last + 1;
            let uniforms_gen: u64 = recording_gen + 1;
            generations.last = uniforms_gen;
            Some(ClearedOverlay { list, redraw_id, recording_gen, uniforms_gen })
        },
        None => None,
    }
}

/// A disabled item keeps its own paint when another is selected: it only shows
/// whether it is selected.
pub proof fn a_disabled_item_keeps_its_paint(m: Map<Seq<char>, LeafView>, i: int, on: bool, k: int)
    requires
        0 <= k < item_calls(m, i, on, true).len(),
    ensures
        item_calls(m, i, on, true)[k] is Mark || item_calls(m, i, on, true)[k] is Radio,
{
    reveal(item_calls);
}

/// Exactly the selected item shows that it is selected.
pub proof fn one_item_shows_the_selection(
    m: Map<Seq<char>, LeafView>,
    selected: int,
    disabled: Seq<bool>,
    n: int,
    k: int,
)
    requires
        0 <= k < all_calls(m, selected, disabled, n).len(),
    ensures
        all_calls(m, selected, disabled, n)[k] matches PaintView::Mark { id, on } ==> exists|i: int|
            0 <= i < n && on == (i == selected) && id == #[trigger] text_at(
                m,
                item_part(i, "root"@),
            ),
    decreases n,
{
    reveal(item_calls);
    reveal(item_paint);
    if n > 0 {
        let before = all_calls(m, selected, disabled, n - 1);
        let last = item_calls(m, n - 1, n - 1 == selected, disabled_at(disabled, n - 1));
        if k < before.len() {
            one_item_shows_the_selection(m, selected, disabled, n - 1, k);
            assert(all_calls(m, selected, disabled, n)[k] == before[k]);
        } else {
            assert(all_calls(m, selected, disabled, n)[k] == last[k - before.len()]);
            let i = n - 1;
            assert(text_at(m, item_part(i, "root"@)) == text_at(m, item_part(i, "root"@)));
        }
    }
}

proof fn first_of_items(m: Map<Seq<char>, LeafView>, activated: Seq<Seq<char>>, n: int, from: int, i: int)
    requires
        0 <= from <= i < n,
        among(text_at(m, item_part(i, "control"@)), activated),
        forall|j: int|
            from <= j < i ==> !among(
                #[trigger] text_at(m, item_part(j, "control"@)),
                activated,
            ),
    ensures
        chosen_item(m, activated, n, from) == Some(i),
    decreases i - from,
{
    if from < i {
        assert(!among(text_at(m, item_part(from, "control"@)), activated));
        first_of_items(m, activated, n, from + 1, i);
    }
}

/// An item whose control is activated is reported as selected, unless it is disabled or one
/// before it is activated too.
pub proof fn an_activated_item_is_selected(
    m: Map<Seq<char>, LeafView>,
    activated: Seq<Seq<char>>,
    disabled: Seq<bool>,
    text: Seq<char>,
    n: usize,
    i: int,
)
    requires
        list_at(m, "/items"@) == Some(n),
        0 <= i < n,
        i <= i64::MAX,
        among(text_at(m, item_part(i, "control"@)), activated),
        forall|j: int|
            0 <= j < i ==> !among(#[trigger] text_at(m, item_part(j, "control"@)), activated),
    ensures
        !(i < disabled.len() && disabled[i]) ==> event_reports(m, activated, disabled, text, text)
            .contains(ActionView::Selected(i)),
        i < disabled.len() && disabled[i] ==> forall|k: int|
            0 <= k < event_reports(m, activated, disabled, text, text).len()
                ==> !(#[trigger] event_reports(m, activated, disabled, text, text)[k] is Selected),
{
    first_of_items(m, activated, n as int, 0, i);
    let all = event_reports(m, activated, disabled, text, text);
    let names = keys_at(m, "/action_bindings"@).len() as int;
    named_reports_are_actions(m, activated, names);
    if !(i < disabled.len() && disabled[i]) {
        assert(all.last() == ActionView::Selected(i));
    }
}

proof fn named_reports_are_actions(m: Map<Seq<char>, LeafView>, activated: Seq<Seq<char>>, n: int)
    ensures
        forall|k: int|
            0 <= k < named_actions(m, activated, n).len() ==> (#[trigger] named_actions(
                m,
                activated,
                n,
            )[k]) is Action,
    decreases n,
{
    if n > 0 {
        named_reports_are_actions(m, activated, n - 1);
    }
}

/// A text that changed is reported as it is now, where there is an input; where nothing was
/// activated and no text changed, nothing is reported.
pub proof fn a_changed_text_is_reported(
    m: Map<Seq<char>, LeafView>,
    activated: Seq<Seq<char>>,
    disabled: Seq<bool>,
    before: Seq<char>,
    after: Seq<char>,
)
    ensures
        before != after && child_of(m, "input"@) is Some ==> event_reports(
            m,
            activated,
            disabled,
            before,
            after,
        ).len() > 0 && event_reports(m, activated, disabled, before, after).last()
            == ActionView::Changed(after),
        event_reports(m, Seq::empty(), disabled, before, before).len() == 0,
        child_of(m, "input"@) is None ==> event_reports(m, activated, disabled, before, after)
            == event_reports(m, activated, disabled, after, after),
{
    let names = keys_at(m, "/action_bindings"@).len() as int;
    nothing_activated(m, names);
    let none = Seq::<Seq<char>>::empty();
    if let Some(n) = list_at(m, "/items"@) {
        nothing_chosen(m, n as int, 0);
    }
    if let Some(id) = child_of(m, "control"@) {
        assert(!none.contains(id));
    }
}

proof fn nothing_activated(m: Map<Seq<char>, LeafView>, n: int)
    ensures
        named_actions(m, Seq::empty(), n).len() == 0,
    decreases n,
{
    if n > 0 {
        nothing_activated(m, n - 1);
        let none = Seq::<Seq<char>>::empty();
        let name = keys_at(m, "/action_bindings"@)[n - 1];
        if let Some(id) = text_at(m, action_part(name)) {
            assert(!none.contains(id));
        }
    }
}

proof fn nothing_chosen(m: Map<Seq<char>, LeafView>, n: int, from: int)
    requires
        0 <= from,
    ensures
        chosen_item(m, Seq::empty(), n, from) is None,
    decreases n - from,
{
    if from < n {
        let none = Seq::<Seq<char>>::empty();
        if let Some(id) = text_at(m, item_part(from, "control"@)) {
            assert(!none.contains(id));
        }
        nothing_chosen(m, n, from + 1);
    }
}

/// An item that is selected has the active colors and every other the inactive ones.
pub proof fn items_have_the_colors_of_their_state(m: Map<Seq<char>, LeafView>, i: int, on: bool, k: int)
    requires
        0 <= k < item_paint(m, i, on).len(),
    ensures
        ({
            let (surface, indicator, ink) = if on {
                (
                    color_at(m, "/active_surface"@),
                    color_at(m, "/active_indicator"@),
                    color_at(m, "/active_color"@),
                )
            } else {
                (
                    color_at(m, "/inactive_surface"@),
                    color_at(m, "/inactive_indicator"@),
                    color_at(m, "/inactive_color"@),
                )
            };
            match item_paint(m, i, on)[k] {
                PaintView::Fill { color, .. } => color == surface || color == indicator,
                PaintView::Ink { color, .. } => color == ink,
                _ => false,
            }
        }),
{
    reveal(item_paint);
}

/// An item may be selected where it is one of the list and not disabled, and the selection
/// may always be taken back.
pub proof fn what_may_be_selected(
    m: Map<Seq<char>, LeafView>,
    n: usize,
    selected: int,
    disabled: Seq<bool>,
)
    requires
        list_at(m, "/items"@) == Some(n),
    ensures
        selectable(m, -1, disabled),
        0 <= selected < n && selected >= disabled.len() ==> selectable(m, selected, disabled),
        0 <= selected < n && selected < disabled.len() ==> (selectable(m, selected, disabled)
            <==> !disabled[selected]),
        selected >= n || selected < -1 ==> !selectable(m, selected, disabled),
{
}

/// A kit that is disabled disables all of it; one that is enabled leaves only those items
/// disabled that their source disables.
pub proof fn disabling_reaches_everything(m: Map<Seq<char>, LeafView>, k: int)
    requires
        0 <= k < all_disablings(m, true).len(),
    ensures
        all_disablings(m, true)[k].disabled,
        all_disablings(m, false).len() == all_disablings(m, true).len(),
        all_disablings(m, false)[k].id == all_disablings(m, true)[k].id,
        all_disablings(m, false)[k].disabled ==> exists|i: int|
            0 <= i && #[trigger] source_disabled(m, i) && all_disablings(m, false)[k].id == text_at(
                m,
                item_part(i, "control"@),
            ),
{
    let names = keys_at(m, "/action_bindings"@);
    let i = k - 2 - names.len();
    if all_disablings(m, false)[k].disabled {
        assert(source_disabled(m, i));
    }
}

/// What is shown of a kit is its input, else its title, else its label, where each is there
/// to be shown.
pub proof fn the_input_is_shown_first(m: Map<Seq<char>, LeafView>, mounted: Seq<Seq<char>>)
    ensures
        among(child_of(m, "input"@), mounted) ==> content_of(m, mounted) == child_of(m, "input"@),
        !among(child_of(m, "input"@), mounted) && among(child_of(m, "title"@), mounted)
            ==> content_of(m, mounted) == child_of(m, "title"@),
        !among(child_of(m, "input"@), mounted) && !among(child_of(m, "title"@), mounted) && among(
            child_of(m, "label"@),
            mounted,
        ) ==> content_of(m, mounted) == child_of(m, "label"@),
        content_of(m, mounted) matches Some(id) ==> mounted.contains(id),
{
}

} // verus!
