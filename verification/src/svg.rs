//! Gradients of SVG documents.
use crate::text::{
    char_found_at, find_char, is_trimmed, joined_text_splits_back, lower_all, spec_find_char,
    spec_join, spec_lead, spec_lower_all, spec_split, spec_trim, spec_trim_start, spells, split,
    text_of, texts, to_chars, to_text, trim, trimming_keeps,
};
use crate::textmap::TextMap;
use vstd::prelude::*;
use vstd::slice::slice_subrange;

verus! {

#[derive(Clone, Copy, PartialEq, Eq, Structural, Debug)]
pub enum GradientUnits {
    UserSpaceOnUse,
    ObjectBoundingBox,
}

#[derive(Clone, Copy, PartialEq, Eq, Structural, Debug)]
pub enum SpreadMethod {
    Pad,
    Reflect,
    Repeat,
}

pub open spec fn spec_gradient_units(s: Seq<char>) -> GradientUnits {
    if spec_trim(s) == "userSpaceOnUse"@ {
        GradientUnits::UserSpaceOnUse
    } else {
        GradientUnits::ObjectBoundingBox
    }
}

pub fn parse_gradient_units(s: &str) -> (r: GradientUnits)
    ensures
        r == spec_gradient_units(s@),
{
    let chars = to_chars(s);
    if spells(trim(chars.as_slice()), "userSpaceOnUse") {
        GradientUnits::UserSpaceOnUse
    } else {
        GradientUnits::ObjectBoundingBox
    }
}

pub open spec fn spec_spread_method(s: Seq<char>) -> SpreadMethod {
    if spec_trim(s) == "reflect"@ {
        SpreadMethod::Reflect
    } else if spec_trim(s) == "repeat"@ {
        SpreadMethod::Repeat
    } else {
        SpreadMethod::Pad
    }
}

pub fn parse_spread_method(s: &str) -> (r: SpreadMethod)
    ensures
        r == spec_spread_method(s@),
{
    let chars = to_chars(s);
    let t = trim(chars.as_slice());
    if spells(t, "reflect") {
        SpreadMethod::Reflect
    } else if spells(t, "repeat") {
        SpreadMethod::Repeat
    } else {
        SpreadMethod::Pad
    }
}

/// A gradient as it is written: its coordinates and its transform are the texts of
/// attributes.
pub struct GradientText {
    pub id: Option<String>,
    /// For a line, where it begins and ends; for a circle, its center, its radius
    /// and its focus.
    pub coordinates: Vec<Option<String>>,
    pub units: Option<GradientUnits>,
    pub transform: Option<String>,
    pub spread: Option<SpreadMethod>,
    /// The gradient that this one takes over from.
    pub href: Option<String>,
}

/// The attribute with a name.
pub open spec fn attribute(attrs: Map<Seq<char>, String>, name: Seq<char>) -> Option<Seq<char>> {
    if attrs.contains_key(name) {
        Some(attrs[name]@)
    } else {
        None
    }
}

/// The name behind a `#`.
pub open spec fn local_name(href: Option<Seq<char>>) -> Option<Seq<char>> {
    match href {
        Some(h) if h.len() > 0 && h[0] == '#' => Some(h.skip(1)),
        _ => None,
    }
}

/// The gradient that another takes over from.
pub open spec fn spec_href(attrs: Map<Seq<char>, String>) -> Option<Seq<char>> {
    local_name(
        match attribute(attrs, "href"@) {
            Some(h) => Some(h),
            None => attribute(attrs, "xlink:href"@),
        },
    )
}

fn copy(attrs: &TextMap<String>, name: &str) -> (r: Option<String>)
    ensures
        text_of(r) == attribute(attrs@, name@),
{
    match attrs.get(name) {
        Some(v) => Some(v.clone()),
        None => None,
    }
}

fn parse_href(attrs: &TextMap<String>) -> (r: Option<String>)
    ensures
        text_of(r) == spec_href(attrs@),
{
    let href = match attrs.get("href") {
        Some(h) => h,
        None => match attrs.get("xlink:href") {
            Some(h) => h,
            None => {
                return None;
            },
        },
    };
    let chars = to_chars(href.as_str());
    if chars.len() > 0 && chars[0] == '#' {
        let rest = slice_subrange(chars.as_slice(), 1, chars.len());
        assert(rest@ =~= chars@.skip(1));
        Some(to_text(rest))
    } else {
        None
    }
}

/// What the attributes say of a gradient, but for its coordinates.
pub open spec fn described(g: GradientText, attrs: Map<Seq<char>, String>) -> bool {
    &&& text_of(g.id) == attribute(attrs, "id"@)
    &&& g.units == match attribute(attrs, "gradientunits"@) {
        Some(v) => Some(spec_gradient_units(v)),
        None => None,
    }
    &&& text_of(g.transform) == attribute(attrs, "gradienttransform"@)
    &&& g.spread == match attribute(attrs, "spreadmethod"@) {
        Some(v) => Some(spec_spread_method(v)),
        None => None,
    }
    &&& text_of(g.href) == spec_href(attrs)
}

fn describe(attrs: &TextMap<String>, coordinates: Vec<Option<String>>) -> (r: GradientText)
    ensures
        described(r, attrs@),
        r.coordinates == coordinates,
{
    let units = match attrs.get("gradientunits") {
        Some(v) => Some(parse_gradient_units(v.as_str())),
        None => None,
    };
    let spread = match attrs.get("spreadmethod") {
        Some(v) => Some(parse_spread_method(v.as_str())),
        None => None,
    };
    GradientText {
        id: copy(attrs, "id"),
        coordinates,
        units,
        transform: copy(attrs, "gradienttransform"),
        spread,
        href: parse_href(attrs),
    }
}

/// What the attributes of some names say, in the order of the names.
pub open spec fn named(attrs: Map<Seq<char>, String>, names: Seq<Seq<char>>) -> Seq<
    Option<Seq<char>>,
> {
    names.map_values(|name: Seq<char>| attribute(attrs, name))
}

/// The coordinates of a linear gradient: where it begins and where it ends.
pub open spec fn linear_names() -> Seq<Seq<char>> {
    seq!["x1"@, "y1"@, "x2"@, "y2"@]
}

/// The coordinates of a radial gradient: its centre, its radius and its focus.
pub open spec fn radial_names() -> Seq<Seq<char>> {
    seq!["cx"@, "cy"@, "r"@, "fx"@, "fy"@]
}

/// The texts of some coordinates.
pub open spec fn coordinate_texts(v: Seq<Option<String>>) -> Seq<Option<Seq<char>>> {
    v.map_values(|c: Option<String>| text_of(c))
}

/// A gradient along a line. Attributes are known by their names in lower case.
pub fn parse_linear_gradient(attrs: &TextMap<String>) -> (r: GradientText)
    ensures
        described(r, attrs@),
        r.coordinates@.len() == 4,
        text_of(r.coordinates@[0]) == attribute(attrs@, "x1"@),
        text_of(r.coordinates@[1]) == attribute(attrs@, "y1"@),
        text_of(r.coordinates@[2]) == attribute(attrs@, "x2"@),
        text_of(r.coordinates@[3]) == attribute(attrs@, "y2"@),
        coordinate_texts(r.coordinates@) == named(attrs@, linear_names()),
{
    let mut c: Vec<Option<String>> = Vec::new();
    c.push(copy(attrs, "x1"));
    c.push(copy(attrs, "y1"));
    c.push(copy(attrs, "x2"));
    c.push(copy(attrs, "y2"));
    describe(attrs, c)
}

/// A gradient around a point. Attributes are known by their names in lower case.
pub fn parse_radial_gradient(attrs: &TextMap<String>) -> (r: GradientText)
    ensures
        described(r, attrs@),
        r.coordinates@.len() == 5,
        text_of(r.coordinates@[0]) == attribute(attrs@, "cx"@),
        text_of(r.coordinates@[1]) == attribute(attrs@, "cy"@),
        text_of(r.coordinates@[2]) == attribute(attrs@, "r"@),
        text_of(r.coordinates@[3]) == attribute(attrs@, "fx"@),
        text_of(r.coordinates@[4]) == attribute(attrs@, "fy"@),
        coordinate_texts(r.coordinates@) == named(attrs@, radial_names()),
{
    let mut c: Vec<Option<String>> = Vec::new();
    c.push(copy(attrs, "cx"));
    c.push(copy(attrs, "cy"));
    c.push(copy(attrs, "r"));
    c.push(copy(attrs, "fx"));
    c.push(copy(attrs, "fy"));
    describe(attrs, c)
}

// ---------------------------------------------------------------------------
// Stops
// ---------------------------------------------------------------------------

/// What a stop is told, in the order in which it is.
pub enum StopPart {
    Color(String),
    /// Times what the opacity was.
    Opacity(String),
}

pub enum StopPartView {
    Color(Seq<char>),
    Opacity(Seq<char>),
}

impl View for StopPart {
    type V = StopPartView;

    open spec fn view(&self) -> StopPartView {
        match self {
            StopPart::Color(c) => StopPartView::Color(c@),
            StopPart::Opacity(o) => StopPartView::Opacity(o@),
        }
    }
}

/// What a list of parts says.
pub open spec fn parts(v: Seq<StopPart>) -> Seq<StopPartView> {
    v.map_values(|p: StopPart| p@)
}

/// The part of a stop that a declaration such as `stop-color: red` is.
pub open spec fn declared(decl: Seq<char>) -> Option<StopPartView> {
    match spec_find_char(decl, ':', 0) {
        Some(n) => {
            let key = spec_lower_all(spec_trim(decl.take(n)));
            let value = spec_trim(decl.skip(n + 1));
            if key == "stop-color"@ {
                Some(StopPartView::Color(value))
            } else if key == "stop-opacity"@ {
                Some(StopPartView::Opacity(value))
            } else {
                None
            }
        },
        None => None,
    }
}

/// The parts of the first `n` declarations, after others.
pub open spec fn all_declared(before: Seq<StopPartView>, decls: Seq<Seq<char>>, n: int) -> Seq<
    StopPartView,
>
    decreases n,
{
    if n <= 0 {
        before
    } else {
        let so_far = all_declared(before, decls, n - 1);
        match declared(decls[n - 1]) {
            Some(p) => so_far.push(p),
            None => so_far,
        }
    }
}

/// A stop's own attributes, before its style.
pub open spec fn own_parts(attrs: Map<Seq<char>, String>) -> Seq<StopPartView> {
    (match attribute(attrs, "stop-color"@) {
        Some(c) => seq![StopPartView::Color(c)],
        None => seq![],
    }) + (match attribute(attrs, "stop-opacity"@) {
        Some(o) => seq![StopPartView::Opacity(spec_trim(o))],
        None => seq![],
    })
}

/// A stop as it is written.
pub struct StopText {
    /// Where the stop is, and whether that is in hundredths.
    pub offset: Option<(String, bool)>,
    pub parts: Vec<StopPart>,
}

/// Where a stop is, and whether that is in hundredths.
pub open spec fn spec_offset(attrs: Map<Seq<char>, String>) -> Option<(Seq<char>, bool)> {
    match attribute(attrs, "offset"@) {
        Some(v) => {
            let s = spec_trim(v);
            if s.len() > 0 && s.last() == '%' {
                Some((spec_trim(s.drop_last()), true))
            } else {
                Some((s, false))
            }
        },
        None => None,
    }
}

fn read_declaration(decl: &[char]) -> (r: Option<StopPart>)
    ensures
        match r {
            Some(p) => declared(decl@) == Some(p@),
            None => declared(decl@) is None,
        },
{
    match find_char(decl, ':', 0) {
        Some(n) => {
            let k = slice_subrange(decl, 0, n);
            let v = slice_subrange(decl, n + 1, decl.len());
            assert(k@ =~= decl@.take(n as int));
            assert(v@ =~= decl@.skip(n + 1));
            let key = lower_all(trim(k));
            if spells(key.as_slice(), "stop-color") {
                Some(StopPart::Color(to_text(trim(v))))
            } else if spells(key.as_slice(), "stop-opacity") {
                Some(StopPart::Opacity(to_text(trim(v))))
            } else {
                None
            }
        },
        None => None,
    }
}

/// All that a stop says: what its attributes say, and then what its style says.
pub open spec fn stop_parts(attrs: Map<Seq<char>, String>) -> Seq<StopPartView> {
    match attribute(attrs, "style"@) {
        Some(style) => all_declared(
            own_parts(attrs),
            spec_split(style, ';', 0),
            spec_split(style, ';', 0).len() as int,
        ),
        None => own_parts(attrs),
    }
}

/// A stop of a gradient: what its attributes say, and then what its style says.
pub fn parse_stop(attrs: &TextMap<String>) -> (r: StopText)
    ensures
        (match r.offset {
            Some((text, percent)) => Some((text@, percent)),
            None => None,
        }) == spec_offset(attrs@),
        parts(r.parts@) == stop_parts(attrs@),
{
    let offset = match attrs.get("offset") {
        Some(v) => {
            let chars = to_chars(v.as_str());
            let s = trim(chars.as_slice());
            if s.len() > 0 && s[s.len() - 1] == '%' {
                let number = slice_subrange(s, 0, s.len() - 1);
                assert(number@ =~= s@.drop_last());
                Some((to_text(trim(number)), true))
            } else {
                Some((to_text(s), false))
            }
        },
        None => None,
    };
    let mut out: Vec<StopPart> = Vec::new();
    if let Some(c) = attrs.get("stop-color") {
        out.push(StopPart::Color(c.clone()));
    }
    if let Some(o) = attrs.get("stop-opacity") {
        let chars = to_chars(o.as_str());
        out.push(StopPart::Opacity(to_text(trim(chars.as_slice()))));
    }
    let ghost own = own_parts(attrs@);
    assert(parts(out@) =~= own);
    if let Some(style) = attrs.get("style") {
        let chars = to_chars(style.as_str());
        let decls = split(chars.as_slice(), ';');
        let ghost all = spec_split(style@, ';', 0);
        assert(texts(decls@).len() == decls@.len());
        let mut i: usize = 0;
        while i < decls.len()
            invariant
                i <= decls.len(),
                texts(decls@) == all,
                decls@.len() == all.len(),
                parts(out@) == all_declared(own, all, i as int),
            decreases decls.len() - i,
        {
            assert(texts(decls@)[i as int] == decls@[i as int]@);
            if let Some(p) = read_declaration(decls[i]) {
                let ghost before = out@;
                out.push(p);
                assert(parts(out@) =~= parts(before).push(p@));
            }
            i = i + 1;
        }
    }
    StopText { offset, parts: out }
}

proof fn own_parts_stay(before: Seq<StopPartView>, decls: Seq<Seq<char>>, n: int)
    ensures
        all_declared(before, decls, n).len() >= before.len(),
        forall|i: int|
            0 <= i < before.len() ==> #[trigger] all_declared(before, decls, n)[i] == before[i],
    decreases n,
{
    if n > 0 {
        own_parts_stay(before, decls, n - 1);
    }
}

/// What a stop says of itself comes first, its color before its opacity, and what its
/// style says comes behind, so that the style has the last word.
pub proof fn the_style_has_the_last_word(attrs: Map<Seq<char>, String>, decls: Seq<Seq<char>>)
    requires
        decls.len() > 0,
        forall|i: int| 0 <= i < decls.len() ==> !(#[trigger] decls[i]).contains(';'),
        attribute(attrs, "style"@) == Some(spec_join(decls, seq![';'])),
    ensures
        attribute(attrs, "stop-color"@) matches Some(c) ==> stop_parts(attrs).len() > 0 && stop_parts(
            attrs,
        )[0] == StopPartView::Color(c),
        attribute(attrs, "stop-opacity"@) matches Some(o) ==> (attribute(attrs, "stop-color"@)
            is None ==> stop_parts(attrs).len() > 0 && stop_parts(attrs)[0] == StopPartView::Opacity(
            spec_trim(o),
        )) && (attribute(attrs, "stop-color"@) is Some ==> stop_parts(attrs).len() > 1
            && stop_parts(attrs)[1] == StopPartView::Opacity(spec_trim(o))),
        declared(decls.last()) matches Some(p) ==> stop_parts(attrs).len() > 0 && stop_parts(
            attrs,
        ).last() == p,
        (forall|i: int| 0 <= i < decls.len() ==> declared(#[trigger] decls[i]) is None) ==> stop_parts(
            attrs,
        ).len() <= 2,
{
    joined_text_splits_back(decls, ';');
    own_parts_stay(own_parts(attrs), decls, decls.len() as int);
    if forall|i: int| 0 <= i < decls.len() ==> declared(#[trigger] decls[i]) is None {
        nothing_declared(own_parts(attrs), decls, decls.len() as int);
    }
}

proof fn nothing_declared(before: Seq<StopPartView>, decls: Seq<Seq<char>>, n: int)
    requires
        n <= decls.len(),
        forall|i: int| 0 <= i < decls.len() ==> declared(#[trigger] decls[i]) is None,
    ensures
        all_declared(before, decls, n) == before,
    decreases n,
{
    if n > 0 {
        assert(declared(decls[n - 1]) is None);
        nothing_declared(before, decls, n - 1);
    }
}

/// A declaration is read as it is written: a color or an opacity by its name in any case,
/// and its value without the white space around it. Others say nothing of a stop.
pub proof fn a_declaration_is_read(key: Seq<char>, value: Seq<char>)
    requires
        !key.contains(':'),
        is_trimmed(key) && is_trimmed(value),
    ensures
        spec_lower_all(key) == "stop-color"@ ==> declared(key + ": "@ + value) == Some(
            StopPartView::Color(value),
        ),
        spec_lower_all(key) == "stop-opacity"@ ==> declared(key + ": "@ + value) == Some(
            StopPartView::Opacity(value),
        ),
        spec_lower_all(key) != "stop-color"@ && spec_lower_all(key) != "stop-opacity"@ ==> declared(
            key + ": "@ + value,
        ) is None,
{
    reveal_strlit(": ");
    reveal_strlit("stop-color");
    reveal_strlit("stop-opacity");
    let decl = key + ": "@ + value;
    let n = key.len() as int;
    assert forall|j: int| 0 <= j < n implies #[trigger] decl[j] != ':' by {
        assert(decl[j] == key[j]);
        assert(key.contains(key[j]));
    }
    assert(decl[n] == ':');
    char_found_at(decl, ':', 0, n);
    assert(decl.take(n) =~= key);
    trimming_keeps(key);
    let v = decl.skip(n + 1);
    assert(v =~= seq![' '] + value);
    if value.len() > 0 {
        assert(v[1] == value[0]);
        assert(spec_lead(v, 0) == spec_lead(v, 1));
        assert(spec_lead(v, 1) == 1);
    } else {
        assert(spec_lead(v, 0) == spec_lead(v, 1));
        assert(spec_lead(v, 1) == 1);
    }
    assert(v.subrange(1, v.len() as int) =~= value);
    assert(spec_trim_start(v) == value);
    assert(value.subrange(0, value.len() as int) =~= value);
    assert(spec_trim(v) == value);
    assert("stop-color"@.len() != "stop-opacity"@.len());
}

/// An offset in per cent is read as its number.
pub proof fn offsets_are_read(attrs: Map<Seq<char>, String>, number: Seq<char>)
    requires
        is_trimmed(number) && number.len() > 0 && number.last() != '%',
    ensures
        attribute(attrs, "offset"@) == Some(number + "%"@) ==> spec_offset(attrs) == Some(
            (number, true),
        ),
        attribute(attrs, "offset"@) == Some(number) ==> spec_offset(attrs) == Some((number, false)),
{
    reveal_strlit("%");
    let p = number + "%"@;
    assert(p[0] == number[0] && p.last() == '%');
    trimming_keeps(p);
    trimming_keeps(number);
    assert(p.drop_last() =~= number);
}

/// A gradient refers to another by its name behind a hash; `href` goes before its older
/// spelling.
pub proof fn references_are_names(attrs: Map<Seq<char>, String>, name: Seq<char>)
    ensures
        attribute(attrs, "href"@) == Some("#"@ + name) ==> spec_href(attrs) == Some(name),
        attribute(attrs, "href"@) is None && attribute(attrs, "xlink:href"@) == Some("#"@ + name)
            ==> spec_href(attrs) == Some(name),
        attribute(attrs, "href"@) is None && attribute(attrs, "xlink:href"@) is None ==> spec_href(
            attrs,
        ) is None,
{
    reveal_strlit("#");
    let h = "#"@ + name;
    assert(h.skip(1) =~= name);
}

/// A linear gradient runs from its first point to its second, and a radial one has a centre,
/// a radius and a focus: in each pair the horizontal coordinate comes before the vertical.
pub proof fn coordinates_stand_in_order(attrs: Map<Seq<char>, String>)
    ensures
        named(attrs, linear_names()).len() == 4 && named(attrs, radial_names()).len() == 5,
        forall|i: int|
            0 <= i < 4 ==> (#[trigger] linear_names()[i]).len() == 2 && (linear_names()[i][0] == if i
                % 2 == 0 {
                'x'
            } else {
                'y'
            }) && (linear_names()[i][1] == if i < 2 {
                '1'
            } else {
                '2'
            }),
        radial_names()[2] == "r"@,
        radial_names()[0] == "cx"@ && radial_names()[1] == "cy"@ && radial_names()[3] == "fx"@
            && radial_names()[4] == "fy"@,
        named(attrs, linear_names())[0] == attribute(attrs, "x1"@),
        named(attrs, radial_names())[2] == attribute(attrs, "r"@),
{
    reveal_strlit("x1");
    reveal_strlit("y1");
    reveal_strlit("x2");
    reveal_strlit("y2");
    reveal_strlit("r");
    assert("x1"@ =~= seq!['x', '1']);
    assert("y1"@ =~= seq!['y', '1']);
    assert("x2"@ =~= seq!['x', '2']);
    assert("y2"@ =~= seq!['y', '2']);
    let l = linear_names();
    assert(l[0] == "x1"@ && l[1] == "y1"@ && l[2] == "x2"@ && l[3] == "y2"@);
}

} // verus!
