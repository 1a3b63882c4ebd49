//! Terminal styling of log-line units: colors, text attributes, and the
//! rules that pick them, either fixed or computed from the exchange outcome.
use vstd::prelude::*;

verus! {

/// A terminal foreground color.
#[derive(Clone, Copy, Debug, PartialEq, Eq, Structural)]
pub enum Color {
    Black,
    Red,
    Green,
    Yellow,
    Blue,
    Magenta,
    Cyan,
    White,
}

/// A set of text attributes, one flag per attribute.
#[derive(Clone, Copy, Debug, PartialEq, Eq, Structural)]
pub struct Attrs {
    pub bold: bool,
    pub dim: bool,
    pub italic: bool,
    pub underline: bool,
    pub blink: bool,
    pub reverse: bool,
}

/// How a unit's color is chosen.
#[derive(Clone, Copy, Debug, PartialEq, Eq, Structural)]
pub enum ColorRule {
    /// A fixed color, or no color at all.
    Constant(Option<Color>),
    /// The status policy: 2xx green, 3xx yellow, 4xx and 5xx red, anything else blue.
    ByStatus,
}

/// How a unit's attributes are chosen.
#[derive(Clone, Copy, Debug, PartialEq, Eq, Structural)]
pub enum AttrRule {
    /// A fixed set of attributes, possibly empty.
    Constant(Attrs),
    /// Bold when the response status is a client or server error (400 to 599).
    BoldOnError,
}

/// The color rule and attribute rule given to one unit.
#[derive(Clone, Copy, Debug, PartialEq, Eq, Structural)]
pub struct UnitStyle {
    pub color: ColorRule,
    pub attrs: AttrRule,
}

/// Style rules keyed by what a unit shows: literal text or one of the fields.
#[derive(Clone, Copy, Debug, PartialEq, Eq, Structural)]
pub struct StyleTable {
    pub literal: UnitStyle,
    pub method: UnitStyle,
    pub uri: UnitStyle,
    pub status: UnitStyle,
    pub response_time: UnitStyle,
    pub request_time: UnitStyle,
    pub remote_address: UnitStyle,
}

pub open spec fn no_attrs_spec() -> Attrs {
    Attrs { bold: false, dim: false, italic: false, underline: false, blink: false, reverse: false }
}

pub open spec fn unstyled_spec() -> UnitStyle {
    UnitStyle { color: ColorRule::Constant(None), attrs: AttrRule::Constant(no_attrs_spec()) }
}

/// The default status-to-color policy.
pub open spec fn status_color_spec(status: Option<u16>) -> Color {
    match status {
        Some(c) => if 200 <= c <= 299 {
            Color::Green
        } else if 300 <= c <= 399 {
            Color::Yellow
        } else if 400 <= c <= 599 {
            Color::Red
        } else {
            Color::Blue
        },
        None => Color::Blue,
    }
}

pub open spec fn is_error_status(status: Option<u16>) -> bool {
    match status {
        Some(c) => 400 <= c <= 599,
        None => false,
    }
}

pub open spec fn resolve_color_spec(rule: ColorRule, status: Option<u16>) -> Option<Color> {
    match rule {
        ColorRule::Constant(c) => c,
        ColorRule::ByStatus => Some(status_color_spec(status)),
    }
}

pub open spec fn resolve_attrs_spec(rule: AttrRule, status: Option<u16>) -> Attrs {
    match rule {
        AttrRule::Constant(a) => a,
        AttrRule::BoldOnError => Attrs { bold: is_error_status(status), ..no_attrs_spec() },
    }
}

impl Attrs {
    /// The empty attribute set.
    pub fn none() -> (r: Attrs)
        ensures
            r == no_attrs_spec(),
    {
        Attrs { bold: false, dim: false, italic: false, underline: false, blink: false, reverse: false }
    }
}

impl UnitStyle {
    /// No color and no attributes.
    pub fn unstyled() -> (r: UnitStyle)
        ensures
            r == unstyled_spec(),
    {
        UnitStyle { color: ColorRule::Constant(None), attrs: AttrRule::Constant(Attrs::none()) }
    }
}

impl StyleTable {
    /// Every unit unstyled: what a template compiled without a style table gets.
    pub fn plain() -> (r: StyleTable)
        ensures
            r == StyleTable::plain_spec(),
    {
        let u = UnitStyle::unstyled();
        StyleTable {
            literal: u,
            method: u,
            uri: u,
            status: u,
            response_time: u,
            request_time: u,
            remote_address: u,
        }
    }

    pub open spec fn plain_spec() -> StyleTable {
        let u = unstyled_spec();
        StyleTable {
            literal: u,
            method: u,
            uri: u,
            status: u,
            response_time: u,
            request_time: u,
            remote_address: u,
        }
    }

    /// The table for colorized output: the status field is colored by the
    /// status policy, everything else is unstyled.
    pub fn colored() -> (r: StyleTable)
        ensures
            r == StyleTable::colored_spec(),
    {
        let mut t = StyleTable::plain();
        t.status = UnitStyle { color: ColorRule::ByStatus, attrs: AttrRule::Constant(Attrs::none()) };
        t
    }

    pub open spec fn colored_spec() -> StyleTable {
        StyleTable {
            status: UnitStyle { color: ColorRule::ByStatus, attrs: AttrRule::Constant(no_attrs_spec()) },
            ..StyleTable::plain_spec()
        }
    }
}

/// The color of the status policy: 200 to 299 green, 300 to 399 yellow,
/// 400 to 599 red, any other code (or no code) blue.
pub fn status_color(status: Option<u16>) -> (r: Color)
    ensures
        r == status_color_spec(status),
{
    match status {
        Some(c) => if 200 <= c && c <= 299 {
            Color::Green
        } else if 300 <= c && c <= 399 {
            Color::Yellow
        } else if 400 <= c && c <= 599 {
            Color::Red
        } else {
            Color::Blue
        },
        None => Color::Blue,
    }
}

/// Evaluates a color rule against a response status.
pub fn resolve_color(rule: ColorRule, status: Option<u16>) -> (r: Option<Color>)
    ensures
        r == resolve_color_spec(rule, status),
{
    match rule {
        ColorRule::Constant(c) => c,
        ColorRule::ByStatus => Some(status_color(status)),
    }
}

/// Evaluates an attribute rule against a response status.
pub fn resolve_attrs(rule: AttrRule, status: Option<u16>) -> (r: Attrs)
    ensures
        r == resolve_attrs_spec(rule, status),
{
    match rule {
        AttrRule::Constant(a) => a,
        AttrRule::BoldOnError => {
            let bold = match status {
                Some(c) => 400 <= c && c <= 599,
                None => false,
            };
            Attrs { bold, ..Attrs::none() }
        },
    }
}

/// Every status code lands in exactly the bucket of the status policy.
pub proof fn status_color_partition(code: u16)
    ensures
        200 <= code <= 299 <==> status_color_spec(Some(code)) == Color::Green,
        300 <= code <= 399 <==> status_color_spec(Some(code)) == Color::Yellow,
        400 <= code <= 599 <==> status_color_spec(Some(code)) == Color::Red,
        (code < 200 || code > 599) <==> status_color_spec(Some(code)) == Color::Blue,
{
}

} // verus!
