//! The exchange renderer: evaluates a compiled format against the facts of
//! one finished exchange, as plain text or as styled segments.
use vstd::prelude::*;
use vstd::string::*;
use crate::format::{Field, Format, FormatText, FormatUnit, Piece, UnitModel};
use crate::style::{resolve_attrs, resolve_attrs_spec, resolve_color, resolve_color_spec, Attrs, Color};
use crate::timing::{iso_stamp_text, request_time_text, Timestamp};

verus! {

/// The facts of one completed exchange, owned by that exchange alone.
#[derive(Clone, Debug)]
pub struct ExchangeFacts {
    pub method: String,
    pub uri: String,
    pub remote_addr: String,
    /// `None` when the response carries no status code.
    pub status: Option<u16>,
    /// When the request arrived.
    pub started: Timestamp,
    /// Time from the request's arrival to its response, in nanoseconds.
    pub elapsed_ns: u64,
}

impl ExchangeFacts {
    pub open spec fn wf(&self) -> bool {
        self.started.wf()
    }
}

/// One rendered unit: its text and the style resolved for it alone.
#[derive(Clone, Debug)]
pub struct Segment {
    pub text: String,
    pub color: Option<Color>,
    pub attrs: Attrs,
}

pub struct SegmentModel {
    pub text: Seq<char>,
    pub color: Option<Color>,
    pub attrs: Attrs,
}

impl View for Segment {
    type V = SegmentModel;

    open spec fn view(&self) -> SegmentModel {
        SegmentModel { text: self.text@, color: self.color, attrs: self.attrs }
    }
}

pub open spec fn digit_text(d: nat) -> Seq<char> {
    if d == 0 {
        "0"@
    } else if d == 1 {
        "1"@
    } else if d == 2 {
        "2"@
    } else if d == 3 {
        "3"@
    } else if d == 4 {
        "4"@
    } else if d == 5 {
        "5"@
    } else if d == 6 {
        "6"@
    } else if d == 7 {
        "7"@
    } else if d == 8 {
        "8"@
    } else {
        "9"@
    }
}

/// The decimal digits of `n`, without leading zeros.
pub open spec fn dec_digits(n: nat) -> Seq<char>
    decreases n,
{
    if n < 10 {
        digit_text(n)
    } else {
        dec_digits(n / 10) + digit_text(n % 10)
    }
}

/// The last `w` decimal digits of `n`, zero-padded.
pub open spec fn padded_digits(n: nat, w: nat) -> Seq<char>
    decreases w,
{
    if w == 0 {
        Seq::empty()
    } else {
        padded_digits(n / 10, (w - 1) as nat) + digit_text(n % 10)
    }
}

/// Drops trailing zero digits from a `w`-digit fraction `n`.
pub open spec fn trimmed(n: nat, w: nat) -> (nat, nat)
    decreases w,
{
    if w > 0 && n % 10 == 0 {
        trimmed(n / 10, (w - 1) as nat)
    } else {
        (n, w)
    }
}

/// The fraction of a millisecond, `r` millionths of it, as `.ddd` without
/// trailing zeros; empty when there is no fraction.
pub open spec fn fraction_text(r: nat) -> Seq<char> {
    if r == 0 {
        Seq::empty()
    } else {
        "."@ + padded_digits(trimmed(r, 6).0, trimmed(r, 6).1)
    }
}

/// A duration of `ns` nanoseconds as a decimal count of milliseconds.
pub open spec fn millis_text(ns: nat) -> Seq<char> {
    dec_digits(ns / 1_000_000) + fraction_text(ns % 1_000_000)
}

pub open spec fn field_text(f: Field, facts: ExchangeFacts) -> Seq<char> {
    match f {
        Field::Method => facts.method@,
        Field::Uri => facts.uri@,
        Field::RemoteAddress => facts.remote_addr@,
        Field::Status => match facts.status {
            Some(c) => dec_digits(c as nat),
            None => "<missing status code>"@,
        },
        Field::ResponseTime => millis_text(facts.elapsed_ns as nat),
        Field::RequestTime => iso_stamp_text(facts.started.tm_fields()),
    }
}

pub open spec fn unit_text(u: UnitModel, facts: ExchangeFacts) -> Seq<char> {
    match u.piece {
        Piece::Lit(t) => t,
        Piece::Hole(f) => field_text(f, facts),
    }
}

/// The texts of all units, concatenated in order.
pub open spec fn line_text(units: Seq<UnitModel>, facts: ExchangeFacts) -> Seq<char>
    decreases units.len(),
{
    if units.len() == 0 {
        Seq::empty()
    } else {
        line_text(units.drop_last(), facts) + unit_text(units.last(), facts)
    }
}

pub open spec fn segment_of(u: UnitModel, facts: ExchangeFacts) -> SegmentModel {
    SegmentModel {
        text: unit_text(u, facts),
        color: resolve_color_spec(u.color, facts.status),
        attrs: resolve_attrs_spec(u.attrs, facts.status),
    }
}

fn digit_str(d: u64) -> (r: &'static str)
    requires
        d < 10,
    ensures
        r@ == digit_text(d as nat),
{
    if d == 0 {
        "0"
    } else if d == 1 {
        "1"
    } else if d == 2 {
        "2"
    } else if d == 3 {
        "3"
    } else if d == 4 {
        "4"
    } else if d == 5 {
        "5"
    } else if d == 6 {
        "6"
    } else if d == 7 {
        "7"
    } else if d == 8 {
        "8"
    } else {
        "9"
    }
}

fn append_decimal(out: &mut String, n: u64)
    ensures
        final(out)@ == old(out)@ + dec_digits(n as nat),
    decreases n,
{
    if n >= 10 {
        append_decimal(out, n / 10);
    }
    out.append(digit_str(n % 10));
    if n >= 10 {
        assert(old(out)@ + dec_digits(n as nat) =~= old(out)@ + dec_digits((n / 10) as nat) + digit_text(
            (n % 10) as nat,
        ));
    }
}

fn append_padded(out: &mut String, n: u64, w: u64)
    ensures
        final(out)@ == old(out)@ + padded_digits(n as nat, w as nat),
    decreases w,
{
    if w > 0 {
        append_padded(out, n / 10, w - 1);
        out.append(digit_str(n % 10));
        assert(old(out)@ + padded_digits(n as nat, w as nat) =~= old(out)@ + padded_digits((n / 10) as nat, (w - 1) as nat)
            + digit_text((n % 10) as nat));
    } else {
        assert(old(out)@ + padded_digits(n as nat, w as nat) =~= old(out)@);
    }
}

/// Appends `ns` nanoseconds as decimal milliseconds: `3.25`, `0.5`, `12`.
pub fn append_millis(out: &mut String, ns: u64)
    ensures
        final(out)@ == old(out)@ + millis_text(ns as nat),
{
    append_decimal(out, ns / 1_000_000);
    let r = ns % 1_000_000;
    if r != 0 {
        out.append(".");
        let mut n: u64 = r;
        let mut w: u64 = 6;
        while w > 0 && n % 10 == 0
            invariant
                w <= 6,
                trimmed(r as nat, 6) == trimmed(n as nat, w as nat),
            decreases w,
        {
            n = n / 10;
            w = w - 1;
        }
        append_padded(out, n, w);
        assert(final(out)@ =~= old(out)@ + millis_text(ns as nat));
    } else {
        assert(old(out)@ + millis_text(ns as nat) =~= old(out)@ + dec_digits((ns / 1_000_000) as nat));
    }
}

/// Appends the text of one field of the facts.
pub fn append_field(out: &mut String, f: Field, facts: &ExchangeFacts)
    requires
        facts.wf(),
    ensures
        final(out)@ == old(out)@ + field_text(f, *facts),
{
    match f {
        Field::Method => out.append(facts.method.as_str()),
        Field::Uri => out.append(facts.uri.as_str()),
        Field::RemoteAddress => out.append(facts.remote_addr.as_str()),
        Field::Status => match facts.status {
            Some(c) => append_decimal(out, c as u64),
            None => out.append("<missing status code>"),
        },
        Field::ResponseTime => append_millis(out, facts.elapsed_ns),
        Field::RequestTime => {
            let stamp = request_time_text(&facts.started);
            out.append(stamp.as_str());
        },
    }
}

/// Appends the text of one unit.
pub fn append_unit(out: &mut String, u: &FormatUnit, facts: &ExchangeFacts)
    requires
        facts.wf(),
    ensures
        final(out)@ == old(out)@ + unit_text(u@, *facts),
{
    match &u.text {
        FormatText::Str(s) => out.append(s.as_str()),
        FormatText::Field(f) => append_field(out, *f, facts),
    }
}

/// Renders a format as plain text: the units' texts in template order.
pub fn render_plain(fmt: &Format, facts: &ExchangeFacts) -> (r: String)
    requires
        facts.wf(),
    ensures
        r@ == line_text(fmt@, *facts),
{
    let units = fmt.units();
    let ghost us = fmt@;
    let mut out = String::new();
    let mut i: usize = 0;
    assert(us.subrange(0, 0) =~= Seq::<UnitModel>::empty());
    while i < units.len()
        invariant
            facts.wf(),
            i <= units@.len(),
            units@.map_values(|u: FormatUnit| u@) == us,
            out@ == line_text(us.subrange(0, i as int), *facts),
        decreases units@.len() - i,
    {
        assert(units@.map_values(|u: FormatUnit| u@)[i as int] == units@[i as int]@);
        append_unit(&mut out, &units[i], facts);
        assert(us.subrange(0, i + 1).drop_last() =~= us.subrange(0, i as int));
        i = i + 1;
    }
    assert(us.subrange(0, i as int) =~= us);
    out
}

/// Renders a format as styled segments, one per unit in template order, each
/// carrying the style resolved from its own unit's rules.
pub fn render_segments(fmt: &Format, facts: &ExchangeFacts) -> (r: Vec<Segment>)
    requires
        facts.wf(),
    ensures
        r@.map_values(|s: Segment| s@) == fmt@.map_values(|u: UnitModel| segment_of(u, *facts)),
{
    let units = fmt.units();
    let ghost us = fmt@;
    let mut segs: Vec<Segment> = Vec::new();
    let mut i: usize = 0;
    while i < units.len()
        invariant
            facts.wf(),
            i <= units@.len(),
            units@.map_values(|u: FormatUnit| u@) == us,
            segs@.len() == i,
            forall|k: int| 0 <= k < i ==> (#[trigger] segs@[k])@ == segment_of(us[k], *facts),
        decreases units@.len() - i,
    {
        assert(units@.map_values(|u: FormatUnit| u@)[i as int] == units@[i as int]@);
        let u = &units[i];
        let mut text = String::new();
        append_unit(&mut text, u, facts);
        assert(text@ =~= unit_text(u@, *facts));
        let color = resolve_color(u.color, facts.status);
        let attrs = resolve_attrs(u.attrs, facts.status);
        segs.push(Segment { text, color, attrs });
        i = i + 1;
    }
    let ghost a = segs@.map_values(|s: Segment| s@);
    let ghost b = us.map_values(|u: UnitModel| segment_of(u, *facts));
    assert(a =~= b) by {
        assert forall|k: int| 0 <= k < a.len() implies a[k] == b[k] by {
            assert(segs@[k]@ == segment_of(us[k], *facts));
        }
    }
    segs
}

/// Rendering keeps order: the text of two plans joined is the text of the
/// first followed by the text of the second, so moving a unit moves its text.
pub proof fn rendering_preserves_order(a: Seq<UnitModel>, b: Seq<UnitModel>, facts: ExchangeFacts)
    ensures
        line_text(a + b, facts) == line_text(a, facts) + line_text(b, facts),
    decreases b.len(),
{
    if b.len() == 0 {
        assert(a + b =~= a);
        assert(line_text(a, facts) + line_text(b, facts) =~= line_text(a, facts));
    } else {
        rendering_preserves_order(a, b.drop_last(), facts);
        assert((a + b).drop_last() =~= a + b.drop_last());
        assert((a + b).last() == b.last());
        assert(line_text(a, facts) + line_text(b.drop_last(), facts) + unit_text(b.last(), facts) =~= line_text(
            a,
            facts,
        ) + (line_text(b.drop_last(), facts) + unit_text(b.last(), facts)));
    }
}

/// Styling does not bleed: the segment of a unit depends on that unit and the
/// facts alone, whatever units stand around it.
pub proof fn styling_does_not_bleed(a: Seq<UnitModel>, b: Seq<UnitModel>, facts: ExchangeFacts, i: int)
    requires
        0 <= i < a.len(),
        0 <= i < b.len(),
        a[i] == b[i],
    ensures
        a.map_values(|u: UnitModel| segment_of(u, facts))[i] == b.map_values(
            |u: UnitModel| segment_of(u, facts),
        )[i],
        a.map_values(|u: UnitModel| segment_of(u, facts))[i].color == resolve_color_spec(a[i].color, facts.status),
{
}

/// Rendering the same plan against the same facts twice gives the same text
/// and the same segments.
pub proof fn rendering_is_repeatable(
    fmt: Format,
    facts: ExchangeFacts,
    r1: String,
    r2: String,
    s1: Vec<Segment>,
    s2: Vec<Segment>,
)
    requires
        r1@ == line_text(fmt@, facts),
        r2@ == line_text(fmt@, facts),
        s1@.map_values(|s: Segment| s@) == fmt@.map_values(|u: UnitModel| segment_of(u, facts)),
        s2@.map_values(|s: Segment| s@) == fmt@.map_values(|u: UnitModel| segment_of(u, facts)),
    ensures
        r1@ == r2@,
        s1@.map_values(|s: Segment| s@) == s2@.map_values(|s: Segment| s@),
{
}

} // verus!
