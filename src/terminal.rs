//! Terminal output: each segment as its ANSI style codes, its text and a
//! reset, so that no style carries over into the next segment.
use vstd::prelude::*;
use vstd::seq_lib::lemma_concat_associative;
use vstd::string::*;
use crate::format::{Format, UnitModel};
use crate::render::{render_segments, segment_of, ExchangeFacts, Segment, SegmentModel};
use crate::style::{Attrs, Color};

verus! {

pub open spec fn color_code(c: Color) -> Seq<char> {
    match c {
        Color::Black => "\x1b[30m"@,
        Color::Red => "\x1b[31m"@,
        Color::Green => "\x1b[32m"@,
        Color::Yellow => "\x1b[33m"@,
        Color::Blue => "\x1b[34m"@,
        Color::Magenta => "\x1b[35m"@,
        Color::Cyan => "\x1b[36m"@,
        Color::White => "\x1b[37m"@,
    }
}

pub open spec fn code_if(on: bool, code: Seq<char>) -> Seq<char> {
    if on {
        code
    } else {
        Seq::empty()
    }
}

pub open spec fn attr_codes(a: Attrs) -> Seq<char> {
    code_if(a.bold, "\x1b[1m"@) + code_if(a.dim, "\x1b[2m"@) + code_if(a.italic, "\x1b[3m"@) + code_if(
        a.underline,
        "\x1b[4m"@,
    ) + code_if(a.blink, "\x1b[5m"@) + code_if(a.reverse, "\x1b[7m"@)
}

/// The codes that select a segment's color and attributes.
pub open spec fn style_prefix(color: Option<Color>, attrs: Attrs) -> Seq<char> {
    let c = match color {
        Some(c) => color_code(c),
        None => Seq::empty(),
    };
    c + attr_codes(attrs)
}

/// The code that clears every style.
pub open spec fn reset_code() -> Seq<char> {
    "\x1b[0m"@
}

/// One segment on a terminal: its style codes, its text, then a reset.
pub open spec fn segment_out(s: SegmentModel) -> Seq<char> {
    style_prefix(s.color, s.attrs) + s.text + reset_code()
}

/// All segments on a terminal, in order.
pub open spec fn segments_out(segs: Seq<SegmentModel>) -> Seq<char>
    decreases segs.len(),
{
    if segs.len() == 0 {
        Seq::empty()
    } else {
        segments_out(segs.drop_last()) + segment_out(segs.last())
    }
}

fn color_str(c: Color) -> (r: &'static str)
    ensures
        r@ == color_code(c),
{
    match c {
        Color::Black => "\x1b[30m",
        Color::Red => "\x1b[31m",
        Color::Green => "\x1b[32m",
        Color::Yellow => "\x1b[33m",
        Color::Blue => "\x1b[34m",
        Color::Magenta => "\x1b[35m",
        Color::Cyan => "\x1b[36m",
        Color::White => "\x1b[37m",
    }
}

fn append_if(out: &mut String, on: bool, code: &str)
    ensures
        final(out)@ == old(out)@ + code_if(on, code@),
{
    if on {
        out.append(code);
    } else {
        assert(old(out)@ + code_if(on, code@) =~= old(out)@);
    }
}

fn append_attrs(out: &mut String, a: Attrs)
    ensures
        final(out)@ == old(out)@ + attr_codes(a),
{
    let ghost o = out@;
    append_if(out, a.bold, "\x1b[1m");
    let ghost mut p = code_if(a.bold, "\x1b[1m"@);
    append_if(out, a.dim, "\x1b[2m");
    proof {
        lemma_concat_associative(o, p, code_if(a.dim, "\x1b[2m"@));
        p = p + code_if(a.dim, "\x1b[2m"@);
    }
    append_if(out, a.italic, "\x1b[3m");
    proof {
        lemma_concat_associative(o, p, code_if(a.italic, "\x1b[3m"@));
        p = p + code_if(a.italic, "\x1b[3m"@);
    }
    append_if(out, a.underline, "\x1b[4m");
    proof {
        lemma_concat_associative(o, p, code_if(a.underline, "\x1b[4m"@));
        p = p + code_if(a.underline, "\x1b[4m"@);
    }
    append_if(out, a.blink, "\x1b[5m");
    proof {
        lemma_concat_associative(o, p, code_if(a.blink, "\x1b[5m"@));
        p = p + code_if(a.blink, "\x1b[5m"@);
    }
    append_if(out, a.reverse, "\x1b[7m");
    proof {
        lemma_concat_associative(o, p, code_if(a.reverse, "\x1b[7m"@));
    }
}

/// Appends one segment as style codes, text and reset.
pub fn append_segment(out: &mut String, s: &Segment)
    ensures
        final(out)@ == old(out)@ + segment_out(s@),
{
    let ghost before = out@;
    let ghost c = match s.color {
        Some(c) => color_code(c),
        None => Seq::empty(),
    };
    match s.color {
        Some(k) => out.append(color_str(k)),
        None => {
            assert(out@ =~= before + c);
        },
    }
    append_attrs(out, s.attrs);
    proof {
        lemma_concat_associative(before, c, attr_codes(s.attrs));
    }
    let ghost pre = style_prefix(s.color, s.attrs);
    out.append(s.text.as_str());
    proof {
        lemma_concat_associative(before, pre, s.text@);
    }
    out.append("\x1b[0m");
    proof {
        lemma_concat_associative(before, pre + s.text@, reset_code());
    }
}

/// Renders a format for a terminal: every unit's segment with its own style
/// codes and a reset after it, then a newline.
pub fn render_terminal(fmt: &Format, facts: &ExchangeFacts) -> (r: String)
    requires
        facts.wf(),
    ensures
        r@ == segments_out(fmt@.map_values(|u: UnitModel| segment_of(u, *facts))) + "\n"@,
{
    let segs = render_segments(fmt, facts);
    let ghost sm = fmt@.map_values(|u: UnitModel| segment_of(u, *facts));
    let mut out = String::new();
    let mut i: usize = 0;
    assert(sm.subrange(0, 0) =~= Seq::<SegmentModel>::empty());
    while i < segs.len()
        invariant
            i <= segs@.len(),
            segs@.map_values(|s: Segment| s@) == sm,
            out@ == segments_out(sm.subrange(0, i as int)),
        decreases segs@.len() - i,
    {
        assert(segs@.map_values(|s: Segment| s@)[i as int] == segs@[i as int]@);
        append_segment(&mut out, &segs[i]);
        assert(sm.subrange(0, i + 1).drop_last() =~= sm.subrange(0, i as int));
        i = i + 1;
    }
    assert(sm.subrange(0, i as int) =~= sm);
    out.append("\n");
    out
}

/// On a terminal every segment's text comes right after its own style codes,
/// and a reset comes right after it: the text of a plan with one more segment
/// is the earlier text, that segment's codes, its text, and a reset.
pub proof fn terminal_styles_do_not_bleed(segs: Seq<SegmentModel>, s: SegmentModel)
    ensures
        segments_out(segs.push(s)) == segments_out(segs) + style_prefix(s.color, s.attrs) + s.text + reset_code(),
{
    assert(segs.push(s).drop_last() =~= segs);
    assert(segments_out(segs) + (style_prefix(s.color, s.attrs) + s.text + reset_code()) =~= segments_out(segs)
        + style_prefix(s.color, s.attrs) + s.text + reset_code());
}

} // verus!
