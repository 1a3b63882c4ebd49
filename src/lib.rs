//! Request logging: a small template language for log lines, compiled once
//! and rendered against the facts of each finished request/response exchange.
use vstd::prelude::*;

pub mod format;
pub mod render;
pub mod style;
pub mod terminal;
pub mod timing;

use crate::format::{default_pieces, styled, Format, Piece, UnitModel};
use crate::render::{line_text, render_plain, render_segments, segment_of, ExchangeFacts, Segment};
use crate::style::StyleTable;

verus! {

/// Logs one line per exchange, in the given format or the default one:
/// `{method} {uri} -> {status} ({response-time} ms)`.
pub struct Logger {
    format: Option<Format>,
}

impl Logger {
    /// A logger with the given compiled format; `None` selects the default format.
    pub fn new(format: Option<Format>) -> (r: Logger)
        ensures
            r.plan() == Logger::plan_of(format),
    {
        Logger { format }
    }

    pub open spec fn plan_of(format: Option<Format>) -> Seq<UnitModel> {
        match format {
            Some(f) => f@,
            None => default_pieces().map_values(|x: Piece| styled(StyleTable::plain_spec(), x)),
        }
    }

    /// The plan this logger renders with.
    pub closed spec fn plan(&self) -> Seq<UnitModel> {
        Logger::plan_of(self.format)
    }

    /// The log line for one exchange, as plain text.
    pub fn render_line(&self, facts: &ExchangeFacts) -> (r: String)
        requires
            facts.wf(),
        ensures
            r@ == line_text(self.plan(), *facts),
    {
        match &self.format {
            Some(f) => render_plain(f, facts),
            None => {
                let d = Format::default();
                render_plain(&d, facts)
            },
        }
    }

    /// The log line for one exchange, as styled segments.
    pub fn render_styled(&self, facts: &ExchangeFacts) -> (r: Vec<Segment>)
        requires
            facts.wf(),
        ensures
            r@.map_values(|s: Segment| s@) == self.plan().map_values(|u: UnitModel| segment_of(u, *facts)),
    {
        match &self.format {
            Some(f) => render_segments(f, facts),
            None => {
                let d = Format::default();
                render_segments(&d, facts)
            },
        }
    }
}

} // verus!
