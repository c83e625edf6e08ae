//! What is handed to the screen: the samples to draw and where to draw them.

use vstd::prelude::*;
use crate::window::SlidingWindow;

verus! {

/// The rows kept free at the top of the screen.
pub const HEADER_ROWS: u16 = 3;

/// The rows kept free between the header and the sparkline.
pub const SPACER_ROWS: u16 = 3;

/// A rectangle of terminal cells.
#[derive(Debug, Clone, Copy, PartialEq, Eq, Structural)]
pub struct Region {
    /// The column of its left edge.
    pub x: u16,
    /// The row of its top edge.
    pub y: u16,
    /// How many columns it spans.
    pub width: u16,
    /// How many rows it spans.
    pub height: u16,
}

/// How many rows one band of the screen asks for.
#[derive(Debug, Clone, Copy, PartialEq, Eq, Structural)]
pub enum Band {
    /// Exactly this many rows, if there are that many.
    Length(u16),
    /// At least this many rows, and whatever else is left.
    Min(u16),
}

/// One frame of the display.
#[derive(Debug)]
pub struct DrawPlan {
    /// Where the sparkline goes.
    pub region: Region,
    /// The samples to draw, newest first.
    pub samples: Vec<u64>,
}

/// `inner` spans the columns of `outer` and lies within its rows.
pub open spec fn is_band_of(inner: Region, outer: Region) -> bool {
    &&& inner.x == outer.x
    &&& inner.width == outer.width
    &&& outer.y <= inner.y
    &&& inner.y + inner.height <= outer.y + outer.height
}

/// Builds a top-to-bottom layout of `ratatui` with one constraint for each
/// of `bands` (`Layout::vertical`) and splits `area` by it (`Layout::split`).
///
/// Which rows each band gets is worked out by a constraint solver, and the
/// contract says nothing of it. It claims only what `ratatui` requires of
/// every solution and how it makes the rectangles: there is one for each
/// band, each has the columns of `area`, and each lies within its rows.
#[verifier::external_body]
fn split_vertical(area: Region, bands: &Vec<Band>) -> (rects: Vec<Region>)
    ensures
        rects@.len() == bands@.len(),
        forall|i: int| 0 <= i < rects@.len() ==> is_band_of(#[trigger] rects@[i], area),
{
    let rect = ratatui::layout::Rect { x: area.x, y: area.y, width: area.width, height: area.height };
    let constraints = bands.iter().map(|band| match band {
        Band::Length(rows) => ratatui::layout::Constraint::Length(*rows),
        Band::Min(rows) => ratatui::layout::Constraint::Min(*rows),
    });
    let rects = ratatui::layout::Layout::vertical(constraints).split(rect);
    rects.iter().map(|r| Region { x: r.x, y: r.y, width: r.width, height: r.height }).collect()
}

/// The frame to draw for `window` on a screen of the size `area`: all of the
/// window's samples, newest first, in the last of three bands: a header, a
/// spacer, and the rest. The band spans the columns of `area` and lies
/// within its rows; which rows it gets is the layout's decision.
pub fn draw_plan(window: &SlidingWindow, area: Region) -> (plan: DrawPlan)
    requires
        window.well_formed(),
    ensures
        plan.samples@ == window@,
        is_band_of(plan.region, area),
{
    let bands: Vec<Band> = vec![Band::Length(HEADER_ROWS), Band::Length(SPACER_ROWS), Band::Min(0)];
    let rects: Vec<Region> = split_vertical(area, &bands);
    DrawPlan { region: rects[2], samples: window.as_sequence() }
}

} // verus!
