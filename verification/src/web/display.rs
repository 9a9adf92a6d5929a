//! The colours of the page, by the part that a flight plays.

use crate::api::{Cpa, Flight, VerticalTrend};
use crate::display;
use vstd::prelude::*;

verus! {

pub const COL_SELECTED: &'static str = "#f5f6f7";

pub const COL_PACING: &'static str = "#ff6b6b";

pub const COL_NEAREST: &'static str = "#5fd7ff";

pub const COL_ANON: &'static str = "#5a6270";

pub const COL_APPROACH: &'static str = "#a6e22e";

pub const COL_RECEDE: &'static str = "#5c9eff";

pub const COL_HOME: &'static str = "#ffd866";

pub const COL_RING: &'static str = "#39414d";

pub const COL_CROSS: &'static str = "#222831";

/// Whether a flight's closest pass is not yet behind.
pub fn approaching(c: &Cpa) -> (r: bool)
    ensures
        r == c.approaching(),
{
    c.is_approaching()
}

/// The colour of a blip: selected, then pacing, then nearest, then anonymous, then by approach.
pub open spec fn color_of(
    f: Flight,
    nearest: Option<String>,
    pacing: Option<String>,
    selected: Option<String>,
) -> Seq<char> {
    if display::is_hex(f.hex, selected) {
        COL_SELECTED@
    } else if display::is_hex(f.hex, pacing) {
        COL_PACING@
    } else if display::is_hex(f.hex, nearest) {
        COL_NEAREST@
    } else if f.ident is None {
        COL_ANON@
    } else if f.cpa is Some && f.cpa->0.approaching() {
        COL_APPROACH@
    } else {
        COL_RECEDE@
    }
}

/// The colour of a blip.
pub fn blip_color(
    f: &Flight,
    nearest: &Option<String>,
    pacing: &Option<String>,
    selected: &Option<String>,
) -> (r: &'static str)
    ensures
        r@ == color_of(*f, *nearest, *pacing, *selected),
{
    if display::names(&f.hex, selected) {
        return COL_SELECTED;
    }
    if display::names(&f.hex, pacing) {
        return COL_PACING;
    }
    if display::names(&f.hex, nearest) {
        return COL_NEAREST;
    }
    if f.ident.is_none() {
        return COL_ANON;
    }
    match &f.cpa {
        Some(c) => if approaching(c) {
            COL_APPROACH
        } else {
            COL_RECEDE
        },
        None => COL_RECEDE,
    }
}

/// The colour of a vertical trend.
pub open spec fn trend_color(trend: VerticalTrend) -> Seq<char> {
    match trend {
        VerticalTrend::Climb => COL_APPROACH@,
        VerticalTrend::Descend => COL_NEAREST@,
        _ => COL_ANON@,
    }
}

/// The glyph and the colour of a vertical trend.
pub fn trend_glyph(trend: VerticalTrend) -> (r: (&'static str, &'static str))
    ensures
        r.0@ == display::glyph_text(trend),
        r.1@ == trend_color(trend),
{
    let color = match trend {
        VerticalTrend::Climb => COL_APPROACH,
        VerticalTrend::Descend => COL_NEAREST,
        _ => COL_ANON,
    };
    (display::trend_glyph(trend), color)
}

} // verus!
