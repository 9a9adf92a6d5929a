//! The detail overlay of the page.

use crate::detail::{self, Entry};
use crate::text;
use crate::web::app::{DetailView, Mode};
use vstd::prelude::*;

verus! {

/// What the overlay shows.
#[derive(Debug)]
pub enum Overlay {
    /// Everything there is to show of a flight.
    Entries(Vec<Entry>),
    /// Why there is nothing.
    Notice(String),
}

/// Whether `r` is what the overlay shows: nothing while the radar is foremost.
pub open spec fn is_overlay(r: Option<Overlay>, mode: Mode, view: Option<DetailView>) -> bool {
    if mode != Mode::Detail {
        r is None
    } else {
        match view {
            Some(DetailView::Loaded(d)) => r is Some && r->0 is Entries && detail::entries_view(
                r->0->Entries_0@,
            ) == detail::everything(*d, true),
            Some(DetailView::LeftArea) => r is Some && r->0 is Notice && r->0->Notice_0@
                == "— flight left the area —"@,
            Some(DetailView::Error(e)) => r is Some && r->0 is Notice && r->0->Notice_0@ == "— "@
                + e@ + " —"@,
            _ => r is Some && r->0 is Notice && r->0->Notice_0@ == "— loading… —"@,
        }
    }
}

/// What the overlay shows, if it is open.
pub fn overlay(mode: Mode, view: &Option<DetailView>) -> (r: Option<Overlay>)
    ensures
        is_overlay(r, mode, *view),
{
    if mode != Mode::Detail {
        return None;
    }
    Some(
        match view {
            Some(DetailView::Loaded(d)) => Overlay::Entries(detail::entries(d, true)),
            Some(DetailView::LeftArea) => Overlay::Notice("— flight left the area —".to_owned()),
            Some(DetailView::Error(e)) => Overlay::Notice(text::concat3("— ", e.as_str(), " —")),
            _ => Overlay::Notice("— loading… —".to_owned()),
        },
    )
}

} // verus!
