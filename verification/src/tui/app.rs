//! The state of the radar, and what each input makes of it.

use crate::api::{Flight, FlightDetail, Meta, PictureResponse};
use crate::client::ClientError;
use crate::display;
use crate::selection;
use crate::span::Span;
use crate::tui::event::Action;
use vstd::prelude::*;

verus! {

/// Which view is foremost.
#[derive(Clone, Copy, Debug, PartialEq, Eq, Structural)]
pub enum Mode {
    Radar,
    Detail,
}

/// Whether the last request for the picture reached the server.
#[derive(Debug)]
pub enum Conn {
    Up,
    Down(String),
}

/// What the detail view has of the selected flight.
#[derive(Debug)]
pub enum DetailView {
    Loaded(Box<FlightDetail>),
    LeftArea,
    Error(String),
}

#[derive(Debug)]
pub struct App {
    pub meta: Meta,
    /// The time of one frame.
    pub fps_interval: Span,
    pub running: bool,
    pub mode: Mode,
    /// The latest picture.
    pub picture: Option<PictureResponse>,
    pub conn: Conn,
    /// The address of the selected flight.
    pub selected_hex: Option<String>,
    pub detail: Option<DetailView>,
    /// Whether the detail of the selected flight is to be fetched.
    pub detail_pending: bool,
    /// How far the detail view is scrolled, in lines.
    pub detail_scroll: u16,
}

impl App {
    /// The flights of the latest picture, nearest first.
    pub open spec fn flights(self) -> Seq<Flight> {
        match self.picture {
            Some(p) => p.tracks@,
            None => Seq::empty(),
        }
    }

    /// Whether the latest picture has the selected flight.
    pub open spec fn selection_present(self) -> bool {
        exists|j: int|
            0 <= j < self.flights().len() && (#[trigger] self.flights()[j]).hex@
                == self.selected_hex->0@
    }

    /// The address to show in full: the selected one, or else the nearest flight's.
    pub open spec fn chosen(self) -> Option<String> {
        if self.selected_hex is Some {
            self.selected_hex
        } else if self.flights().len() > 0 {
            Some(self.flights()[0].hex)
        } else {
            None
        }
    }

    /// This state with the detail of the chosen flight open and asked for, where there is one.
    pub open spec fn with_detail_open(self) -> App {
        if self.chosen() is Some {
            App {
                selected_hex: self.chosen(),
                mode: Mode::Detail,
                detail_scroll: 0,
                detail_pending: true,
                ..self
            }
        } else {
            self
        }
    }

    /// A radar that has not asked yet.
    pub fn new(meta: Meta, fps_interval: Span) -> (r: App)
        ensures
            r.meta == meta,
            r.fps_interval == fps_interval,
            r.running,
            r.mode == Mode::Radar,
            r.picture is None,
            r.conn is Up,
            r.selected_hex is None,
            r.detail is None,
            !r.detail_pending,
            r.detail_scroll == 0,
    {
        App {
            meta,
            fps_interval,
            running: true,
            mode: Mode::Radar,
            picture: None,
            conn: Conn::Up,
            selected_hex: None,
            detail: None,
            detail_pending: false,
            detail_scroll: 0,
        }
    }

    /// The flights of the latest picture, nearest first.
    pub fn tracks(&self) -> (r: &[Flight])
        ensures
            r@ == self.flights(),
    {
        match &self.picture {
            Some(p) => p.tracks.as_slice(),
            None => {
                let none: &[Flight] = &[];
                assert(none@ =~= Seq::<Flight>::empty());
                none
            },
        }
    }

    /// Takes in the reply to a request for the picture. A failure keeps the last picture. A
    /// selected flight that is gone from the picture while its detail is open has left.
    pub fn refresh(&mut self, reply: Result<PictureResponse, ClientError>)
        ensures
            reply is Ok ==> final(self).conn is Up && final(self).picture == Some(reply->Ok_0),
            reply is Ok ==> final(self).detail == (if old(self).mode == Mode::Detail
                && old(self).selected_hex is Some && !final(self).selection_present() {
                Some(DetailView::LeftArea)
            } else {
                old(self).detail
            }),
            reply is Err ==> final(self).conn is Down && final(self).conn->Down_0@
                == reply->Err_0.words(),
            reply is Err ==> final(self).picture == old(self).picture && final(self).detail
                == old(self).detail,
            final(self).meta == old(self).meta,
            final(self).fps_interval == old(self).fps_interval,
            final(self).running == old(self).running,
            final(self).mode == old(self).mode,
            final(self).selected_hex == old(self).selected_hex,
            final(self).detail_pending == old(self).detail_pending,
            final(self).detail_scroll == old(self).detail_scroll,
    {
        match reply {
            Ok(picture) => {
                self.conn = Conn::Up;
                if self.mode == Mode::Detail {
                    match &self.selected_hex {
                        Some(hex) => {
                            let at = display::find_hex(&picture.tracks, hex.as_str());
                            match at {
                                Some(k) => {
                                    assert(picture.tracks@[k as int].hex@ == hex@);
                                },
                                None => {
                                    self.detail = Some(DetailView::LeftArea);
                                },
                            }
                        },
                        None => {},
                    }
                }
                self.picture = Some(picture);
            },
            Err(e) => {
                self.conn = Conn::Down(e.message());
            },
        }
    }

    /// The address whose detail is to be fetched now, if any. Asked once, it is not asked
    /// again until the selection moves.
    pub fn next_fetch(&mut self) -> (r: Option<String>)
        ensures
            r == (if old(self).detail_pending {
                old(self).selected_hex
            } else {
                None
            }),
            *final(self) == (App {
                detail_pending: false,
                detail: if old(self).detail_pending && old(self).selected_hex is None {
                    None
                } else {
                    old(self).detail
                },
                ..*old(self)
            }),
    {
        if !self.detail_pending {
            return None;
        }
        self.detail_pending = false;
        match &self.selected_hex {
            Some(hex) => Some(hex.clone()),
            None => {
                self.detail = None;
                None
            },
        }
    }

    /// Takes in the reply to a request for a flight's detail.
    pub fn sync_detail(&mut self, reply: Result<Option<FlightDetail>, ClientError>)
        ensures
            *final(self) == (App { detail: final(self).detail, ..*old(self) }),
            match reply {
                Ok(Some(d)) => final(self).detail == Some(DetailView::Loaded(Box::new(d))),
                Ok(None) => final(self).detail == Some(DetailView::LeftArea),
                Err(e) => final(self).detail is Some && final(self).detail->0 is Error
                    && final(self).detail->0->Error_0@ == e.words(),
            },
    {
        self.detail = Some(
            match reply {
                Ok(Some(d)) => DetailView::Loaded(Box::new(d)),
                Ok(None) => DetailView::LeftArea,
                Err(e) => DetailView::Error(e.message()),
            },
        );
    }

    /// Selects the next flight.
    pub fn select_next(&mut self)
        ensures
            App::stepped(*old(self), *final(self), true),
    {
        self.step_selection(true);
    }

    /// Selects the previous flight.
    pub fn select_prev(&mut self)
        ensures
            App::stepped(*old(self), *final(self), false),
    {
        self.step_selection(false);
    }

    /// Selects nothing.
    pub fn clear_selection(&mut self)
        ensures
            *final(self) == (App { selected_hex: None, ..*old(self) }),
    {
        self.selected_hex = None;
    }

    /// Shows the selected flight in full, or the nearest where none is selected; stays on the
    /// radar where there is none.
    pub fn open_detail(&mut self)
        ensures
            *final(self) == old(self).with_detail_open(),
    {
        if self.selected_hex.is_none() {
            let mut nearest: Option<String> = None;
            match &self.picture {
                Some(p) => {
                    if p.tracks.len() > 0 {
                        nearest = Some(p.tracks[0].hex.clone());
                    }
                },
                None => {},
            }
            self.selected_hex = nearest;
        }
        if self.selected_hex.is_some() {
            self.mode = Mode::Detail;
            self.detail_scroll = 0;
            self.detail_pending = true;
        }
    }

    /// Back to the radar, with the selection kept.
    pub fn close_detail(&mut self)
        ensures
            *final(self) == (App { mode: Mode::Radar, ..*old(self) }),
    {
        self.mode = Mode::Radar;
    }

    /// Scrolls the detail view, as far as counting goes.
    pub fn scroll_detail(&mut self, delta: i16)
        ensures
            *final(self) == (App {
                detail_scroll: crate::span::clamped(
                    old(self).detail_scroll + delta,
                    0,
                    u16::MAX as int,
                ) as u16,
                ..*old(self)
            }),
    {
        let moved: i32 = (self.detail_scroll as i32) + (delta as i32);
        self.detail_scroll = if moved < 0 {
            0
        } else if moved > 65535 {
            65535
        } else {
            moved as u16
        };
    }

    /// Whether `after` is `before` with the selection moved by one. Moving it scrolls back to
    /// the top and, while the detail is open, asks for the new flight's.
    pub open spec fn stepped(before: App, after: App, forward: bool) -> bool {
        let moved = before.flights().len() > 0 && crate::text::opt(before.selected_hex)
            != crate::text::opt(after.selected_hex);
        &&& selection::is_step(before.flights(), before.selected_hex, forward, after.selected_hex)
        &&& after == (App {
            selected_hex: after.selected_hex,
            detail_scroll: if moved {
                0
            } else {
                before.detail_scroll
            },
            detail_pending: before.detail_pending || (moved && before.mode == Mode::Detail),
            ..before
        })
    }

    fn step_selection(&mut self, forward: bool)
        ensures
            App::stepped(*old(self), *final(self), forward),
    {
        let next = match &self.picture {
            Some(p) => selection::step(&p.tracks, &self.selected_hex, forward),
            None => None,
        };
        match &next {
            Some(hex) => {
                if !display::names(hex, &self.selected_hex) {
                    self.detail_scroll = 0;
                    if self.mode == Mode::Detail {
                        self.detail_pending = true;
                    }
                }
            },
            None => {},
        }
        self.selected_hex = next;
    }

    /// What an action makes of the state.
    pub fn act(&mut self, action: Action)
        ensures
            match action {
                Action::Quit => *final(self) == (App { running: false, ..*old(self) }),
                Action::SelectNext => App::stepped(*old(self), *final(self), true),
                Action::SelectPrev => App::stepped(*old(self), *final(self), false),
                Action::ClearSelection => *final(self) == (App {
                    selected_hex: None,
                    ..*old(self)
                }),
                Action::OpenDetail => *final(self) == old(self).with_detail_open(),
                Action::CloseDetail => *final(self) == (App { mode: Mode::Radar, ..*old(self) }),
                Action::ScrollUp => *final(self) == (App {
                    detail_scroll: crate::span::clamped(
                        old(self).detail_scroll - 5,
                        0,
                        u16::MAX as int,
                    ) as u16,
                    ..*old(self)
                }),
                Action::ScrollDown => *final(self) == (App {
                    detail_scroll: crate::span::clamped(
                        old(self).detail_scroll + 5,
                        0,
                        u16::MAX as int,
                    ) as u16,
                    ..*old(self)
                }),
                Action::Ignore => *final(self) == *old(self),
            },
    {
        match action {
            Action::Quit => {
                self.running = false;
            },
            Action::SelectNext => self.select_next(),
            Action::SelectPrev => self.select_prev(),
            Action::ClearSelection => self.clear_selection(),
            Action::OpenDetail => self.open_detail(),
            Action::CloseDetail => self.close_detail(),
            Action::ScrollUp => self.scroll_detail(-5),
            Action::ScrollDown => self.scroll_detail(5),
            Action::Ignore => {},
        }
    }
}

/// Opening the detail shows the selected flight, or the nearest where none is selected, from its
/// top, and asks for it; without either nothing changes. The picture and the connection stay.
pub proof fn law_detail_opens_on_the_selected_or_nearest(app: App)
    ensures
        ({
            let open = app.with_detail_open();
            let any = app.selected_hex is Some || app.flights().len() > 0;
            &&& !any ==> open == app
            &&& any ==> open.mode == Mode::Detail && open.detail_pending && open.detail_scroll == 0
            &&& app.selected_hex is Some ==> open.selected_hex == app.selected_hex
            &&& app.selected_hex is None && any ==> open.selected_hex == Some(
                app.flights()[0].hex,
            )
            &&& open.picture == app.picture && open.conn == app.conn && open.meta == app.meta
                && open.running == app.running
        }),
{
}

/// Stepping moves the selection alone: it scrolls back to the top where it moved, and asks for
/// the new flight only while the detail is open; the view, the picture and the rest stay.
pub proof fn law_stepping_moves_the_selection_alone(before: App, after: App, forward: bool)
    requires
        App::stepped(before, after, forward),
    ensures
        after.mode == before.mode,
        after.picture == before.picture,
        after.conn == before.conn,
        after.detail == before.detail,
        after.running == before.running,
        before.mode == Mode::Radar ==> after.detail_pending == before.detail_pending,
        before.flights().len() > 0 && before.mode == Mode::Detail && crate::text::opt(
            before.selected_hex,
        ) != crate::text::opt(after.selected_hex) ==> after.detail_pending && after.detail_scroll
            == 0,
        crate::text::opt(before.selected_hex) == crate::text::opt(after.selected_hex)
            ==> after.detail_scroll == before.detail_scroll && after.detail_pending
            == before.detail_pending,
        before.flights().len() == 0 ==> after.selected_hex is None,
{
}

/// The selected flight is there exactly where a flight of the picture has its address.
pub proof fn law_presence_is_by_address(app: App, k: int)
    requires
        app.selected_hex is Some,
    ensures
        0 <= k < app.flights().len() && app.flights()[k].hex@ == app.selected_hex->0@
            ==> app.selection_present(),
        (forall|j: int|
            0 <= j < app.flights().len() ==> (#[trigger] app.flights()[j]).hex@
                != app.selected_hex->0@) ==> !app.selection_present(),
        app.picture is Some ==> app.flights() == app.picture->0.tracks@,
        app.picture is None ==> app.flights().len() == 0,
{
}

} // verus!
