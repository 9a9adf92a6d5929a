//! The state of the page, and what each event makes of it.

use crate::api::{Flight, FlightDetail, Meta, PictureResponse};
use crate::display;
use crate::selection;
use crate::text;
use crate::web::client::ApiError;
use vstd::prelude::*;

verus! {

/// Whether the last request for the picture reached the server.
#[derive(Debug)]
pub enum Conn {
    Connecting,
    Up,
    Down(String),
}

/// Which view is foremost.
#[derive(Clone, Copy, Debug, PartialEq, Eq, Structural)]
pub enum Mode {
    Radar,
    Detail,
}

/// What the detail view has of the selected flight.
#[derive(Debug)]
pub enum DetailView {
    Loading,
    Loaded(Box<FlightDetail>),
    LeftArea,
    Error(String),
}

/// The state of the page.
#[derive(Debug)]
pub struct App {
    pub meta: Option<Meta>,
    pub picture: Option<PictureResponse>,
    pub conn: Conn,
    /// The address of the selected flight.
    pub selected: Option<String>,
    pub mode: Mode,
    pub detail: Option<DetailView>,
}

impl App {
    /// The flights of the latest picture, nearest first.
    pub open spec fn flights(self) -> Seq<Flight> {
        match self.picture {
            Some(p) => p.tracks@,
            None => Seq::empty(),
        }
    }

    /// Whether the latest picture has the selected flight.
    pub open spec fn selection_present(self) -> bool {
        exists|j: int|
            0 <= j < self.flights().len() && (#[trigger] self.flights()[j]).hex@
                == self.selected->0@
    }

    /// This state with a flight selected, its detail open and asked for.
    pub open spec fn with_open(self, hex: String) -> App {
        App {
            selected: Some(hex),
            mode: Mode::Detail,
            detail: Some(DetailView::Loading),
            ..self
        }
    }

    /// A page that has not asked yet.
    pub fn new() -> (r: App)
        ensures
            r.meta is None,
            r.picture is None,
            r.conn is Connecting,
            r.selected is None,
            r.mode == Mode::Radar,
            r.detail is None,
    {
        App {
            meta: None,
            picture: None,
            conn: Conn::Connecting,
            selected: None,
            mode: Mode::Radar,
            detail: None,
        }
    }

    /// Opens a flight's detail; what is returned is the address to fetch.
    pub fn open(&mut self, hex: String) -> (fetch: String)
        ensures
            *final(self) == old(self).with_open(hex),
            fetch == hex,
    {
        let fetch = hex.clone();
        self.selected = Some(hex);
        self.mode = Mode::Detail;
        self.detail = Some(DetailView::Loading);
        fetch
    }

    /// Takes in the reply to a request for a flight's detail, unless the selection has moved on
    /// in the meantime.
    pub fn on_detail(&mut self, hex: &String, reply: Result<Option<FlightDetail>, ApiError>)
        ensures
            !display::is_hex(*hex, old(self).selected) ==> *final(self) == *old(self),
            display::is_hex(*hex, old(self).selected) ==> *final(self) == (App {
                detail: final(self).detail,
                ..*old(self)
            }) && (match reply {
                Ok(Some(d)) => final(self).detail == Some(DetailView::Loaded(Box::new(d))),
                Ok(None) => final(self).detail == Some(DetailView::LeftArea),
                Err(e) => final(self).detail is Some && final(self).detail->0 is Error
                    && final(self).detail->0->Error_0@ == e.words(),
            }),
    {
        if display::names(hex, &self.selected) {
            self.detail = Some(
                match reply {
                    Ok(Some(d)) => DetailView::Loaded(Box::new(d)),
                    Ok(None) => DetailView::LeftArea,
                    Err(e) => DetailView::Error(e.message()),
                },
            );
        }
    }

    /// Closes the detail; the selection stays.
    pub fn close(&mut self)
        ensures
            *final(self) == (App { mode: Mode::Radar, ..*old(self) }),
    {
        self.mode = Mode::Radar;
    }

    /// Whether the unchanging facts are still to be fetched.
    pub fn needs_meta(&self) -> (r: bool)
        ensures
            r == (self.meta is None),
    {
        self.meta.is_none()
    }

    /// Takes in the reply to a request for the unchanging facts; a failure is tried again.
    pub fn on_meta(&mut self, reply: Result<Meta, ApiError>)
        ensures
            *final(self) == (App {
                meta: match reply {
                    Ok(m) => Some(m),
                    Err(_) => old(self).meta,
                },
                ..*old(self)
            }),
    {
        match reply {
            Ok(m) => {
                self.meta = Some(m);
            },
            Err(_) => {},
        }
    }

    /// Takes in the reply to a request for the picture. A failure keeps the last picture. A
    /// selected flight that is gone from the picture while its detail is open has left.
    pub fn on_picture(&mut self, reply: Result<PictureResponse, ApiError>)
        ensures
            reply is Ok ==> final(self).conn is Up && final(self).picture == Some(reply->Ok_0),
            reply is Ok ==> final(self).detail == (if old(self).mode == Mode::Detail
                && old(self).selected is Some && !final(self).selection_present() {
                Some(DetailView::LeftArea)
            } else {
                old(self).detail
            }),
            reply is Err ==> final(self).conn is Down && final(self).conn->Down_0@
                == reply->Err_0.words(),
            reply is Err ==> final(self).picture == old(self).picture && final(self).detail
                == old(self).detail,
            final(self).meta == old(self).meta,
            final(self).selected == old(self).selected,
            final(self).mode == old(self).mode,
    {
        match reply {
            Ok(picture) => {
                self.conn = Conn::Up;
                if self.mode == Mode::Detail {
                    match &self.selected {
                        Some(hex) => {
                            match display::find_hex(&picture.tracks, hex.as_str()) {
                                Some(k) => {
                                    assert(picture.tracks@[k as int].hex@ == hex@);
                                },
                                None => {
                                    self.detail = Some(DetailView::LeftArea);
                                },
                            }
                        },
                        None => {},
                    }
                }
                self.picture = Some(picture);
            },
            Err(e) => {
                self.conn = Conn::Down(e.message());
            },
        }
    }

    /// Whether `after` and `fetch` are what a step makes of `before`: while the detail is open,
    /// it moves on to the flight that is now selected.
    pub open spec fn stepped(before: App, after: App, forward: bool, fetch: Option<String>) -> bool {
        let next = after.selected;
        let moved = next is Some && !display::is_hex(next->0, before.selected);
        &&& selection::is_step(before.flights(), before.selected, forward, next)
        &&& if moved && before.mode == Mode::Detail {
            after == before.with_open(next->0) && fetch == next
        } else {
            after == (App { selected: next, ..before }) && fetch is None
        }
    }

    /// Moves the selection by one; what is returned is the address to fetch, if any.
    pub fn step(&mut self, forward: bool) -> (fetch: Option<String>)
        ensures
            App::stepped(*old(self), *final(self), forward, fetch),
    {
        let next = match &self.picture {
            Some(p) => selection::step(&p.tracks, &self.selected, forward),
            None => None,
        };
        match next {
            Some(hex) => {
                let changed = !display::names(&hex, &self.selected);
                if changed && self.mode == Mode::Detail {
                    Some(self.open(hex))
                } else {
                    self.selected = Some(hex);
                    None
                }
            },
            None => {
                self.selected = None;
                None
            },
        }
    }

    /// The address to show in full: the selected one, or else the nearest flight's.
    pub open spec fn chosen(self) -> Option<String> {
        if self.selected is Some {
            self.selected
        } else if self.flights().len() > 0 {
            Some(self.flights()[0].hex)
        } else {
            None
        }
    }

    /// Opens the detail of the selected or the nearest flight; what is returned is the address
    /// to fetch, if any.
    pub fn open_selected(&mut self) -> (fetch: Option<String>)
        ensures
            fetch == old(self).chosen(),
            *final(self) == (if old(self).chosen() is Some {
                old(self).with_open(old(self).chosen()->0)
            } else {
                *old(self)
            }),
    {
        let mut hex: Option<String> = self.selected.clone();
        if hex.is_none() {
            match &self.picture {
                Some(p) => {
                    if p.tracks.len() > 0 {
                        hex = Some(p.tracks[0].hex.clone());
                    }
                },
                None => {},
            }
        }
        match hex {
            Some(h) => Some(self.open(h)),
            None => None,
        }
    }

    /// Whether `after` and `fetch` are what a key makes of `before`.
    pub open spec fn keyed(before: App, after: App, key: Seq<char>, fetch: Option<String>) -> bool {
        if key == "ArrowDown"@ || key == "j"@ {
            App::stepped(before, after, true, fetch)
        } else if key == "ArrowUp"@ || key == "k"@ {
            App::stepped(before, after, false, fetch)
        } else if key == "Enter"@ && before.mode == Mode::Radar {
            fetch == before.chosen() && after == (if before.chosen() is Some {
                before.with_open(before.chosen()->0)
            } else {
                before
            })
        } else if key == "Escape"@ {
            fetch is None && after == (if before.mode == Mode::Detail {
                App { mode: Mode::Radar, ..before }
            } else {
                App { selected: None, ..before }
            })
        } else {
            fetch is None && after == before
        }
    }

    /// What a key does; what is returned is the address to fetch, if any.
    pub fn on_key(&mut self, key: &str) -> (fetch: Option<String>)
        ensures
            App::keyed(*old(self), *final(self), key@, fetch),
    {
        if text::same(key, "ArrowDown") || text::same(key, "j") {
            self.step(true)
        } else if text::same(key, "ArrowUp") || text::same(key, "k") {
            self.step(false)
        } else if text::same(key, "Enter") && self.mode == Mode::Radar {
            self.open_selected()
        } else if text::same(key, "Escape") {
            if self.mode == Mode::Detail {
                self.mode = Mode::Radar;
            } else {
                self.selected = None;
            }
            None
        } else {
            None
        }
    }
}

/// A page opens a detail at once, as loading, for the flight that was chosen; what it knows of
/// the server stays.
pub proof fn law_opening_shows_loading(app: App, hex: String)
    ensures
        ({
            let open = app.with_open(hex);
            &&& open.selected == Some(hex)
            &&& open.mode == Mode::Detail
            &&& open.detail is Some && open.detail->0 is Loading
            &&& open.picture == app.picture && open.conn == app.conn && open.meta == app.meta
        }),
{
}

/// The flight to open is the selected one, or else the nearest of the picture, or none.
pub proof fn law_selected_goes_before_nearest(app: App)
    ensures
        app.selected is Some ==> app.chosen() == app.selected,
        app.selected is None && app.flights().len() > 0 ==> app.chosen() == Some(
            app.flights()[0].hex,
        ),
        app.selected is None && app.flights().len() == 0 ==> app.chosen() is None,
{
}

/// Stepping asks for a flight exactly where the detail is open and the selection moved to
/// another one, and then for that one; the view and what is known of the server stay.
pub proof fn law_stepping_asks_only_while_open(
    before: App,
    after: App,
    forward: bool,
    fetch: Option<String>,
)
    requires
        App::stepped(before, after, forward, fetch),
    ensures
        fetch is Some <==> before.mode == Mode::Detail && after.selected is Some && text::opt(
            after.selected,
        ) != text::opt(before.selected),
        fetch is Some ==> fetch == after.selected && after.detail is Some && after.detail->0
            is Loading,
        fetch is None ==> after.detail == before.detail,
        after.mode == before.mode,
        after.picture == before.picture && after.conn == before.conn && after.meta == before.meta,
{
}

/// The letters and the arrows step alike; Escape closes the detail and on the radar clears the
/// selection; Enter opens from the radar alone; and no other key does anything.
pub proof fn law_keys_of_the_page(before: App, after: App, fetch: Option<String>)
    ensures
        App::keyed(before, after, "j"@, fetch) <==> App::stepped(before, after, true, fetch),
        App::keyed(before, after, "ArrowDown"@, fetch) <==> App::stepped(
            before,
            after,
            true,
            fetch,
        ),
        App::keyed(before, after, "k"@, fetch) <==> App::stepped(before, after, false, fetch),
        App::keyed(before, after, "ArrowUp"@, fetch) <==> App::stepped(
            before,
            after,
            false,
            fetch,
        ),
        App::keyed(before, after, "Escape"@, fetch) && before.mode == Mode::Detail ==> fetch
            is None && after.mode == Mode::Radar && after.selected == before.selected,
        App::keyed(before, after, "Escape"@, fetch) && before.mode == Mode::Radar ==> fetch
            is None && after.mode == Mode::Radar && after.selected is None,
        App::keyed(before, after, "Enter"@, fetch) && before.mode == Mode::Detail ==> fetch
            is None && after == before,
        App::keyed(before, after, "Enter"@, fetch) && before.mode == Mode::Radar ==> fetch
            == before.chosen() && (fetch is Some ==> after.mode == Mode::Detail && after.selected
            == fetch) && (fetch is None ==> after == before),
        App::keyed(before, after, "x"@, fetch) ==> fetch is None && after == before,
{
    reveal_strlit("j");
    reveal_strlit("k");
    reveal_strlit("x");
    reveal_strlit("ArrowDown");
    reveal_strlit("ArrowUp");
    reveal_strlit("Escape");
    reveal_strlit("Enter");
    assert("j"@.len() == 1 && "k"@.len() == 1 && "x"@.len() == 1 && "ArrowDown"@.len() == 9);
    assert("ArrowUp"@.len() == 7 && "Escape"@.len() == 6 && "Enter"@.len() == 5);
    assert("j"@[0] == 'j' && "k"@[0] == 'k' && "x"@[0] == 'x');
}

/// The selection is present where a flight of the picture, whichever, has its address.
pub proof fn law_presence_is_by_address(app: App, j: int)
    requires
        app.selected is Some,
    ensures
        0 <= j < app.flights().len() && app.flights()[j].hex@ == app.selected->0@
            ==> app.selection_present(),
        app.flights().len() == 0 ==> !app.selection_present(),
        app.selection_present() ==> exists|k: int|
            0 <= k < app.flights().len() && (#[trigger] app.flights()[k]).hex@
                == app.selected->0@,
{
}

} // verus!
