//! The radar that polls for itself: the tracker, the selection and the countdown in one state.

use crate::api::{self, Flight, PictureResponse};
use crate::decimal;
use crate::display;
use crate::number::Number;
use crate::selection;
use crate::server::api as wire;
use crate::server::domain::{SearchArea, Snapshot};
use crate::server::sources::SourceError;
use crate::server::tracker::{self, Fix, Tracker, TrackerConfig};
use crate::span::{self, Moment, Span};
use crate::text;
use crate::tui::app::{DetailView, Mode};
use crate::tui::event::Action;
use crate::tui::render::{self, LineView};
use crate::tui::style::{self, Color, Styled};
use vstd::prelude::*;

verus! {

/// What a poll came to, and when the next one is due.
pub enum PollUpdate {
    Snapshot { snapshot: Snapshot, next_interval: Span },
    Error { error: SourceError, retry_in: Span },
}

impl PollUpdate {
    /// The time until the next poll.
    pub open spec fn wait(self) -> Span {
        match self {
            PollUpdate::Snapshot { next_interval, .. } => next_interval,
            PollUpdate::Error { retry_in, .. } => retry_in,
        }
    }
}

pub struct App {
    pub tracker: Tracker,
    pub area: SearchArea,
    pub source_name: String,
    /// The time of one frame.
    pub fps_interval: Span,
    pub relevance_nm: Number,
    pub running: bool,
    pub mode: Mode,
    /// The address of the selected flight.
    pub selected_hex: Option<String>,
    /// When the next poll is due.
    pub next_poll_at: Option<Moment>,
    /// How far the detail view is scrolled, in lines.
    pub detail_scroll: u16,
}

/// The address to show in full: the selected one, or else the nearest flight's.
pub open spec fn chosen(selected: Option<String>, flights: Seq<Flight>) -> Option<String> {
    if selected is Some {
        selected
    } else if flights.len() > 0 {
        Some(flights[0].hex)
    } else {
        None
    }
}

impl App {
    /// Whether only the tracker and the countdown may have changed.
    pub open spec fn same_view(before: App, after: App) -> bool {
        after == (App { tracker: after.tracker, next_poll_at: after.next_poll_at, ..before })
    }

    /// A radar that has not polled yet.
    pub fn new(
        area: SearchArea,
        tracker_cfg: TrackerConfig,
        source_name: String,
        fps_interval: Span,
        relevance_nm: Number,
    ) -> (r: App)
        ensures
            r.tracker.search_area() == area,
            r.tracker.config() == tracker_cfg,
            r.tracker.held().len() == 0,
            r.tracker.polled() is None,
            r.tracker.failure() is None,
            r.area == area,
            r.source_name == source_name,
            r.fps_interval == fps_interval,
            r.relevance_nm == relevance_nm,
            r.running,
            r.mode == Mode::Radar,
            r.selected_hex is None,
            r.next_poll_at is None,
            r.detail_scroll == 0,
    {
        App {
            tracker: Tracker::new(area, tracker_cfg),
            area,
            source_name,
            fps_interval,
            relevance_nm,
            running: true,
            mode: Mode::Radar,
            selected_hex: None,
            next_poll_at: None,
            detail_scroll: 0,
        }
    }

    /// Takes in what a poll came to. A snapshot is merged into the held tracks, a failure is
    /// noted; either sets the countdown. `retry_s` is the delay that a failing source names, in
    /// seconds.
    pub fn on_update(&mut self, update: PollUpdate, now: &Moment, retry_s: &Number)
        requires
            now.nanos + update.wait().nanos <= u64::MAX,
        ensures
            App::same_view(*old(self), *final(self)),
            final(self).next_poll_at is Some,
            final(self).next_poll_at->0.nanos == now.nanos + update.wait().nanos,
            final(self).tracker.search_area() == old(self).tracker.search_area(),
            final(self).tracker.config() == old(self).tracker.config(),
            match update {
                PollUpdate::Snapshot { snapshot, .. } => {
                    &&& final(self).tracker.held() == tracker::merged(
                        old(self).tracker.held(),
                        snapshot,
                        old(self).tracker.config().max_flight_age,
                    )
                    &&& final(self).tracker.polled() == Some(snapshot.taken_at)
                    &&& final(self).tracker.failure() is None
                },
                PollUpdate::Error { error, .. } => {
                    &&& final(self).tracker.held() == old(self).tracker.held()
                    &&& final(self).tracker.polled() == old(self).tracker.polled()
                    &&& text::opt(final(self).tracker.failure()) == Some(error.words(*retry_s))
                },
            },
    {
        match update {
            PollUpdate::Snapshot { snapshot, next_interval } => {
                self.tracker.ingest(snapshot);
                self.next_poll_at = Some(Moment { nanos: now.nanos + next_interval.nanos as u64 });
            },
            PollUpdate::Error { error, retry_in } => {
                self.tracker.note_error(error.message(retry_s));
                self.next_poll_at = Some(Moment { nanos: now.nanos + retry_in.nanos as u64 });
            },
        }
    }

    /// Notes that there will be no more polls.
    pub fn note_poller_stopped(&mut self)
        ensures
            App::same_view(*old(self), *final(self)),
            final(self).next_poll_at is None,
            text::opt(final(self).tracker.failure()) == Some("poller stopped"@),
            final(self).tracker.held() == old(self).tracker.held(),
            final(self).tracker.polled() == old(self).tracker.polled(),
            final(self).tracker.search_area() == old(self).tracker.search_area(),
            final(self).tracker.config() == old(self).tracker.config(),
    {
        self.tracker.note_error("poller stopped".to_owned());
        self.next_poll_at = None;
    }

    /// The time left until the next poll; none is left where it is overdue.
    pub fn countdown(&self, now: &Moment) -> (r: Option<Span>)
        ensures
            r is Some <==> self.next_poll_at is Some,
            r is Some ==> r->0.nanos == self.next_poll_at->0.since_spec(*now),
    {
        match &self.next_poll_at {
            Some(at) => Some(at.since(now)),
            None => None,
        }
    }

    /// All flights at an instant, from the geometry of the tracker's reckonings.
    pub fn picture(
        &self,
        now: &Moment,
        fixes: &Vec<Fix>,
        as_of: Number,
        snapshot_age_s: Option<Number>,
    ) -> (r: PictureResponse)
        requires
            fixes@.len() == self.tracker.plan(*now).len(),
        ensures
            r.as_of == as_of,
            r.snapshot_age_s == snapshot_age_s,
            (r.health, r.last_error) == wire::health_out(self.tracker.condition(*now)),
            r.tracks@ == wire::flights_out(self.tracker.tracks(*now, fixes@)),
            exists|idx: Option<usize>| #[trigger]
                tracker::paces(
                    self.tracker.tracks(*now, fixes@),
                    self.tracker.config().relevance_distance_nm,
                    fixes@.len() as int,
                    idx,
                ) && r.pacing_hex == (match tracker::pick(self.tracker.tracks(*now, fixes@), idx) {
                    Some(t) => Some(t.flight.hex),
                    None => None,
                }),
    {
        let all = self.tracker.picture_at(now, fixes);
        wire::picture(&all, as_of, snapshot_age_s)
    }

    /// What the detail view has of the selected flight at an instant: everything known of it,
    /// or that it has left.
    pub fn detail(&self, now: &Moment, fixes: &Vec<Fix>) -> (r: DetailView)
        requires
            fixes@.len() == self.tracker.plan(*now).len(),
        ensures
            match r {
                DetailView::Loaded(d) => self.selected_hex is Some && exists|k: int| #[trigger]
                    wire::is_first_with(
                        self.tracker.tracks(*now, fixes@),
                        self.selected_hex->0@,
                        k,
                    ) && d.flight == wire::flight_out(self.tracker.tracks(*now, fixes@)[k])
                        && api::groups_text(d.details@) == crate::server::domain::groups_text(
                        self.tracker.tracks(*now, fixes@)[k].flight.details@,
                    ),
                DetailView::LeftArea => self.selected_hex is Some ==> forall|j: int|
                    0 <= j < fixes@.len() ==> (#[trigger] self.tracker.tracks(
                        *now,
                        fixes@,
                    )[j]).flight.hex@ != self.selected_hex->0@,
                DetailView::Error(_) => false,
            },
    {
        let all = self.tracker.picture_at(now, fixes);
        match &self.selected_hex {
            Some(hex) => match wire::flight_detail(&all, hex.as_str()) {
                Some(d) => DetailView::Loaded(Box::new(d)),
                None => DetailView::LeftArea,
            },
            None => DetailView::LeftArea,
        }
    }

    /// Whether `after` is `before` with the selection moved by one among `flights`; moving it
    /// scrolls back to the top.
    pub open spec fn stepped(before: App, after: App, flights: Seq<Flight>, forward: bool) -> bool {
        let moved = flights.len() > 0 && text::opt(before.selected_hex) != text::opt(
            after.selected_hex,
        );
        &&& selection::is_step(flights, before.selected_hex, forward, after.selected_hex)
        &&& after == (App {
            selected_hex: after.selected_hex,
            detail_scroll: if moved {
                0
            } else {
                before.detail_scroll
            },
            ..before
        })
    }

    /// Selects the next of the flights.
    pub fn select_next(&mut self, tracks: &Vec<Flight>)
        ensures
            App::stepped(*old(self), *final(self), tracks@, true),
    {
        self.step_selection(tracks, true);
    }

    /// Selects the previous of the flights.
    pub fn select_prev(&mut self, tracks: &Vec<Flight>)
        ensures
            App::stepped(*old(self), *final(self), tracks@, false),
    {
        self.step_selection(tracks, false);
    }

    fn step_selection(&mut self, tracks: &Vec<Flight>, forward: bool)
        ensures
            App::stepped(*old(self), *final(self), tracks@, forward),
    {
        let next = selection::step(tracks, &self.selected_hex, forward);
        match &next {
            Some(hex) => {
                if !display::names(hex, &self.selected_hex) {
                    self.detail_scroll = 0;
                }
            },
            None => {},
        }
        self.selected_hex = next;
    }

    /// Selects nothing.
    pub fn clear_selection(&mut self)
        ensures
            *final(self) == (App { selected_hex: None, ..*old(self) }),
    {
        self.selected_hex = None;
    }

    /// This state with the detail of the chosen flight open, where there is one.
    pub open spec fn with_detail_open(self, flights: Seq<Flight>) -> App {
        if chosen(self.selected_hex, flights) is Some {
            App {
                selected_hex: chosen(self.selected_hex, flights),
                mode: Mode::Detail,
                detail_scroll: 0,
                ..self
            }
        } else {
            self
        }
    }

    /// Shows the selected flight in full, or the nearest where none is selected; stays on the
    /// radar where there is none.
    pub fn open_detail(&mut self, tracks: &Vec<Flight>)
        ensures
            *final(self) == old(self).with_detail_open(tracks@),
    {
        if self.selected_hex.is_none() && tracks.len() > 0 {
            self.selected_hex = Some(tracks[0].hex.clone());
        }
        if self.selected_hex.is_some() {
            self.mode = Mode::Detail;
            self.detail_scroll = 0;
        }
    }

    /// What an action makes of the state, given the flights at this instant.
    pub fn act(&mut self, action: Action, tracks: &Vec<Flight>)
        ensures
            match action {
                Action::Quit => *final(self) == (App { running: false, ..*old(self) }),
                Action::SelectNext => App::stepped(*old(self), *final(self), tracks@, true),
                Action::SelectPrev => App::stepped(*old(self), *final(self), tracks@, false),
                Action::ClearSelection => *final(self) == (App {
                    selected_hex: None,
                    ..*old(self)
                }),
                Action::OpenDetail => *final(self) == old(self).with_detail_open(tracks@),
                Action::CloseDetail => *final(self) == (App { mode: Mode::Radar, ..*old(self) }),
                Action::ScrollUp => *final(self) == (App {
                    detail_scroll: span::clamped(old(self).detail_scroll - 5, 0, 65535) as u16,
                    ..*old(self)
                }),
                Action::ScrollDown => *final(self) == (App {
                    detail_scroll: span::clamped(old(self).detail_scroll + 5, 0, 65535) as u16,
                    ..*old(self)
                }),
                Action::Ignore => *final(self) == *old(self),
            },
    {
        match action {
            Action::Quit => {
                self.running = false;
            },
            Action::SelectNext => self.select_next(tracks),
            Action::SelectPrev => self.select_prev(tracks),
            Action::ClearSelection => self.clear_selection(),
            Action::OpenDetail => self.open_detail(tracks),
            Action::CloseDetail => {
                self.mode = Mode::Radar;
            },
            Action::ScrollUp => {
                self.detail_scroll = if self.detail_scroll < 5 {
                    0
                } else {
                    self.detail_scroll - 5
                };
            },
            Action::ScrollDown => {
                self.detail_scroll = if self.detail_scroll > 65530 {
                    65535
                } else {
                    self.detail_scroll + 5
                };
            },
            Action::Ignore => {},
        }
    }
}

/// The line with the countdown and the relevance distance.
pub open spec fn cadence_text(countdown_s: Option<Number>, relevance_nm: Number) -> Seq<char> {
    "next poll in "@ + display::or_dash(countdown_s, 1, "s"@) + "   relevance "@
        + decimal::fixed_text(relevance_nm, 0) + "nm"@
}

/// The status block.
pub open spec fn status_view(app: App, picture: PictureResponse, countdown_s: Option<Number>) -> Seq<
    LineView,
> {
    let state = render::freshness(picture.health, picture.last_error);
    let flights = picture.tracks@;
    let head: Seq<LineView> = seq![
        render::head_view(
            app.source_name@,
            state.0,
            state.1,
            flights.len(),
            display::or_dash(picture.snapshot_age_s, 0, "s ago"@),
        ),
        seq![render::as_is("nearest  "@ + render::nearest_text(flights))],
        seq![render::as_is("pacing   "@ + render::pacing_text(flights, picture.pacing_hex))],
        seq![render::as_is(cadence_text(countdown_s, app.relevance_nm))],
        render::choice_view(flights, app.selected_hex),
    ];
    match state.2 {
        Some(e) => head.push(seq![render::in_color("! "@ + e, Color::Red)]),
        None => head,
    }
}

/// The status block, from the flights at an instant and the seconds left until the next poll.
pub fn status_lines(app: &App, picture: &PictureResponse, countdown_s: &Option<Number>) -> (r: Vec<
    Vec<Styled>,
>)
    ensures
        style::lines_view(r@) == status_view(*app, *picture, *countdown_s),
{
    let tracks = picture.tracks.as_slice();
    let nearest = render::show_nearest(tracks);
    let paced = render::show_pacing(tracks, &picture.pacing_hex);
    let (label, color, error) = render::show_freshness(picture.health, &picture.last_error);
    let age = display::number_or_dash(&picture.snapshot_age_s, 0, "s ago");
    let mut lines: Vec<Vec<Styled>> = Vec::new();
    lines.push(
        render::show_head(app.source_name.as_str(), label, color, tracks.len(), age.as_str()),
    );
    lines.push(style::single(style::raw(text::concat("nearest  ", nearest.as_str()))));
    lines.push(style::single(style::raw(text::concat("pacing   ", paced.as_str()))));
    let mut cadence = text::concat3(
        "next poll in ",
        display::number_or_dash(countdown_s, 1, "s").as_str(),
        "   relevance ",
    );
    cadence.append(decimal::fixed(&app.relevance_nm, 0).as_str());
    cadence.append("nm");
    lines.push(style::single(style::raw(cadence)));
    lines.push(render::show_choice(tracks, &app.selected_hex));
    match error {
        Some(e) => lines.push(
            style::single(style::colored(text::concat("! ", e.as_str()), Color::Red)),
        ),
        None => {},
    }
    assert(style::lines_view(lines@) =~= status_view(*app, *picture, *countdown_s));
    lines
}

/// The next poll is due after the interval that came with a snapshot, or the delay that came
/// with a failure.
pub proof fn law_wait_is_what_came_with_the_poll(
    snapshot: Snapshot,
    error: SourceError,
    next_interval: Span,
    retry_in: Span,
)
    ensures
        (PollUpdate::Snapshot { snapshot, next_interval }).wait() == next_interval,
        (PollUpdate::Error { error, retry_in }).wait() == retry_in,
{
}

/// The flight to show in full is the selected one, or else the nearest, or none; opening it
/// begins at the top and changes nothing else.
pub proof fn law_detail_opens_on_the_selected_or_nearest(app: App, flights: Seq<Flight>)
    ensures
        app.selected_hex is Some ==> chosen(app.selected_hex, flights) == app.selected_hex,
        app.selected_hex is None && flights.len() > 0 ==> chosen(app.selected_hex, flights)
            == Some(flights[0].hex),
        app.selected_hex is None && flights.len() == 0 ==> app.with_detail_open(flights) == app,
        app.selected_hex is Some || flights.len() > 0 ==> ({
            let open = app.with_detail_open(flights);
            &&& open.mode == Mode::Detail
            &&& open.detail_scroll == 0
            &&& open.selected_hex == chosen(app.selected_hex, flights)
            &&& open.tracker == app.tracker
            &&& open.next_poll_at == app.next_poll_at
            &&& open.running == app.running
        }),
{
}

/// Stepping moves the selection alone, and scrolls back to the top where it moved.
pub proof fn law_stepping_moves_the_selection_alone(
    before: App,
    after: App,
    flights: Seq<Flight>,
    forward: bool,
)
    requires
        App::stepped(before, after, flights, forward),
    ensures
        after.mode == before.mode,
        after.tracker == before.tracker,
        after.next_poll_at == before.next_poll_at,
        after.running == before.running,
        flights.len() > 0 && text::opt(before.selected_hex) != text::opt(after.selected_hex)
            ==> after.detail_scroll == 0,
        text::opt(before.selected_hex) == text::opt(after.selected_hex) ==> after.detail_scroll
            == before.detail_scroll,
        flights.len() == 0 ==> after.selected_hex is None,
{
}

/// The line about the cadence says in how many seconds the next poll is due, or that none is,
/// and names the relevance distance.
pub proof fn law_cadence_line(countdown_s: Number, relevance_nm: Number)
    ensures
        cadence_text(Some(countdown_s), relevance_nm) == "next poll in "@ + (decimal::fixed_text(
            countdown_s,
            1,
        ) + "s"@) + "   relevance "@ + decimal::fixed_text(relevance_nm, 0) + "nm"@,
        cadence_text(None, relevance_nm) == "next poll in "@ + "—"@ + "   relevance "@
            + decimal::fixed_text(relevance_nm, 0) + "nm"@,
{
}

/// The status block has a line for the source, the nearest flight, the pacing one, the cadence
/// and the selection, and one more exactly where there is a failure to show.
pub proof fn law_status_has_its_lines(
    app: App,
    picture: PictureResponse,
    countdown_s: Option<Number>,
)
    ensures
        ({
            let lines = status_view(app, picture, countdown_s);
            let fails = picture.health != api::Health::Live && picture.last_error is Some;
            &&& lines.len() == (if fails {
                6
            } else {
                5int
            })
            &&& lines[0][1].0 == app.source_name@
            &&& lines[1][0].0 == "nearest  "@ + render::nearest_text(picture.tracks@)
            &&& lines[2][0].0 == "pacing   "@ + render::pacing_text(
                picture.tracks@,
                picture.pacing_hex,
            )
            &&& lines[3][0].0 == cadence_text(countdown_s, app.relevance_nm)
            &&& fails ==> lines[5][0].0 == "! "@ + picture.last_error->0@
            &&& picture.health == api::Health::Live ==> lines[0][3].0 == "["@ + "LIVE"@ + "]"@
            &&& picture.health == api::Health::Stale ==> lines[0][3].0 == "["@ + "STALE"@ + "]"@
            &&& picture.health == api::Health::NoData ==> lines[0][3].0 == "["@ + "NO DATA"@
                + "]"@
        }),
{
}

/// A poll touches the tracker and the countdown alone: what is selected, shown and scrolled to
/// stays.
pub proof fn law_polls_leave_the_view_alone(before: App, after: App)
    requires
        App::same_view(before, after),
    ensures
        after.selected_hex == before.selected_hex,
        after.mode == before.mode,
        after.detail_scroll == before.detail_scroll,
        after.running == before.running,
        after.area == before.area,
        after.source_name == before.source_name,
        after.relevance_nm == before.relevance_nm,
        after.fps_interval == before.fps_interval,
{
}

} // verus!
