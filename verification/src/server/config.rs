//! The server's configuration: Home, the Search area, the source and the address to serve on.

use crate::decimal;
use crate::number::{self, Number};
use crate::server::domain::{LatLon, SearchArea};
use crate::server::tracker::TrackerConfig;
use crate::span::{self, Span, LONGEST};
use crate::text;
use vstd::prelude::*;

verus! {

/// The groundspeed of a fast jet in knots, which bounds the longest poll interval.
pub const MAX_GROUNDSPEED_KT: i32 = 650;

/// The public feeds answer for at most this radius.
pub const READSB_MAX_RADIUS_NM: i32 = 250;

/// Half the Earth's circumference: no larger radius means anything.
pub const RADIUS_CEILING_NM: i32 = 10800;

/// Why a configuration cannot be used.
#[derive(Debug)]
pub enum ConfigError {
    /// The file could not be read.
    Io { path: String, source: String },
    /// The file could not be parsed.
    Parse { path: String, source: String },
    /// A value is out of order.
    Invalid(String),
}

impl ConfigError {
    /// The error in words.
    pub open spec fn words(self) -> Seq<char> {
        match self {
            ConfigError::Io { path, source } => "reading config "@ + path@ + ": "@ + source@,
            ConfigError::Parse { path, source } => "parsing config "@ + path@ + ": "@ + source@,
            ConfigError::Invalid(reason) => "invalid config: "@ + reason@,
        }
    }

    /// The error in words.
    pub fn message(&self) -> (r: String)
        ensures
            r@ == self.words(),
    {
        match self {
            ConfigError::Io { path, source } => {
                let mut s = "reading config ".to_owned();
                s.append(path.as_str());
                s.append(": ");
                s.append(source.as_str());
                s
            },
            ConfigError::Parse { path, source } => {
                let mut s = "parsing config ".to_owned();
                s.append(path.as_str());
                s.append(": ");
                s.append(source.as_str());
                s
            },
            ConfigError::Invalid(reason) => text::concat("invalid config: ", reason.as_str()),
        }
    }
}

/// The fixed point that all distances are measured from.
#[derive(Clone, Copy, Debug, PartialEq, Eq, Structural)]
pub struct Home {
    pub lat: Number,
    pub lon: Number,
}

/// The pattern of 51.47, the latitude of London Heathrow.
pub const HEATHROW_LAT: u64 = 0x4049_bc28_f5c2_8f5c;

/// The pattern of -0.4543, the longitude of London Heathrow.
pub const HEATHROW_LON: u64 = 0xbfdd_1340_4ea4_a8c1;

impl Default for Home {
    /// London Heathrow, so that a first run shows something.
    fn default() -> (r: Home)
        ensures
            r.lat.bits == HEATHROW_LAT,
            r.lon.bits == HEATHROW_LON,
    {
        Home { lat: Number { bits: HEATHROW_LAT }, lon: Number { bits: HEATHROW_LON } }
    }
}

#[derive(Clone, Copy, Debug, PartialEq, Eq, Structural)]
pub struct Search {
    /// Radius of the Search area, in nautical miles.
    pub radius_nm: Number,
    /// The farthest CPA that counts for pacing.
    pub relevance_distance_nm: Number,
}

impl Default for Search {
    fn default() -> (r: Search)
        ensures
            r.radius_nm.finite() && r.radius_nm.units() == 100 * number::one(),
            r.relevance_distance_nm.finite() && r.relevance_distance_nm.units() == 30
                * number::one(),
    {
        Search { radius_nm: number::whole(100), relevance_distance_nm: number::whole(30) }
    }
}

/// Where the answers are served.
#[derive(Debug)]
pub struct Server {
    /// Host and port.
    pub bind: String,
    /// The origin whose pages may read the answers; none by default.
    pub cors_allow_origin: Option<String>,
}

impl Default for Server {
    fn default() -> (r: Server)
        ensures
            r.bind@ == "127.0.0.1:7878"@,
            r.cors_allow_origin is None,
    {
        Server { bind: "127.0.0.1:7878".to_owned(), cors_allow_origin: None }
    }
}

#[derive(Clone, Copy, Debug, PartialEq, Eq, Structural)]
pub struct Poll {
    /// The longest time between polls, in seconds.
    pub max_interval_secs: Number,
}

impl Default for Poll {
    fn default() -> (r: Poll)
        ensures
            r.max_interval_secs.finite() && r.max_interval_secs.units() == 60 * number::one(),
    {
        Poll { max_interval_secs: number::whole(60) }
    }
}

/// The source to poll.
#[derive(Debug)]
pub struct Source {
    pub kind: String,
    /// In place of the address that the kind has by itself.
    pub base_url: Option<String>,
    /// In place of the shortest interval that the kind has by itself.
    pub min_interval_ms: Option<u64>,
}

impl Default for Source {
    fn default() -> (r: Source)
        ensures
            r.kind@ == "airplanes_live"@,
            r.base_url is None,
            r.min_interval_ms is None,
    {
        Source { kind: "airplanes_live".to_owned(), base_url: None, min_interval_ms: None }
    }
}

#[derive(Debug)]
pub struct Config {
    pub home: Home,
    pub search: Search,
    pub poll: Poll,
    pub source: Source,
    pub server: Server,
}

impl Default for Config {
    fn default() -> (r: Config)
        ensures
            r.home.lat.bits == HEATHROW_LAT && r.home.lon.bits == HEATHROW_LON,
            r.search.radius_nm.finite() && r.search.radius_nm.units() == 100 * number::one(),
            r.search.relevance_distance_nm.finite() && r.search.relevance_distance_nm.units() == 30
                * number::one(),
            r.poll.max_interval_secs.finite() && r.poll.max_interval_secs.units() == 60
                * number::one(),
            r.source.kind@ == "airplanes_live"@,
            r.source.base_url is None,
            r.source.min_interval_ms is None,
            r.server.bind@ == "127.0.0.1:7878"@,
            r.server.cors_allow_origin is None,
    {
        Config {
            home: Home::default(),
            search: Search::default(),
            poll: Poll::default(),
            source: Source::default(),
            server: Server::default(),
        }
    }
}

/// What became of the address to serve on.
#[derive(Debug)]
pub enum Resolved {
    /// It is reached from this machine alone.
    Loopback,
    /// It is reached from the network.
    Exposed,
    /// It is no address, for the reason given.
    Malformed(String),
    /// It names no address.
    Nowhere,
}

/// What checking a configuration needs to know beside it: what the address resolved to, the
/// time a fast jet takes to cross the Search area and the ceiling that follows from it, and
/// the shortest decimal text of each number that a message quotes.
#[derive(Debug)]
pub struct Facts {
    pub bind: Resolved,
    /// Seconds that a fast jet takes to cross the Search area.
    pub transit_s: Number,
    /// The longest poll interval that is safely below it, in seconds.
    pub ceiling_s: Number,
    pub lat_text: String,
    pub lon_text: String,
    pub radius_text: String,
    pub relevance_text: String,
    pub max_interval_text: String,
}

/// Visible ASCII without spaces, and not nothing: what may stand in a header as it is.
pub open spec fn header_safe(s: Seq<char>) -> bool {
    s.len() > 0 && forall|i: int| 0 <= i < s.len() ==> 0x21 <= #[trigger] s[i] as u32 <= 0x7e
}

fn is_header_safe(s: &str) -> (r: bool)
    ensures
        r == header_safe(s@),
{
    let v = text::chars_of(s);
    let mut i: usize = 0;
    while i < v.len()
        invariant
            i <= v.len(),
            v@ == s@,
            forall|k: int| 0 <= k < i ==> 0x21 <= #[trigger] v@[k] as u32 <= 0x7e,
        decreases v.len() - i,
    {
        let u: u32 = v[i] as u32;
        if u < 0x21 || u > 0x7e {
            assert(!(0x21 <= s@[i as int] as u32 <= 0x7e));
            return false;
        }
        i = i + 1;
    }
    v.len() > 0
}

/// Why an origin is refused, given the origin in quotes.
pub open spec fn cors_refusal(quoted: Seq<char>) -> Seq<char> {
    "server.cors_allow_origin "@ + quoted
        + " is not a valid header value (expected an origin URL or \"*\", visible ASCII with no spaces)"@
}

/// Why an origin is refused, given the origin in quotes.
pub fn cors_refusal_text(quoted: &str) -> (r: String)
    ensures
        r@ == cors_refusal(quoted@),
{
    text::concat3(
        "server.cors_allow_origin ",
        quoted,
        " is not a valid header value (expected an origin URL or \"*\", visible ASCII with no spaces)",
    )
}

/// Why an address is refused, given the address in quotes.
pub open spec fn bind_refusal(quoted: Seq<char>, bind: Resolved) -> Option<Seq<char>> {
    match bind {
        Resolved::Malformed(e) => Some(
            "server.bind "@ + quoted + " is not a valid address: "@ + e@,
        ),
        Resolved::Nowhere => Some("server.bind "@ + quoted + " resolved to no address"@),
        _ => None,
    }
}

/// Why an address is refused, given the address in quotes.
pub fn bind_refusal_text(quoted: &str, bind: &Resolved) -> (r: Option<String>)
    ensures
        text::opt(r) == bind_refusal(quoted@, *bind),
{
    match bind {
        Resolved::Malformed(e) => {
            let mut s = text::concat3("server.bind ", quoted, " is not a valid address: ");
            s.append(e.as_str());
            Some(s)
        },
        Resolved::Nowhere => Some(
            text::concat3("server.bind ", quoted, " resolved to no address"),
        ),
        _ => None,
    }
}

/// Finite and above zero.
pub open spec fn positive(x: Number) -> bool {
    x.finite() && x.above_int(0)
}

fn is_positive(x: &Number) -> (r: bool)
    ensures
        r == positive(*x),
{
    x.is_finite() && x.is_above_int(0)
}

impl Config {
    /// Home lies on the globe.
    pub open spec fn home_in_range(self) -> bool {
        &&& self.home.lat.finite() && self.home.lat.at_least_int(-90) && self.home.lat.at_most_int(
            90,
        )
        &&& self.home.lon.finite() && self.home.lon.at_least_int(-180)
            && self.home.lon.at_most_int(180)
    }

    /// Why this configuration is refused, where it is.
    pub open spec fn refusal(self, facts: Facts) -> Option<Seq<char>> {
        if !self.home_in_range() {
            Some(
                "home lat/lon out of range: ("@ + facts.lat_text@ + ", "@ + facts.lon_text@
                    + ")"@,
            )
        } else if !positive(self.search.radius_nm) {
            Some("search.radius_nm must be positive, got "@ + facts.radius_text@)
        } else if self.search.radius_nm.above_int(RADIUS_CEILING_NM as int) {
            Some(
                "search.radius_nm "@ + facts.radius_text@
                    + " exceeds the maximum meaningful radius of 10800 nm (half the Earth's circumference)"@,
            )
        } else if !positive(self.search.relevance_distance_nm) {
            Some("search.relevance_distance_nm must be positive, got "@ + facts.relevance_text@)
        } else if bind_refusal(text::debug_text(self.server.bind@), facts.bind) is Some {
            bind_refusal(text::debug_text(self.server.bind@), facts.bind)
        } else if self.server.cors_allow_origin is Some && !header_safe(
            self.server.cors_allow_origin->0@,
        ) {
            Some(cors_refusal(text::debug_text(self.server.cors_allow_origin->0@)))
        } else if !positive(self.poll.max_interval_secs) {
            Some("poll.max_interval_secs must be positive, got "@ + facts.max_interval_text@)
        } else {
            None
        }
    }

    /// The relevance distance is bounded by the radius.
    pub open spec fn bounded_relevance(self) -> Number {
        if self.search.radius_nm.below(self.search.relevance_distance_nm) {
            self.search.radius_nm
        } else {
            self.search.relevance_distance_nm
        }
    }

    /// The longest poll interval is bounded by the ceiling.
    pub open spec fn bounded_interval(self, facts: Facts) -> Number {
        if facts.ceiling_s.at_most(self.poll.max_interval_secs) {
            facts.ceiling_s
        } else {
            self.poll.max_interval_secs
        }
    }

    /// This configuration with its values bounded.
    pub open spec fn bounded(self, facts: Facts) -> Config {
        Config {
            search: Search {
                radius_nm: self.search.radius_nm,
                relevance_distance_nm: self.bounded_relevance(),
            },
            poll: Poll { max_interval_secs: self.bounded_interval(facts) },
            ..self
        }
    }

    pub open spec fn radius_warning(self, facts: Facts) -> Seq<Seq<char>> {
        if self.search.radius_nm.above_int(READSB_MAX_RADIUS_NM as int) {
            seq![
                "search.radius_nm "@ + facts.radius_text@
                    + " exceeds the airplanes.live cap of 250 nm; the adapter will clamp it"@,
            ]
        } else {
            Seq::empty()
        }
    }

    pub open spec fn relevance_warning(self, facts: Facts) -> Seq<Seq<char>> {
        if self.search.radius_nm.below(self.search.relevance_distance_nm) {
            seq![
                "search.relevance_distance_nm "@ + facts.relevance_text@
                    + " exceeds the Search radius "@ + facts.radius_text@
                    + "; clamping to the radius"@,
            ]
        } else {
            Seq::empty()
        }
    }

    pub open spec fn bind_warning(self, facts: Facts) -> Seq<Seq<char>> {
        if facts.bind is Exposed {
            seq![
                "server.bind "@ + self.server.bind@
                    + " is not loopback; the unauthenticated API (and Home's coordinates via /meta) will be reachable from the network"@,
            ]
        } else {
            Seq::empty()
        }
    }

    pub open spec fn interval_warning(self, facts: Facts) -> Seq<Seq<char>> {
        if facts.ceiling_s.at_most(self.poll.max_interval_secs) {
            seq![
                "poll.max_interval_secs "@ + decimal::fixed_text(self.poll.max_interval_secs, 0)
                    + "s is not safely below the Search-area transit time ("@
                    + decimal::fixed_text(facts.transit_s, 0)
                    + "s for a 650 kt jet); clamping to "@ + decimal::fixed_text(
                    facts.ceiling_s,
                    0,
                ) + "s"@,
            ]
        } else {
            Seq::empty()
        }
    }

    /// What was out of order and set right.
    pub open spec fn warnings(self, facts: Facts) -> Seq<Seq<char>> {
        self.radius_warning(facts) + self.relevance_warning(facts) + self.bind_warning(facts)
            + self.interval_warning(facts)
    }

    /// Home as a point.
    pub fn home(&self) -> (r: LatLon)
        ensures
            r.lat == self.home.lat,
            r.lon == self.home.lon,
    {
        LatLon::new(self.home.lat, self.home.lon)
    }

    /// The Search area.
    pub fn search_area(&self) -> (r: SearchArea)
        ensures
            r.center.lat == self.home.lat,
            r.center.lon == self.home.lon,
            r.radius_nm == self.search.radius_nm,
    {
        SearchArea { center: self.home(), radius_nm: self.search.radius_nm }
    }

    /// The longest time between polls, in nanoseconds.
    pub open spec fn longest_poll(self) -> int {
        number::round_half_even(
            (self.poll.max_interval_secs.units() * span::SECOND) as nat,
            number::one(),
        ) as int
    }

    /// Beyond this age of the last poll the picture is stale, in nanoseconds.
    pub open spec fn stale_limit(self) -> int {
        span::shorter(self.longest_poll() * 2, LONGEST as int)
    }

    /// Beyond this age a track is dropped, in nanoseconds.
    pub open spec fn drop_limit(self) -> int {
        span::shorter(self.longest_poll() * 3, LONGEST as int)
    }

    /// The longest time between polls.
    pub fn max_poll(&self) -> (r: Span)
        requires
            Span::expressible(self.poll.max_interval_secs),
        ensures
            r.nanos == self.longest_poll(),
    {
        match Span::from_seconds(&self.poll.max_interval_secs) {
            Some(s) => s,
            None => Span { nanos: 0 },
        }
    }

    fn refuse(&self, facts: &Facts) -> (r: Option<String>)
        ensures
            text::opt(r) == self.refusal(*facts),
    {
        let lat = &self.home.lat;
        let lon = &self.home.lon;
        let lat_ok = lat.is_finite() && lat.is_at_least_int(-90) && lat.is_at_most_int(90);
        let lon_ok = lon.is_finite() && lon.is_at_least_int(-180) && lon.is_at_most_int(180);
        if !(lat_ok && lon_ok) {
            let mut s = "home lat/lon out of range: (".to_owned();
            s.append(facts.lat_text.as_str());
            s.append(", ");
            s.append(facts.lon_text.as_str());
            s.append(")");
            return Some(s);
        }
        if !is_positive(&self.search.radius_nm) {
            return Some(
                text::concat(
                    "search.radius_nm must be positive, got ",
                    facts.radius_text.as_str(),
                ),
            );
        }
        if self.search.radius_nm.is_above_int(RADIUS_CEILING_NM) {
            return Some(
                text::concat3(
                    "search.radius_nm ",
                    facts.radius_text.as_str(),
                    " exceeds the maximum meaningful radius of 10800 nm (half the Earth's circumference)",
                ),
            );
        }
        if !is_positive(&self.search.relevance_distance_nm) {
            return Some(
                text::concat(
                    "search.relevance_distance_nm must be positive, got ",
                    facts.relevance_text.as_str(),
                ),
            );
        }
        let shown = text::quoted(self.server.bind.as_str());
        match bind_refusal_text(shown.as_str(), &facts.bind) {
            Some(s) => return Some(s),
            None => {},
        }
        match &self.server.cors_allow_origin {
            Some(origin) => {
                if !is_header_safe(origin.as_str()) {
                    return Some(cors_refusal_text(text::quoted(origin.as_str()).as_str()));
                }
            },
            None => {},
        }
        if !is_positive(&self.poll.max_interval_secs) {
            return Some(
                text::concat(
                    "poll.max_interval_secs must be positive, got ",
                    facts.max_interval_text.as_str(),
                ),
            );
        }
        None
    }

    /// Refuses what cannot be used, and bounds what can, with a warning for each.
    pub fn finalize(self, facts: &Facts) -> (r: Result<(Config, Vec<String>), ConfigError>)
        ensures
            r is Ok <==> self.refusal(*facts) is None,
            r is Err ==> r->Err_0 is Invalid && r->Err_0->Invalid_0@ == self.refusal(*facts)->0,
            r is Ok ==> r->Ok_0.0 == self.bounded(*facts),
            r is Ok ==> text::all(r->Ok_0.1@) == self.warnings(*facts),
    {
        match self.refuse(facts) {
            Some(reason) => return Err(ConfigError::Invalid(reason)),
            None => {},
        }
        let mut warnings: Vec<String> = Vec::new();
        if self.search.radius_nm.is_above_int(READSB_MAX_RADIUS_NM) {
            warnings.push(
                text::concat3(
                    "search.radius_nm ",
                    facts.radius_text.as_str(),
                    " exceeds the airplanes.live cap of 250 nm; the adapter will clamp it",
                ),
            );
        }
        assert(text::all(warnings@) =~= self.radius_warning(*facts));
        let ghost known = text::all(warnings@);
        let mut relevance = self.search.relevance_distance_nm;
        if self.search.radius_nm.is_below(&self.search.relevance_distance_nm) {
            let mut s = "search.relevance_distance_nm ".to_owned();
            s.append(facts.relevance_text.as_str());
            s.append(" exceeds the Search radius ");
            s.append(facts.radius_text.as_str());
            s.append("; clamping to the radius");
            warnings.push(s);
            relevance = self.search.radius_nm;
        }
        assert(text::all(warnings@) =~= known + self.relevance_warning(*facts));
        let ghost known = text::all(warnings@);
        match facts.bind {
            Resolved::Exposed => {
                warnings.push(
                    text::concat3(
                        "server.bind ",
                        self.server.bind.as_str(),
                        " is not loopback; the unauthenticated API (and Home's coordinates via /meta) will be reachable from the network",
                    ),
                );
            },
            _ => {},
        }
        assert(text::all(warnings@) =~= known + self.bind_warning(*facts));
        let ghost known = text::all(warnings@);
        let mut interval = self.poll.max_interval_secs;
        if facts.ceiling_s.is_at_most(&self.poll.max_interval_secs) {
            let mut s = "poll.max_interval_secs ".to_owned();
            s.append(decimal::fixed(&self.poll.max_interval_secs, 0).as_str());
            s.append("s is not safely below the Search-area transit time (");
            s.append(decimal::fixed(&facts.transit_s, 0).as_str());
            s.append("s for a 650 kt jet); clamping to ");
            s.append(decimal::fixed(&facts.ceiling_s, 0).as_str());
            s.append("s");
            warnings.push(s);
            interval = facts.ceiling_s;
        }
        assert(text::all(warnings@) =~= known + self.interval_warning(*facts));
        let search = Search {
            radius_nm: self.search.radius_nm,
            relevance_distance_nm: relevance,
        };
        let config = Config { search, poll: Poll { max_interval_secs: interval }, ..self };
        Ok((config, warnings))
    }

    /// Sets the origin whose pages may read the answers, where it may stand in a header.
    pub fn override_cors(&mut self, origin: String) -> (r: Result<(), ConfigError>)
        ensures
            r is Ok <==> header_safe(origin@),
            r is Ok ==> *final(self) == (Config {
                server: Server {
                    bind: old(self).server.bind,
                    cors_allow_origin: Some(origin),
                },
                ..*old(self)
            }),
            r is Err ==> *final(self) == *old(self) && r->Err_0 is Invalid
                && r->Err_0->Invalid_0@ == cors_refusal(text::debug_text(origin@)),
    {
        if is_header_safe(origin.as_str()) {
            self.server.cors_allow_origin = Some(origin);
            Ok(())
        } else {
            Err(
                ConfigError::Invalid(
                    cors_refusal_text(text::quoted(origin.as_str()).as_str()),
                ),
            )
        }
    }

    /// The configuration in words, given the transit time.
    pub open spec fn overview(self, transit_s: Number) -> Seq<char> {
        "Home          "@ + decimal::fixed_text(self.home.lat, 4) + ", "@ + decimal::fixed_text(
            self.home.lon,
            4,
        ) + "\nSearch area   "@ + decimal::fixed_text(self.search.radius_nm, 0)
            + " nm radius (relevance "@ + decimal::fixed_text(self.search.relevance_distance_nm, 0)
            + " nm)\nPoll          max "@ + decimal::fixed_text(self.poll.max_interval_secs, 0)
            + "s (transit ceiling "@ + decimal::fixed_text(transit_s, 0) + "s)\nBind          "@
            + self.server.bind@ + " (CORS "@ + (match self.server.cors_allow_origin {
            Some(origin) => origin@,
            None => "off"@,
        }) + ")\nSource        "@ + self.source.kind@ + (match self.source.base_url {
            Some(url) => " ("@ + url@ + ")"@,
            None => ""@,
        })
    }

    /// The configuration in words, given the seconds that a fast jet takes to cross the area.
    pub fn summary(&self, transit_s: &Number) -> (r: String)
        ensures
            r@ == self.overview(*transit_s),
    {
        let mut s = "Home          ".to_owned();
        s.append(decimal::fixed(&self.home.lat, 4).as_str());
        s.append(", ");
        s.append(decimal::fixed(&self.home.lon, 4).as_str());
        s.append("\nSearch area   ");
        s.append(decimal::fixed(&self.search.radius_nm, 0).as_str());
        s.append(" nm radius (relevance ");
        s.append(decimal::fixed(&self.search.relevance_distance_nm, 0).as_str());
        s.append(" nm)\nPoll          max ");
        s.append(decimal::fixed(&self.poll.max_interval_secs, 0).as_str());
        s.append("s (transit ceiling ");
        s.append(decimal::fixed(transit_s, 0).as_str());
        s.append("s)\nBind          ");
        s.append(self.server.bind.as_str());
        s.append(" (CORS ");
        match &self.server.cors_allow_origin {
            Some(origin) => s.append(origin.as_str()),
            None => s.append("off"),
        }
        s.append(")\nSource        ");
        s.append(self.source.kind.as_str());
        match &self.source.base_url {
            Some(url) => s.append(text::concat3(" (", url.as_str(), ")").as_str()),
            None => s.append(""),
        }
        s
    }

    /// What the tracker goes by: the picture is stale after twice the longest poll interval,
    /// and a track is dropped after three times.
    pub fn tracker_cfg(&self) -> (r: TrackerConfig)
        requires
            Span::expressible(self.poll.max_interval_secs),
        ensures
            r.relevance_distance_nm == self.search.relevance_distance_nm,
            r.stale_after.nanos == self.stale_limit(),
            r.max_flight_age.nanos == self.drop_limit(),
    {
        let longest = self.max_poll();
        TrackerConfig {
            relevance_distance_nm: self.search.relevance_distance_nm,
            stale_after: longest.saturating_mul(2),
            max_flight_age: longest.saturating_mul(3),
        }
    }
}

/// Where a configuration file is looked for.
#[derive(Clone, Copy, Debug, PartialEq, Eq, Structural)]
pub enum ConfigBase {
    /// At the path that was given.
    Explicit,
    /// Under `$XDG_CONFIG_HOME`.
    XdgConfigHome,
    /// Under `.config` in `$HOME`.
    HomeDotConfig,
    /// Under `.config` in the working directory.
    DotConfig,
}

/// Where a configuration file is looked for: a given path goes first, then
/// `$XDG_CONFIG_HOME` where it is set and not empty, then `$HOME`.
pub fn config_base(explicit: bool, xdg_set_and_nonempty: bool, home_set: bool) -> (r: ConfigBase)
    ensures
        r == (if explicit {
            ConfigBase::Explicit
        } else if xdg_set_and_nonempty {
            ConfigBase::XdgConfigHome
        } else if home_set {
            ConfigBase::HomeDotConfig
        } else {
            ConfigBase::DotConfig
        }),
{
    if explicit {
        ConfigBase::Explicit
    } else if xdg_set_and_nonempty {
        ConfigBase::XdgConfigHome
    } else if home_set {
        ConfigBase::HomeDotConfig
    } else {
        ConfigBase::DotConfig
    }
}

/// After checking, the relevance distance is within the Search radius: nothing paces that
/// cannot be seen.
pub proof fn law_relevance_is_within_the_radius(config: Config, facts: Facts)
    requires
        config.refusal(facts) is None,
    ensures
        config.bounded(facts).search.relevance_distance_nm.at_most(
            config.bounded(facts).search.radius_nm,
        ),
{
}

/// After checking, the longest poll interval is a length of time at most the ceiling, so that
/// no fast jet crosses the area between two polls.
pub proof fn law_interval_is_below_the_transit_time(config: Config, facts: Facts)
    requires
        config.refusal(facts) is None,
        Span::expressible(facts.ceiling_s),
        facts.ceiling_s.below(facts.transit_s),
    ensures
        config.bounded(facts).poll.max_interval_secs.below(facts.transit_s),
        Span::expressible(config.bounded(facts).poll.max_interval_secs),
{
    let x = config.poll.max_interval_secs;
    number::lemma_rank_orders_values(x, facts.ceiling_s);
    number::lemma_rank_orders_values(facts.ceiling_s, x);
}

/// Checking a configuration that has been checked and bounded changes nothing more.
pub proof fn law_bounding_settles(config: Config, facts: Facts)
    requires
        config.refusal(facts) is None,
        positive(facts.ceiling_s),
    ensures
        config.bounded(facts).refusal(facts) is None,
        config.bounded(facts).bounded(facts) == config.bounded(facts),
{
}

/// An accepted configuration sends either no origin or one that may stand in a header.
pub proof fn law_accepted_origin_is_header_safe(config: Config, facts: Facts)
    requires
        config.refusal(facts) is None,
    ensures
        config.bounded(facts).server == config.server,
        config.server.cors_allow_origin is Some ==> header_safe(config.server.cors_allow_origin->0@),
{
}

/// Short of the longest length of time, a track outlives the moment at which the picture goes
/// stale, so that an outage shows as stale before anything is dropped.
pub proof fn law_tracks_outlive_the_stale_threshold(cfg: Config)
    requires
        cfg.longest_poll() > 0,
    ensures
        cfg.stale_limit() <= cfg.drop_limit(),
        cfg.longest_poll() * 2 < LONGEST ==> cfg.stale_limit() < cfg.drop_limit(),
{
}

/// A configuration is accepted exactly where Home lies on the globe, the radius is positive and
/// at most half way round it, the relevance distance and the poll interval are positive, the
/// address to serve on is one, and the origin, if any, may stand in a header.
pub proof fn law_accepted_configurations(config: Config, facts: Facts)
    requires
        config.home.lat.finite() && config.home.lon.finite(),
        config.search.radius_nm.finite() && config.search.relevance_distance_nm.finite(),
        config.poll.max_interval_secs.finite(),
    ensures
        config.refusal(facts) is None <==> ({
            let o = number::one();
            &&& -(90 * o) <= config.home.lat.units() <= 90 * o
            &&& -(180 * o) <= config.home.lon.units() <= 180 * o
            &&& 0 < config.search.radius_nm.units() <= 10800 * o
            &&& config.search.relevance_distance_nm.units() > 0
            &&& config.poll.max_interval_secs.units() > 0
            &&& facts.bind is Loopback || facts.bind is Exposed
            &&& config.server.cors_allow_origin is Some ==> header_safe(
                config.server.cors_allow_origin->0@,
            )
        }),
{
    let o: int = number::one() as int;
    assert((-90int) * o == -(90 * o)) by (nonlinear_arith);
    assert((-180int) * o == -(180 * o)) by (nonlinear_arith);
    assert(0 * o == 0) by (nonlinear_arith);
}

/// What is no number, or infinite, is refused wherever it stands.
pub proof fn law_only_numbers_are_accepted(config: Config, facts: Facts)
    requires
        config.refusal(facts) is None,
    ensures
        config.home.lat.finite() && config.home.lon.finite(),
        config.search.radius_nm.finite() && config.search.relevance_distance_nm.finite(),
        config.poll.max_interval_secs.finite(),
{
}

/// What may stand in a header is not nothing and holds no blank, no control character and
/// nothing beyond ASCII.
pub proof fn law_header_safe_is_visible_ascii(s: Seq<char>, i: int)
    ensures
        s.len() == 0 ==> !header_safe(s),
        0 <= i < s.len() && (s[i] == ' ' || s[i] == '\n' || s[i] == '\r' || s[i] as u32 > 126)
            ==> !header_safe(s),
        s.len() > 0 && (forall|k: int| 0 <= k < s.len() ==> '!' <= #[trigger] s[k] <= '~')
            ==> header_safe(s),
{
    if s.len() > 0 && (forall|k: int| 0 <= k < s.len() ==> '!' <= #[trigger] s[k] <= '~') {
        assert forall|k: int| 0 <= k < s.len() implies 0x21 <= #[trigger] s[k] as u32 <= 0x7e by {
            assert('!' <= s[k] <= '~');
        }
    }
}

/// Bounding takes the smaller of the relevance distance and the radius, and the smaller of the
/// poll interval and its ceiling; everything else stays.
pub proof fn law_bounding_takes_the_smaller(config: Config, facts: Facts)
    requires
        config.refusal(facts) is None,
        facts.ceiling_s.finite(),
    ensures
        ({
            let b = config.bounded(facts);
            let relevance = config.search.relevance_distance_nm;
            let radius = config.search.radius_nm;
            let interval = config.poll.max_interval_secs;
            &&& b.search.relevance_distance_nm == relevance || b.search.relevance_distance_nm
                == radius
            &&& b.search.relevance_distance_nm.units() <= relevance.units()
            &&& b.search.relevance_distance_nm.units() <= radius.units()
            &&& b.poll.max_interval_secs == interval || b.poll.max_interval_secs
                == facts.ceiling_s
            &&& b.poll.max_interval_secs.units() <= interval.units()
            &&& b.poll.max_interval_secs.units() <= facts.ceiling_s.units()
            &&& b.search.radius_nm == radius
            &&& b.home == config.home
            &&& b.source == config.source
            &&& b.server == config.server
        }),
{
    number::law_comparing_is_by_value(
        config.search.radius_nm,
        config.search.relevance_distance_nm,
    );
    number::law_comparing_is_by_value(facts.ceiling_s, config.poll.max_interval_secs);
}

/// One for something that holds.
pub open spec fn one_if(holds: bool) -> nat {
    if holds {
        1
    } else {
        0
    }
}

/// There is a warning for each value that was out of order and set right, or that others will
/// not take as it is, and for an address that the network reaches; and no other.
pub proof fn law_warnings_are_for_what_was_set_right(config: Config, facts: Facts)
    requires
        config.refusal(facts) is None,
        facts.ceiling_s.finite(),
    ensures
        config.warnings(facts).len() == one_if(
            config.search.radius_nm.units() > 250 * number::one(),
        ) + one_if(
            config.search.relevance_distance_nm.units() > config.search.radius_nm.units(),
        ) + one_if(facts.bind is Exposed) + one_if(
            config.poll.max_interval_secs.units() >= facts.ceiling_s.units(),
        ),
{
    number::law_comparing_is_by_value(
        config.search.radius_nm,
        config.search.relevance_distance_nm,
    );
    number::law_comparing_is_by_value(facts.ceiling_s, config.poll.max_interval_secs);
}

/// Short of the longest length of time, the picture is stale after two of the longest poll
/// intervals, and a track is dropped one more of them later; an interval of a whole number of
/// seconds is that many.
pub proof fn law_limits_are_whole_poll_intervals(config: Config, k: nat)
    requires
        config.poll.max_interval_secs.finite(),
        config.poll.max_interval_secs.units() == k * number::one(),
        3 * k * 1_000_000_000 <= LONGEST,
    ensures
        config.longest_poll() == k * 1_000_000_000,
        config.stale_limit() == 2 * k * 1_000_000_000,
        config.drop_limit() == 3 * k * 1_000_000_000,
{
    span::law_whole_seconds_are_exact(config.poll.max_interval_secs, k);
}

/// The summary names Home, the Search area, the poll interval, the address and the source, each
/// on a line of its own.
pub proof fn law_summary_names_every_section(config: Config, transit_s: Number)
    ensures
        config.overview(transit_s) == "Home          "@ + decimal::fixed_text(config.home.lat, 4)
            + ", "@ + decimal::fixed_text(config.home.lon, 4) + "\nSearch area   "@
            + decimal::fixed_text(config.search.radius_nm, 0) + " nm radius (relevance "@
            + decimal::fixed_text(config.search.relevance_distance_nm, 0)
            + " nm)\nPoll          max "@ + decimal::fixed_text(config.poll.max_interval_secs, 0)
            + "s (transit ceiling "@ + decimal::fixed_text(transit_s, 0) + "s)\nBind          "@
            + config.server.bind@ + " (CORS "@ + (if config.server.cors_allow_origin is Some {
            config.server.cors_allow_origin->0@
        } else {
            "off"@
        }) + ")\nSource        "@ + config.source.kind@ + (if config.source.base_url is Some {
            " ("@ + config.source.base_url->0@ + ")"@
        } else {
            ""@
        }),
{
}

/// A refusal names what is out of order and quotes it: Home first, then the radius, the
/// relevance distance, the address, the origin and the poll interval.
pub proof fn law_refusals_name_the_value(config: Config, facts: Facts)
    ensures
        ({
            let r = config.refusal(facts);
            let home = config.home_in_range();
            let radius = positive(config.search.radius_nm);
            let sane = !config.search.radius_nm.above_int(10800);
            let relevance = positive(config.search.relevance_distance_nm);
            let bind = facts.bind is Loopback || facts.bind is Exposed;
            let origin = config.server.cors_allow_origin is None || header_safe(
                config.server.cors_allow_origin->0@,
            );
            let quoted = text::debug_text(config.server.bind@);
            &&& !home ==> r == Some(
                "home lat/lon out of range: ("@ + facts.lat_text@ + ", "@ + facts.lon_text@ + ")"@,
            )
            &&& home && !radius ==> r == Some(
                "search.radius_nm must be positive, got "@ + facts.radius_text@,
            )
            &&& home && radius && !sane ==> r == Some(
                "search.radius_nm "@ + facts.radius_text@
                    + " exceeds the maximum meaningful radius of 10800 nm (half the Earth's circumference)"@,
            )
            &&& home && radius && sane && !relevance ==> r == Some(
                "search.relevance_distance_nm must be positive, got "@ + facts.relevance_text@,
            )
            &&& home && radius && sane && relevance && facts.bind is Malformed ==> r == Some(
                "server.bind "@ + quoted + " is not a valid address: "@ + facts.bind->Malformed_0@,
            )
            &&& home && radius && sane && relevance && facts.bind is Nowhere ==> r == Some(
                "server.bind "@ + quoted + " resolved to no address"@,
            )
            &&& home && radius && sane && relevance && bind && !origin ==> r == Some(
                "server.cors_allow_origin "@ + text::debug_text(
                    config.server.cors_allow_origin->0@,
                )
                    + " is not a valid header value (expected an origin URL or \"*\", visible ASCII with no spaces)"@,
            )
            &&& home && radius && sane && relevance && bind && origin && !positive(
                config.poll.max_interval_secs,
            ) ==> r == Some(
                "poll.max_interval_secs must be positive, got "@ + facts.max_interval_text@,
            )
        }),
{
}

/// A warning quotes the value that was set right and what it was set to.
pub proof fn law_warnings_quote_the_value(config: Config, facts: Facts)
    ensures
        ({
            let w = config.warnings(facts);
            &&& config.search.radius_nm.above_int(250) ==> w.contains(
                "search.radius_nm "@ + facts.radius_text@
                    + " exceeds the airplanes.live cap of 250 nm; the adapter will clamp it"@,
            )
            &&& config.search.radius_nm.below(config.search.relevance_distance_nm) ==> w.contains(
                "search.relevance_distance_nm "@ + facts.relevance_text@
                    + " exceeds the Search radius "@ + facts.radius_text@
                    + "; clamping to the radius"@,
            )
            &&& facts.bind is Exposed ==> w.contains(
                "server.bind "@ + config.server.bind@
                    + " is not loopback; the unauthenticated API (and Home's coordinates via /meta) will be reachable from the network"@,
            )
            &&& facts.ceiling_s.at_most(config.poll.max_interval_secs) ==> w.contains(
                "poll.max_interval_secs "@ + decimal::fixed_text(config.poll.max_interval_secs, 0)
                    + "s is not safely below the Search-area transit time ("@
                    + decimal::fixed_text(facts.transit_s, 0)
                    + "s for a 650 kt jet); clamping to "@ + decimal::fixed_text(
                    facts.ceiling_s,
                    0,
                ) + "s"@,
            )
        }),
{
    let w = config.warnings(facts);
    let a: int = config.radius_warning(facts).len() as int;
    let b: int = a + config.relevance_warning(facts).len();
    let c: int = b + config.bind_warning(facts).len();
    if config.search.radius_nm.above_int(250) {
        assert(w[0] == config.radius_warning(facts)[0]);
    }
    if config.search.radius_nm.below(config.search.relevance_distance_nm) {
        assert(w[a] == config.relevance_warning(facts)[0]);
    }
    if facts.bind is Exposed {
        assert(w[b] == config.bind_warning(facts)[0]);
    }
    if facts.ceiling_s.at_most(config.poll.max_interval_secs) {
        assert(w[c] == config.interval_warning(facts)[0]);
    }
}

/// A failed configuration says whether it was being read, parsed or checked, names the file,
/// and carries the reason.
pub proof fn law_configuration_errors_are_told_apart(path: String, source: String)
    ensures
        (ConfigError::Io { path, source }).words() == "reading config "@ + path@ + ": "@ + source@,
        (ConfigError::Parse { path, source }).words() == "parsing config "@ + path@ + ": "@
            + source@,
        ConfigError::Invalid(source).words() == "invalid config: "@ + source@,
{
}

} // verus!
