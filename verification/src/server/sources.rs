//! The sources of flights: which are known, and why a poll may fail.

use crate::decimal;
use crate::number::Number;
use crate::server::config::Config;
use crate::server::readsb::ReadsbSource;
use crate::span::{Span, SECOND};
use crate::text;
use vstd::prelude::*;

verus! {

/// Why a poll did not yield a snapshot.
#[derive(Debug)]
pub enum SourceError {
    /// The source asks to slow down.
    RateLimited { retry_after: Option<Span> },
    /// The source is reachable but not serving.
    Unavailable,
    /// Authentication failed or is required.
    Auth,
    /// The answer could not be decoded.
    Decode(String),
    /// A network failure that may pass.
    Transient,
}

impl SourceError {
    /// The failure in words; `retry_s` is the delay that the source names, in seconds.
    pub open spec fn words(self, retry_s: Number) -> Seq<char> {
        match self {
            SourceError::RateLimited { retry_after: Some(_) } => "rate limited (retry after "@
                + decimal::fixed_text(retry_s, 0) + "s)"@,
            SourceError::RateLimited { retry_after: None } => "rate limited"@,
            SourceError::Unavailable => "source unavailable"@,
            SourceError::Auth => "authentication failed"@,
            SourceError::Decode(e) => "decode error: "@ + e@,
            SourceError::Transient => "transient network error"@,
        }
    }

    /// The failure in words; `retry_s` is the delay that the source names, in seconds, and is
    /// not looked at where it names none.
    pub fn message(&self, retry_s: &Number) -> (r: String)
        ensures
            r@ == self.words(*retry_s),
    {
        match self {
            SourceError::RateLimited { retry_after: Some(_) } => text::concat3(
                "rate limited (retry after ",
                decimal::fixed(retry_s, 0).as_str(),
                "s)",
            ),
            SourceError::RateLimited { retry_after: None } => "rate limited".to_owned(),
            SourceError::Unavailable => "source unavailable".to_owned(),
            SourceError::Auth => "authentication failed".to_owned(),
            SourceError::Decode(e) => text::concat("decode error: ", e.as_str()),
            SourceError::Transient => "transient network error".to_owned(),
        }
    }
}

/// What a kind of source has by itself: name, address, and shortest interval in nanoseconds.
pub open spec fn known_source(kind: Seq<char>) -> Option<(Seq<char>, Seq<char>, int)> {
    if kind == "airplanes_live"@ {
        Some(("airplanes.live"@, "https://api.airplanes.live/v2"@, 1 * SECOND))
    } else if kind == "adsb_lol"@ {
        Some(("adsb.lol"@, "https://api.adsb.lol/v2"@, 1 * SECOND))
    } else if kind == "adsb_fi"@ {
        Some(("adsb.fi"@, "https://opendata.adsb.fi/api/v2"@, 1 * SECOND))
    } else if kind == "readsb"@ || kind == "local"@ {
        Some(("local receiver"@, ""@, 250_000_000))
    } else {
        None
    }
}

/// Why a kind is refused, given the kind in quotes.
pub open spec fn unknown_kind(quoted: Seq<char>) -> Seq<char> {
    "unknown source.kind "@ + quoted
        + " (expected one of: airplanes_live, adsb_lol, adsb_fi, readsb)"@
}

/// Why a kind is refused, given the kind in quotes.
pub fn unknown_kind_text(quoted: &str) -> (r: String)
    ensures
        r@ == unknown_kind(quoted@),
{
    text::concat3(
        "unknown source.kind ",
        quoted,
        " (expected one of: airplanes_live, adsb_lol, adsb_fi, readsb)",
    )
}

/// Why a kind without an address is refused, given the kind in quotes.
pub open spec fn missing_base(quoted: Seq<char>) -> Seq<char> {
    "source.kind "@ + quoted
        + " requires source.base_url to be set (e.g. http://localhost/re-api)"@
}

/// Why a kind without an address is refused, given the kind in quotes.
pub fn missing_base_text(quoted: &str) -> (r: String)
    ensures
        r@ == missing_base(quoted@),
{
    text::concat3(
        "source.kind ",
        quoted,
        " requires source.base_url to be set (e.g. http://localhost/re-api)",
    )
}

/// The address that a configuration asks.
pub open spec fn chosen_base(cfg: Config) -> Seq<char> {
    match cfg.source.base_url {
        Some(url) => url@,
        None => match known_source(cfg.source.kind@) {
            Some(known) => known.1,
            None => Seq::empty(),
        },
    }
}

/// The source that a configuration names.
pub fn build(cfg: &Config) -> (r: Result<ReadsbSource, String>)
    ensures
        known_source(cfg.source.kind@) is None ==> r is Err && r->Err_0@ == unknown_kind(
            text::debug_text(cfg.source.kind@),
        ),
        known_source(cfg.source.kind@) is Some && chosen_base(*cfg).len() == 0 ==> r is Err
            && r->Err_0@ == missing_base(text::debug_text(cfg.source.kind@)),
        known_source(cfg.source.kind@) is Some && chosen_base(*cfg).len() > 0 ==> r is Ok && ({
            let known = known_source(cfg.source.kind@)->0;
            &&& r->Ok_0.shown_name() == known.0
            &&& r->Ok_0.base() == text::without_trailing(chosen_base(*cfg), '/')
            &&& r->Ok_0.floor().nanos == (match cfg.source.min_interval_ms {
                Some(ms) => ms * 1_000_000,
                None => known.2,
            })
        }),
{
    let kind = cfg.source.kind.as_str();
    let (name, default_base, default_min): (&str, &str, Span) = if text::same(
        kind,
        "airplanes_live",
    ) {
        ("airplanes.live", "https://api.airplanes.live/v2", Span::from_secs(1))
    } else if text::same(kind, "adsb_lol") {
        ("adsb.lol", "https://api.adsb.lol/v2", Span::from_secs(1))
    } else if text::same(kind, "adsb_fi") {
        ("adsb.fi", "https://opendata.adsb.fi/api/v2", Span::from_secs(1))
    } else if text::same(kind, "readsb") || text::same(kind, "local") {
        ("local receiver", "", Span::from_millis(250))
    } else {
        return Err(unknown_kind_text(text::quoted(kind).as_str()));
    };
    let base_url = match &cfg.source.base_url {
        Some(url) => url.clone(),
        None => default_base.to_owned(),
    };
    if base_url.as_str().is_empty() {
        return Err(missing_base_text(text::quoted(kind).as_str()));
    }
    let min_interval = match cfg.source.min_interval_ms {
        Some(ms) => Span::from_millis(ms),
        None => default_min,
    };
    Ok(ReadsbSource::new(name, base_url, min_interval))
}

/// The public sources have an address and a floor of one second by themselves; a receiver of
/// one's own has no address and a floor of a quarter of a second, under either name. Nothing
/// else is known.
pub proof fn law_known_sources(kind: Seq<char>)
    ensures
        known_source("airplanes_live"@) == Some(
            ("airplanes.live"@, "https://api.airplanes.live/v2"@, 1_000_000_000int),
        ),
        known_source("adsb_lol"@) == Some(
            ("adsb.lol"@, "https://api.adsb.lol/v2"@, 1_000_000_000int),
        ),
        known_source("adsb_fi"@) == Some(
            ("adsb.fi"@, "https://opendata.adsb.fi/api/v2"@, 1_000_000_000int),
        ),
        known_source("readsb"@) == Some(("local receiver"@, ""@, 250_000_000int)),
        known_source("local"@) == known_source("readsb"@),
        known_source(kind) is Some ==> kind == "airplanes_live"@ || kind == "adsb_lol"@ || kind
            == "adsb_fi"@ || kind == "readsb"@ || kind == "local"@,
{
    reveal_strlit("airplanes_live");
    reveal_strlit("adsb_lol");
    reveal_strlit("adsb_fi");
    reveal_strlit("readsb");
    reveal_strlit("local");
    assert("airplanes_live"@.len() == 14 && "adsb_lol"@.len() == 8 && "adsb_fi"@.len() == 7);
    assert("readsb"@.len() == 6 && "local"@.len() == 5);
}

/// A configured address is the one that is asked, whatever the kind has by itself.
pub proof fn law_configured_address_goes_first(cfg: Config)
    ensures
        cfg.source.base_url is Some ==> chosen_base(cfg) == cfg.source.base_url->0@,
        cfg.source.base_url is None && known_source(cfg.source.kind@) is Some ==> chosen_base(cfg)
            == (known_source(cfg.source.kind@)->0).1,
{
}

/// Each failure has its own words: a delay that is named stands in them, and so does what the
/// decoder said.
pub proof fn law_failures_are_told_apart(retry_after: Span, retry_s: Number, why: String)
    ensures
        (SourceError::RateLimited { retry_after: Some(retry_after) }).words(retry_s)
            == "rate limited"@ + " (retry after "@ + decimal::fixed_text(retry_s, 0) + "s)"@,
        (SourceError::RateLimited { retry_after: None }).words(retry_s) == "rate limited"@,
        SourceError::Unavailable.words(retry_s) == "source unavailable"@,
        SourceError::Auth.words(retry_s) == "authentication failed"@,
        SourceError::Decode(why).words(retry_s) == "decode error: "@ + why@,
        SourceError::Transient.words(retry_s) == "transient network error"@,
{
    reveal_strlit("rate limited");
    reveal_strlit(" (retry after ");
    reveal_strlit("rate limited (retry after ");
    assert("rate limited (retry after "@ =~= "rate limited"@ + " (retry after "@);
}

/// A kind that is not known is refused with the kinds that are, and one without an address with
/// what to set; both quote the kind.
pub proof fn law_refused_kinds_are_quoted(quoted: Seq<char>)
    ensures
        unknown_kind(quoted) == "unknown source.kind "@ + quoted
            + " (expected one of: airplanes_live, adsb_lol, adsb_fi, readsb)"@,
        missing_base(quoted) == "source.kind "@ + quoted
            + " requires source.base_url to be set (e.g. http://localhost/re-api)"@,
{
}

} // verus!
