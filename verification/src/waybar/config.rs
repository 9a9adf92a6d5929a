//! The status module's configuration: which server, and how near a flight has to be.

use crate::number::{self, Number};
use crate::text;
use vstd::prelude::*;

verus! {

/// The display range by default, in nautical miles.
pub const DEFAULT_DISPLAY_RANGE_NM: i32 = 35;

/// Which server to ask.
#[derive(Debug)]
pub struct Server {
    pub url: String,
}

impl Default for Server {
    fn default() -> (r: Server)
        ensures
            r.url@ == "http://127.0.0.1:7878"@,
    {
        Server { url: "http://127.0.0.1:7878".to_owned() }
    }
}

/// How near a flight has to be to be shown.
#[derive(Clone, Copy, Debug, PartialEq, Eq, Structural)]
pub struct Display {
    pub range_nm: Number,
}

impl Default for Display {
    fn default() -> (r: Display)
        ensures
            r.range_nm.finite(),
            r.range_nm.units() == DEFAULT_DISPLAY_RANGE_NM * number::one(),
    {
        Display { range_nm: number::whole(DEFAULT_DISPLAY_RANGE_NM) }
    }
}

#[derive(Debug)]
pub struct Config {
    pub server: Server,
    pub display: Display,
}

impl Default for Config {
    fn default() -> (r: Config)
        ensures
            r.server.url@ == "http://127.0.0.1:7878"@,
            r.display.range_nm.finite(),
            r.display.range_nm.units() == DEFAULT_DISPLAY_RANGE_NM * number::one(),
    {
        Config { server: Server::default(), display: Display::default() }
    }
}

impl Config {
    /// A range by which a flight can be shown.
    pub open spec fn range_usable(self) -> bool {
        self.display.range_nm.finite() && self.display.range_nm.above_int(0)
    }

    /// Falls back to the default range, with a warning, where the range is no positive
    /// distance; `range_text` is the range's shortest text.
    pub fn finalize(self, range_text: &str) -> (r: (Config, Vec<String>))
        ensures
            r.0.server == self.server,
            self.range_usable() ==> r.0 == self && r.1@.len() == 0,
            !self.range_usable() ==> r.0.display.range_nm.finite()
                && r.0.display.range_nm.units() == DEFAULT_DISPLAY_RANGE_NM * number::one()
                && text::all(r.1@) == seq![
                "display.range_nm "@ + range_text@
                    + " is not a positive distance; using the 35 nm default"@,
            ],
    {
        let range = self.display.range_nm;
        let mut warnings: Vec<String> = Vec::new();
        if range.is_finite() && range.is_above_int(0) {
            return (self, warnings);
        }
        warnings.push(
            text::concat3(
                "display.range_nm ",
                range_text,
                " is not a positive distance; using the 35 nm default",
            ),
        );
        let config = Config { server: self.server, display: Display::default() };
        assert(text::all(warnings@) =~= seq![
            "display.range_nm "@ + range_text@
                + " is not a positive distance; using the 35 nm default"@,
        ]);
        (config, warnings)
    }
}

/// A range can be used where it is a number above zero.
pub proof fn law_usable_ranges_are_positive(config: Config)
    ensures
        config.display.range_nm.finite() ==> (config.range_usable()
            <==> config.display.range_nm.units() > 0),
        !config.display.range_nm.finite() ==> !config.range_usable(),
        DEFAULT_DISPLAY_RANGE_NM == 35,
{
    assert(0 * number::one() == 0) by (nonlinear_arith);
}

} // verus!
