//! The radar's configuration: which server, and how many frames a second.

use crate::decimal;
use crate::number;
use crate::span::{Span, SECOND};
use crate::text;
use vstd::arithmetic::power2::*;
use vstd::prelude::*;

verus! {

/// Which server to ask.
#[derive(Debug)]
pub struct Server {
    pub url: String,
}

impl Default for Server {
    fn default() -> (r: Server)
        ensures
            r.url@ == "http://127.0.0.1:7878"@,
    {
        Server { url: "http://127.0.0.1:7878".to_owned() }
    }
}

/// How the radar is drawn.
#[derive(Clone, Copy, Debug, PartialEq, Eq, Structural)]
pub struct Render {
    /// Frames per second.
    pub fps: u32,
}

impl Default for Render {
    fn default() -> (r: Render)
        ensures
            r.fps == 4,
    {
        Render { fps: 4 }
    }
}

#[derive(Debug)]
pub struct Config {
    pub server: Server,
    pub render: Render,
}

impl Default for Config {
    fn default() -> (r: Config)
        ensures
            r.server.url@ == "http://127.0.0.1:7878"@,
            r.render.fps == 4,
    {
        Config { server: Server::default(), render: Render::default() }
    }
}

impl Config {
    /// The frame rate moved into what is drawn.
    pub open spec fn bounded_fps(self) -> int {
        crate::span::clamped(self.render.fps as int, 1, 60)
    }

    /// Bounds the frame rate, with a warning where it was out of bounds.
    pub fn finalize(self) -> (r: (Config, Vec<String>))
        ensures
            r.0.server == self.server,
            r.0.render.fps == self.bounded_fps(),
            text::all(r.1@) == (if 1 <= self.render.fps <= 60 {
                Seq::empty()
            } else {
                seq![
                    "render.fps "@ + decimal::dec(self.render.fps as nat)
                        + " out of [1, 60]; clamping to "@ + decimal::dec(self.bounded_fps() as nat),
                ]
            }),
    {
        let fps: u32 = self.render.fps;
        let mut warnings: Vec<String> = Vec::new();
        let clamped: u32 = if fps < 1 {
            1
        } else if fps > 60 {
            60
        } else {
            fps
        };
        if clamped != fps {
            let mut s = text::concat3(
                "render.fps ",
                decimal::decimal(fps as u128).as_str(),
                " out of [1, 60]; clamping to ",
            );
            s.append(decimal::decimal(clamped as u128).as_str());
            warnings.push(s);
        }
        let config = Config { server: self.server, render: Render { fps: clamped } };
        assert(text::all(warnings@) =~= (if 1 <= self.render.fps <= 60 {
            Seq::empty()
        } else {
            seq![
                "render.fps "@ + decimal::dec(self.render.fps as nat)
                    + " out of [1, 60]; clamping to "@ + decimal::dec(self.bounded_fps() as nat),
            ]
        }));
        (config, warnings)
    }

    /// The time of one frame: the number of seconds nearest to the part of a second that it
    /// is, to the nearest nanosecond. No frame at all counts as one a second.
    pub fn render_interval(&self) -> (r: Span)
        ensures
            r.nanos == number::round_half_even(
                number::reciprocal_units(
                    if self.render.fps == 0 {
                        1
                    } else {
                        self.render.fps as nat
                    },
                ) * SECOND as nat,
                number::one(),
            ),
    {
        let fps: u32 = if self.render.fps == 0 {
            1
        } else {
            self.render.fps
        };
        let (sig, shift): (u64, u64) = number::reciprocal(fps);
        let nanos: u128 = number::round_shifted(sig, 1_000_000_000, shift);
        proof {
            let rest = (1074 - shift) as nat;
            let c = pow2(rest);
            lemma_pow2_pos(rest);
            lemma_pow2_pos(shift as nat);
            lemma_pow2_adds(shift as nat, rest);
            number::lemma_round_scaled((sig * 1_000_000_000) as nat, pow2(shift as nat), c);
            assert((sig * 1_000_000_000) * c == (sig * c) * 1_000_000_000) by (nonlinear_arith);
        }
        Span { nanos }
    }
}

/// The frame rate that is drawn lies between one and sixty, and is the configured one wherever
/// that does.
pub proof fn law_frame_rate_is_bounded(config: Config)
    ensures
        1 <= config.bounded_fps() <= 60,
        1 <= config.render.fps <= 60 ==> config.bounded_fps() == config.render.fps,
        config.render.fps < 1 ==> config.bounded_fps() == 1,
        config.render.fps > 60 ==> config.bounded_fps() == 60,
{
}

/// A frame lasts the nearest number of nanoseconds to its part of a second.
pub proof fn law_frame_lasts_its_part_of_a_second(n: u32)
    requires
        n > 0,
    ensures
        ({
            let frame = number::round_half_even(
                number::reciprocal_units(n as nat) * SECOND as nat,
                number::one(),
            );
            2 * number::apart(
                frame as int * number::one(),
                (number::reciprocal_units(n as nat) * SECOND) as int,
            ) <= number::one()
        }),
{
    lemma_pow2_pos(1074);
    number::law_rounding_is_to_the_nearest(
        number::reciprocal_units(n as nat) * SECOND as nat,
        number::one(),
    );
}

} // verus!
