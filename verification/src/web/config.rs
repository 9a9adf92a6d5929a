//! What the page's address asks for: which server, and how many frames a second.

use crate::span;
use crate::text;
use vstd::prelude::*;

verus! {

/// The frame rate by default.
pub const DEFAULT_FPS: u32 = 4;

#[derive(Debug)]
pub struct WebConfig {
    /// The server's address, without a slash behind it.
    pub server_url: String,
    /// Frames per second, between 1 and 60.
    pub fps: u32,
}

impl Default for WebConfig {
    fn default() -> (r: WebConfig)
        ensures
            r.server_url@ == "http://127.0.0.1:7878"@,
            r.fps == DEFAULT_FPS,
    {
        WebConfig { server_url: "http://127.0.0.1:7878".to_owned(), fps: DEFAULT_FPS }
    }
}

/// What one pair of a query makes of what is known so far: server and frame rate. A pair
/// without a value, with an unknown key or with a value that does not read changes nothing.
pub open spec fn with_pair(known: (Seq<char>, u32), pair: Seq<char>) -> (Seq<char>, u32) {
    match text::halves(pair, '=') {
        None => known,
        Some((key, value)) => if key == "server"@ && value.len() > 0 {
            (text::without_trailing(value, '/'), known.1)
        } else if key == "fps"@ {
            match text::number_of(value) {
                Some(n) => (known.0, span::clamped(n as int, 1, 60) as u32),
                None => known,
            }
        } else {
            known
        },
    }
}

/// What the first `n` pairs of a query make of the defaults.
pub open spec fn with_pairs(pairs: Seq<Seq<char>>, n: nat) -> (Seq<char>, u32)
    decreases n,
{
    if n == 0 {
        ("http://127.0.0.1:7878"@, DEFAULT_FPS)
    } else {
        with_pair(with_pairs(pairs, (n - 1) as nat), pairs[n - 1])
    }
}

/// What a query asks for.
pub open spec fn asked(search: Seq<char>) -> (Seq<char>, u32) {
    let pairs = text::parts(text::without_leading(search, '?'), '&');
    with_pairs(pairs, pairs.len())
}

impl WebConfig {
    /// The time of one frame in milliseconds.
    pub fn frame_ms(&self) -> (r: u32)
        ensures
            r == 1000int / (if self.fps == 0 {
                1
            } else {
                self.fps as int
            }),
    {
        if self.fps == 0 {
            1000
        } else {
            1000 / self.fps
        }
    }

    /// Reads a query such as `?a=b&c=d`; values are taken as they stand.
    pub fn from_query(search: &str) -> (r: WebConfig)
        ensures
            (r.server_url@, r.fps) == asked(search@),
    {
        let mut cfg = WebConfig::default();
        let pairs = text::split(text::trim_start_char(search, '?').as_str(), '&');
        let mut i: usize = 0;
        while i < pairs.len()
            invariant
                i <= pairs.len(),
                (cfg.server_url@, cfg.fps) == with_pairs(text::all(pairs@), i as nat),
            decreases pairs.len() - i,
        {
            match text::split_once(pairs[i].as_str(), '=') {
                None => {},
                Some((key, value)) => {
                    if text::same(key.as_str(), "server") && !value.as_str().is_empty() {
                        cfg.server_url = text::trim_end_char(value.as_str(), '/');
                    } else if text::same(key.as_str(), "fps") {
                        match text::parse_u32(value.as_str()) {
                            Some(n) => {
                                cfg.fps = if n < 1 {
                                    1
                                } else if n > 60 {
                                    60
                                } else {
                                    n
                                };
                            },
                            None => {},
                        }
                    }
                },
            }
            i = i + 1;
        }
        cfg
    }
}

/// Whatever the query, the frame rate is between 1 and 60, so a frame takes at least 16 and at
/// most 1000 milliseconds.
pub proof fn law_frame_rate_is_bounded(search: Seq<char>)
    ensures
        1 <= asked(search).1 <= 60,
        16 <= 1000int / asked(search).1 as int <= 1000,
{
    let pairs = text::parts(text::without_leading(search, '?'), '&');
    lemma_bounded(pairs, pairs.len());
    let fps: int = asked(search).1 as int;
    assert(16 <= 1000int / fps <= 1000) by (nonlinear_arith)
        requires
            1 <= fps <= 60,
    ;
}

proof fn lemma_bounded(pairs: Seq<Seq<char>>, n: nat)
    ensures
        1 <= with_pairs(pairs, n).1 <= 60,
    decreases n,
{
    if n > 0 {
        lemma_bounded(pairs, (n - 1) as nat);
    }
}

proof fn lemma_no_trailing(s: Seq<char>, c: char)
    ensures
        text::without_trailing(s, c).len() > 0 ==> text::without_trailing(s, c).last() != c,
    decreases s.len(),
{
    if s.len() > 0 && s.last() == c {
        lemma_no_trailing(s.drop_last(), c);
    }
}

/// Whatever the query, the server's address has no slash behind it.
pub proof fn law_server_has_no_trailing_slash(search: Seq<char>)
    ensures
        asked(search).0.len() > 0 ==> asked(search).0.last() != '/',
{
    let pairs = text::parts(text::without_leading(search, '?'), '&');
    lemma_server(pairs, pairs.len());
}

proof fn lemma_server(pairs: Seq<Seq<char>>, n: nat)
    ensures
        with_pairs(pairs, n).0.len() > 0 ==> with_pairs(pairs, n).0.last() != '/',
    decreases n,
{
    if n == 0 {
        reveal_strlit("http://127.0.0.1:7878");
    } else {
        lemma_server(pairs, (n - 1) as nat);
        match text::halves(pairs[n - 1], '=') {
            Some((key, value)) => {
                lemma_no_trailing(value, '/');
            },
            None => {},
        }
    }
}

} // verus!
